//! How identity headers (User-Agent in requests, Server in responses) are added.
use vstd::prelude::*;

verus! {

/// Controls when identity headers are added to SIP messages.
///
/// `Always` adds them to every request and response, `Never` leaves identity
/// headers to the application, and `OnlyGenerated` adds them only to messages
/// that the stack generates itself.
#[derive(Debug, Clone, Copy, PartialEq, Eq, Structural)]
pub enum IdentityBehavior {
    Always,
    Never,
    OnlyGenerated,
}

impl IdentityBehavior {
    /// The name of the variant, as it is displayed.
    pub open spec fn spec_name(self) -> Seq<char> {
        match self {
            IdentityBehavior::Always => "Always"@,
            IdentityBehavior::Never => "Never"@,
            IdentityBehavior::OnlyGenerated => "OnlyGenerated"@,
        }
    }

    /// The displayed form of the behavior.
    pub fn to_string(&self) -> (s: String)
        ensures
            s@ == self.spec_name(),
    {
        match self {
            IdentityBehavior::Always => String::from_str("Always"),
            IdentityBehavior::Never => String::from_str("Never"),
            IdentityBehavior::OnlyGenerated => String::from_str("OnlyGenerated"),
        }
    }
}

impl Default for IdentityBehavior {
    /// `Always`, so that identity headers are added unless configured otherwise.
    fn default() -> (r: Self)
        ensures
            r == IdentityBehavior::Always,
    {
        IdentityBehavior::Always
    }
}

} // verus!
