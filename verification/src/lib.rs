//! A SIP stack: transaction and dialog state machines, SIP timers and the
//! message construction rules of RFC 3261, with their contracts proved by Verus.
pub mod auth_values;
pub mod bench;
pub mod contact;
pub mod dialog;
pub mod error;
pub mod header_values;
pub mod message;
pub mod rsip_ext;
pub mod text;
pub mod transaction;
pub mod uri;

use vstd::prelude::*;

verus! {

} // verus!
