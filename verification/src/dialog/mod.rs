//! SIP dialogs (RFC 3261, section 12): the dialog identifier, the dialog
//! state machine, the requests and responses a dialog builds, and the table
//! of dialogs.

pub mod authenticate;
pub mod client_dialog;
pub mod dialog;
pub mod dialog_layer;
pub mod registration;
pub mod server_dialog;

use crate::error::Error;
use crate::header_values::{from_tag, opt_view, spec_from_tag, spec_to_tag, to_tag};
use crate::message::{first_header_value, first_value, HeaderKind, Request, Response, Header};
use crate::text::{chars_of, str_eq};
use vstd::prelude::*;

verus! {

/// The identifier of a dialog: the Call-ID and the two tags. Two identifiers
/// name the same dialog when their Call-IDs are equal and their tags are
/// equal, either pairwise or crosswise (each side sees the other's tag as
/// the remote one).
#[derive(Clone, Debug)]
pub struct DialogId {
    pub call_id: String,
    pub from_tag: String,
    pub to_tag: String,
}

/// Two identifiers name the same dialog.
pub open spec fn same_dialog(a: DialogId, b: DialogId) -> bool {
    &&& a.call_id@ == b.call_id@
    &&& ((a.from_tag@ == b.from_tag@ && a.to_tag@ == b.to_tag@) || (a.from_tag@ == b.to_tag@ && a.to_tag@
        == b.from_tag@))
}

/// The identifier seen from the other side: the tags exchanged.
pub open spec fn swapped(a: DialogId) -> DialogId {
    DialogId { call_id: a.call_id, from_tag: a.to_tag, to_tag: a.from_tag }
}

impl PartialEq for DialogId {
    fn eq(&self, other: &DialogId) -> (r: bool) {
        self.same(other)
    }
}

impl vstd::std_specs::cmp::PartialEqSpecImpl for DialogId {
    open spec fn obeys_eq_spec() -> bool {
        true
    }

    open spec fn eq_spec(&self, other: &DialogId) -> bool {
        same_dialog(*self, *other)
    }
}

impl Eq for DialogId {

}

/// `a` is greater than `b` in the order of `str`: by characters,
/// a proper prefix being smaller.
pub open spec fn text_gt(a: Seq<char>, b: Seq<char>) -> bool
    decreases a.len(),
{
    if a.len() == 0 {
        false
    } else if b.len() == 0 {
        true
    } else if a[0] != b[0] {
        a[0] > b[0]
    } else {
        text_gt(a.drop_first(), b.drop_first())
    }
}

/// The text of an identifier: the Call-ID, then the greater tag, then the
/// smaller, joined by `-`.
pub open spec fn id_text(a: DialogId) -> Seq<char> {
    if text_gt(a.from_tag@, a.to_tag@) {
        a.call_id@ + "-"@ + a.from_tag@ + "-"@ + a.to_tag@
    } else {
        a.call_id@ + "-"@ + a.to_tag@ + "-"@ + a.from_tag@
    }
}

/// Whether `a` is greater than `b` in the order of `str`.
pub fn text_greater(a: &str, b: &str) -> (r: bool)
    ensures
        r == text_gt(a@, b@),
{
    let ca = chars_of(a);
    let cb = chars_of(b);
    let mut i: usize = 0;
    proof {
        assert(a@.skip(0) =~= a@);
        assert(b@.skip(0) =~= b@);
    }
    while i < ca.len() && i < cb.len() && ca[i] == cb[i]
        invariant
            i <= ca@.len(),
            i <= cb@.len(),
            ca@ == a@,
            cb@ == b@,
            text_gt(a@, b@) == text_gt(a@.skip(i as int), b@.skip(i as int)),
        decreases ca@.len() - i,
    {
        proof {
            assert(a@.skip(i as int).drop_first() =~= a@.skip(i as int + 1));
            assert(b@.skip(i as int).drop_first() =~= b@.skip(i as int + 1));
        }
        i = i + 1;
    }
    let ghost sa = a@.skip(i as int);
    let ghost sb = b@.skip(i as int);
    proof {
        if i < ca@.len() {
            assert(sa[0] == a@[i as int]);
        }
        if i < cb@.len() {
            assert(sb[0] == b@[i as int]);
        }
    }
    if i == ca.len() {
        false
    } else if i == cb.len() {
        true
    } else {
        ca[i] > cb[i]
    }
}

/// Of two different texts, exactly one is greater.
pub proof fn lemma_text_gt_total(a: Seq<char>, b: Seq<char>)
    requires
        a != b,
    ensures
        text_gt(a, b) != text_gt(b, a),
    decreases a.len(),
{
    if a.len() > 0 && b.len() > 0 && a[0] == b[0] {
        if a.drop_first() == b.drop_first() {
            assert(a.drop_first().len() == b.drop_first().len());
            assert(a.len() == b.len());
            assert forall|i: int| 0 <= i < a.len() implies a[i] == b[i] by {
                if i > 0 {
                    assert(a[i] == a.drop_first()[i - 1]);
                    assert(b[i] == b.drop_first()[i - 1]);
                }
            }
            assert(a =~= b);
        }
        lemma_text_gt_total(a.drop_first(), b.drop_first());
    } else if a.len() == 0 && b.len() == 0 {
        assert(a =~= b);
    } else if a.len() > 0 && b.len() > 0 {
        assert(a[0] != b[0]);
    }
}

/// No text is greater than itself.
pub proof fn lemma_text_gt_irreflexive(a: Seq<char>)
    ensures
        !text_gt(a, a),
    decreases a.len(),
{
    if a.len() > 0 {
        lemma_text_gt_irreflexive(a.drop_first());
    }
}

/// Why no identifier can be read from a message.
#[derive(Debug, Clone, Copy, PartialEq, Eq, Structural)]
pub enum IdFault {
    /// The Call-ID header is missing.
    CallId,
    /// The From header is missing or does not parse.
    From,
    /// The From header has no tag.
    FromTag,
    /// The To header is missing or does not parse.
    To,
    /// The To header of a response has no tag.
    ToTag,
}

/// The identifier in a message's headers: Call-ID, From tag and To tag, read
/// in that order. A missing To tag is empty when `to_tag_required` is false.
pub open spec fn spec_message_id(s: Seq<Header>, to_tag_required: bool) -> Result<(Seq<char>, Seq<char>, Seq<char>), IdFault> {
    match first_value(s, HeaderKind::CallId) {
        None => Err(IdFault::CallId),
        Some(call_id) => match first_value(s, HeaderKind::From) {
            None => Err(IdFault::From),
            Some(f) => match spec_from_tag(f) {
                None => Err(IdFault::From),
                Some(None) => Err(IdFault::FromTag),
                Some(Some(ft)) => match first_value(s, HeaderKind::To) {
                    None => Err(IdFault::To),
                    Some(t) => match spec_to_tag(t) {
                        None => Err(IdFault::To),
                        Some(None) => if to_tag_required {
                            Err(IdFault::ToTag)
                        } else {
                            Ok((call_id, ft, Seq::empty()))
                        },
                        Some(Some(tt)) => Ok((call_id, ft, tt)),
                    },
                },
            },
        },
    }
}

/// The error an identifier fault is reported as.
pub open spec fn id_error_matches(f: IdFault, e: Error) -> bool {
    match f {
        IdFault::FromTag => e is Error && e->Error_0@ == "from tag not found"@,
        IdFault::ToTag => e is Error && e->Error_0@ == "to tag not found"@,
        _ => e is SipMessageError,
    }
}

/// The identifier's parts.
pub open spec fn id_parts(a: DialogId) -> (Seq<char>, Seq<char>, Seq<char>) {
    (a.call_id@, a.from_tag@, a.to_tag@)
}

impl DialogId {
    /// Whether the two identifiers name the same dialog.
    pub fn same(&self, other: &DialogId) -> (r: bool)
        ensures
            r == same_dialog(*self, *other),
    {
        if !str_eq(self.call_id.as_str(), other.call_id.as_str()) {
            return false;
        }
        if str_eq(self.from_tag.as_str(), other.from_tag.as_str()) && str_eq(
            self.to_tag.as_str(),
            other.to_tag.as_str(),
        ) {
            return true;
        }
        str_eq(self.from_tag.as_str(), other.to_tag.as_str()) && str_eq(
            self.to_tag.as_str(),
            other.from_tag.as_str(),
        )
    }

    /// A copy of the identifier.
    pub fn duplicate(&self) -> (r: DialogId)
        ensures
            id_parts(r) == id_parts(*self),
    {
        DialogId { call_id: self.call_id.clone(), from_tag: self.from_tag.clone(), to_tag: self.to_tag.clone() }
    }

    /// The identifier seen from the other side.
    pub fn swap(&self) -> (r: DialogId)
        ensures
            id_parts(r) == id_parts(swapped(*self)),
    {
        DialogId { call_id: self.call_id.clone(), from_tag: self.to_tag.clone(), to_tag: self.from_tag.clone() }
    }

    /// The identifier's text: `<call-id>-<greater tag>-<smaller tag>`.
    pub fn to_string(&self) -> (s: String)
        ensures
            s@ == id_text(*self),
    {
        let mut s = self.call_id.clone();
        proof {
            reveal_strlit("-");
        }
        if text_greater(self.from_tag.as_str(), self.to_tag.as_str()) {
            s.append("-");
            s.append(self.from_tag.as_str());
            s.append("-");
            s.append(self.to_tag.as_str());
        } else {
            s.append("-");
            s.append(self.to_tag.as_str());
            s.append("-");
            s.append(self.from_tag.as_str());
        }
        s
    }

    /// The identifier of a request; the To tag is empty when the To header
    /// has none.
    pub fn from_request(request: &Request) -> (r: Result<DialogId, Error>)
        ensures
            r is Ok <==> spec_message_id(request.headers@, false) is Ok,
            r matches Ok(id) ==> spec_message_id(request.headers@, false) == Ok::<_, IdFault>(id_parts(id)),
            r matches Err(e) ==> id_error_matches(spec_message_id(request.headers@, false)->Err_0, e),
    {
        Self::from_headers(&request.headers, false)
    }

    /// The identifier of a response, which must carry a To tag.
    pub fn from_response(resp: &Response) -> (r: Result<DialogId, Error>)
        ensures
            r is Ok <==> spec_message_id(resp.headers@, true) is Ok,
            r matches Ok(id) ==> spec_message_id(resp.headers@, true) == Ok::<_, IdFault>(id_parts(id)),
            r matches Err(e) ==> id_error_matches(spec_message_id(resp.headers@, true)->Err_0, e),
    {
        Self::from_headers(&resp.headers, true)
    }

    /// The identifier in a list of headers.
    fn from_headers(headers: &Vec<Header>, to_tag_required: bool) -> (r: Result<DialogId, Error>)
        ensures
            r is Ok <==> spec_message_id(headers@, to_tag_required) is Ok,
            r matches Ok(id) ==> spec_message_id(headers@, to_tag_required) == Ok::<_, IdFault>(id_parts(id)),
            r matches Err(e) ==> id_error_matches(spec_message_id(headers@, to_tag_required)->Err_0, e),
    {
        proof {
            reveal_strlit("from tag not found");
            reveal_strlit("to tag not found");
        }
        let call_id = match first_header_value(headers, HeaderKind::CallId) {
            Some(c) => c.clone(),
            None => return Err(Error::SipMessageError(String::from_str("missing header: CallID"))),
        };
        let from_value = match first_header_value(headers, HeaderKind::From) {
            Some(f) => f,
            None => return Err(Error::SipMessageError(String::from_str("missing header: From"))),
        };
        let from = match from_tag(from_value) {
            Ok(Some(t)) => t,
            Ok(None) => return Err(Error::Error(String::from_str("from tag not found"))),
            Err(e) => return Err(Error::SipMessageError(e)),
        };
        let to_value = match first_header_value(headers, HeaderKind::To) {
            Some(t) => t,
            None => return Err(Error::SipMessageError(String::from_str("missing header: To"))),
        };
        let to = match to_tag(to_value) {
            Ok(Some(t)) => t,
            Ok(None) => {
                if to_tag_required {
                    return Err(Error::Error(String::from_str("to tag not found")));
                }
                String::new()
            },
            Err(e) => return Err(Error::SipMessageError(e)),
        };
        proof {
            assert(opt_view(Some(from)) == Some(from@));
        }
        Ok(DialogId { call_id, from_tag: from, to_tag: to })
    }
}

/// Naming the same dialog is reflexive.
pub proof fn lemma_same_dialog_reflexive(a: DialogId)
    ensures
        same_dialog(a, a),
{
}

/// Naming the same dialog is symmetric.
pub proof fn lemma_same_dialog_symmetric(a: DialogId, b: DialogId)
    requires
        same_dialog(a, b),
    ensures
        same_dialog(b, a),
{
}

/// Naming the same dialog is transitive.
pub proof fn lemma_same_dialog_transitive(a: DialogId, b: DialogId, c: DialogId)
    requires
        same_dialog(a, b),
        same_dialog(b, c),
    ensures
        same_dialog(a, c),
{
}

/// An identifier and its swap name the same dialog.
pub proof fn lemma_swapped_same(a: DialogId)
    ensures
        same_dialog(a, swapped(a)),
        same_dialog(swapped(a), a),
{
}

/// The text of an identifier does not depend on which side it is seen from.
pub proof fn lemma_id_text_swap(a: DialogId)
    ensures
        id_text(swapped(a)) == id_text(a),
{
    if a.from_tag@ == a.to_tag@ {
        lemma_text_gt_irreflexive(a.from_tag@);
    } else {
        lemma_text_gt_total(a.from_tag@, a.to_tag@);
    }
}

/// Identifiers that name the same dialog have the same text.
pub proof fn lemma_id_text_same(a: DialogId, b: DialogId)
    requires
        same_dialog(a, b),
    ensures
        id_text(a) == id_text(b),
{
    if a.from_tag@ == b.from_tag@ && a.to_tag@ == b.to_tag@ {
    } else {
        lemma_id_text_swap(b);
    }
}

} // verus!
