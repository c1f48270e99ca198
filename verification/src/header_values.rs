//! Reading the fields of header values. The header grammars are those of the
//! `rsip` crate, which parses every value here; each parse is named by a spec
//! function of its input, and the results are handed on as plain strings.
use rsip::headers::UntypedHeader;
use rsip::prelude::ToTypedHeader;
use crate::uri::{parts_wf, NameAddr, NameAddrView, UriParam, UriParts, UriView};
use vstd::prelude::*;

verus! {

/// The view of an optional string.
pub open spec fn opt_view(o: Option<String>) -> Option<Seq<char>> {
    match o {
        Some(s) => Some(s@),
        None => None,
    }
}

/// What `rsip` reads from a Via header value: the branch parameter's value, if
/// the value has one, and the sent-by host and port as `rsip` displays them.
/// `None` when `rsip` does not parse the value.
pub uninterp spec fn spec_via_fields(value: Seq<char>) -> Option<(Option<Seq<char>>, Seq<char>)>;

/// What `rsip` reads from a Via header value for rewriting it: the part before
/// the parameters (`SIP/2.0/<transport> <host:port>`) and each parameter as
/// `rsip` displays it (`;name=value` or `;name`). `None` when `rsip` does not
/// parse the value.
pub uninterp spec fn spec_via_display_parts(value: Seq<char>) -> Option<(Seq<char>, Seq<Seq<char>>)>;

/// The tag of a From header value as `rsip` reads it (`Some(None)` when the
/// value has no tag); `None` when `rsip` does not parse the value.
pub uninterp spec fn spec_from_tag(value: Seq<char>) -> Option<Option<Seq<char>>>;

/// The tag of a To header value as `rsip` reads it (`Some(None)` when the value
/// has no tag); `None` when `rsip` does not parse the value.
pub uninterp spec fn spec_to_tag(value: Seq<char>) -> Option<Option<Seq<char>>>;

/// The sequence number and the method name of a CSeq header value as `rsip`
/// reads them; `None` when `rsip` does not parse the value.
pub uninterp spec fn spec_cseq_fields(value: Seq<char>) -> Option<(u32, Seq<char>)>;

/// The URI of a Contact header value as `rsip` reads it (the parts of its
/// display); `None` when `rsip` does not parse the value.
pub uninterp spec fn spec_contact_uri(value: Seq<char>) -> Option<UriView>;

/// A From value as `rsip::typed::From` reads and displays it; `None` when
/// `rsip` does not parse the value.
pub uninterp spec fn spec_from_name_addr(value: Seq<char>) -> Option<NameAddrView>;

/// A To value as `rsip::typed::To` reads and displays it; `None` when `rsip`
/// does not parse the value.
pub uninterp spec fn spec_to_name_addr(value: Seq<char>) -> Option<NameAddrView>;

/// The first URI of a Route header value as `rsip` reads it; `None` when
/// `rsip` does not parse the value or it lists no URI.
pub uninterp spec fn spec_route_first_uri(value: Seq<char>) -> Option<UriView>;

/// A URI as `rsip` reads it (the parts of its display); `None` when `rsip`
/// does not parse the text.
pub uninterp spec fn spec_uri_parts(text: Seq<char>) -> Option<UriView>;

/// Reads the branch and the sent-by part of a Via value with
/// `rsip::headers::Via::typed`, `Via::branch` and the display of the sent-by
/// host and port. The result is the one named by `spec_via_fields`; the text of
/// an error is `rsip`'s and is not stated.
#[verifier::external_body]
pub(crate) fn via_fields(value: &String) -> (r: Result<(Option<String>, String), String>)
    ensures
        r matches Ok((b, h)) ==> spec_via_fields(value@) == Some((opt_view(b), h@)),
        r is Err ==> spec_via_fields(value@) is None,
{
    match rsip::headers::Via::new(value.clone()).typed() {
        Ok(via) => {
            let branch = match via.branch() {
                Some(b) => Some(b.to_string()),
                None => None,
            };
            Ok((branch, via.uri.host_with_port.to_string()))
        },
        Err(e) => Err(e.to_string()),
    }
}

/// Splits a Via value into the display of its part before the parameters and
/// the display of each parameter, through `rsip::headers::Via::typed` and the
/// `Display` of `rsip`'s version, transport, URI and parameters. The result is
/// the one named by `spec_via_display_parts`.
#[verifier::external_body]
pub(crate) fn via_display_parts(value: &String) -> (r: Result<(String, Vec<String>), String>)
    ensures
        r matches Ok((head, params)) ==> spec_via_display_parts(value@) == Some(
            (head@, crate::text::string_views(params@)),
        ),
        r is Err ==> spec_via_display_parts(value@) is None,
{
    match rsip::headers::Via::new(value.clone()).typed() {
        Ok(via) => Ok((
            format!("{}/{} {}", via.version, via.transport, via.uri),
            via.params.iter().map(|p| p.to_string()).collect(),
        )),
        Err(e) => Err(e.to_string()),
    }
}

/// Reads the tag of a From value with `rsip::headers::From::tag`. The result is
/// the one named by `spec_from_tag`.
#[verifier::external_body]
pub(crate) fn from_tag(value: &String) -> (r: Result<Option<String>, String>)
    ensures
        r matches Ok(t) ==> spec_from_tag(value@) == Some(opt_view(t)),
        r is Err ==> spec_from_tag(value@) is None,
{
    match rsip::headers::From::new(value.clone()).tag() {
        Ok(Some(t)) => Ok(Some(t.to_string())),
        Ok(None) => Ok(None),
        Err(e) => Err(e.to_string()),
    }
}

/// Reads the tag of a To value with `rsip::headers::To::tag`. The result is the
/// one named by `spec_to_tag`.
#[verifier::external_body]
pub(crate) fn to_tag(value: &String) -> (r: Result<Option<String>, String>)
    ensures
        r matches Ok(t) ==> spec_to_tag(value@) == Some(opt_view(t)),
        r is Err ==> spec_to_tag(value@) is None,
{
    match rsip::headers::To::new(value.clone()).tag() {
        Ok(Some(t)) => Ok(Some(t.to_string())),
        Ok(None) => Ok(None),
        Err(e) => Err(e.to_string()),
    }
}

/// Reads the sequence number and the method of a CSeq value with
/// `rsip::headers::CSeq::typed`; the method is handed on as `rsip` displays it.
/// The result is the one named by `spec_cseq_fields`.
#[verifier::external_body]
pub(crate) fn cseq_fields(value: &String) -> (r: Result<(u32, String), String>)
    ensures
        r matches Ok((n, m)) ==> spec_cseq_fields(value@) == Some((n, m@)),
        r is Err ==> spec_cseq_fields(value@) is None,
{
    match rsip::headers::CSeq::new(value.clone()).typed() {
        Ok(c) => Ok((c.seq, c.method.to_string())),
        Err(e) => Err(e.to_string()),
    }
}

/// Reads the URI of a Contact value with `rsip::headers::Contact::uri`. The
/// base is the display of the URI without its parameters, which by the
/// `Display` of `rsip::Uri` ends with the display of its host and port;
/// whether the URI names a port is handed on; each parameter is handed on by
/// name and value when `rsip` does not know it, by its display otherwise. The
/// result is the one named by `spec_contact_uri`.
#[verifier::external_body]
pub(crate) fn contact_uri_parts(value: &String) -> (r: Result<UriParts, String>)
    ensures
        r matches Ok(u) ==> spec_contact_uri(value@) == Some(u@) && parts_wf(u@),
        r is Err ==> spec_contact_uri(value@) is None,
{
    match rsip::headers::Contact::new(value.clone()).uri() {
        Ok(u) => Ok(UriParts {
            base: rsip::Uri { params: vec![], ..u.clone() }.to_string(),
            host_port: u.host_with_port.to_string(),
            has_port: u.host_with_port.port.is_some(),
            params: u.params.into_iter().map(|p| match p {
                rsip::Param::Other(n, v) => UriParam::Other(n.to_string(), v.map(|v| v.to_string())),
                p => UriParam::Known(p.to_string()),
            }).collect(),
        }),
        Err(e) => Err(e.to_string()),
    }
}

/// Parses a URI with `rsip::Uri::try_from` and hands on its parts as
/// `contact_uri_parts` does. The result is the one named by `spec_uri_parts`.
#[verifier::external_body]
pub(crate) fn uri_parts(text: &str) -> (r: Result<UriParts, String>)
    ensures
        r matches Ok(u) ==> spec_uri_parts(text@) == Some(u@) && parts_wf(u@),
        r is Err ==> spec_uri_parts(text@) is None,
{
    match rsip::Uri::try_from(text) {
        Ok(u) => Ok(UriParts {
            base: rsip::Uri { params: vec![], ..u.clone() }.to_string(),
            host_port: u.host_with_port.to_string(),
            has_port: u.host_with_port.port.is_some(),
            params: u.params.into_iter().map(|p| match p {
                rsip::Param::Other(n, v) => UriParam::Other(n.to_string(), v.map(|v| v.to_string())),
                p => UriParam::Known(p.to_string()),
            }).collect(),
        }),
        Err(e) => Err(e.to_string()),
    }
}

/// Reads the first URI of a Route value with `rsip::headers::Route::typed`
/// and `Route::uris`, handed on as `contact_uri_parts` does. The result is the
/// one named by `spec_route_first_uri`.
#[verifier::external_body]
pub(crate) fn route_first_uri(value: &String) -> (r: Option<UriParts>)
    ensures
        r matches Some(u) ==> spec_route_first_uri(value@) == Some(u@) && parts_wf(u@),
        r is None ==> spec_route_first_uri(value@) is None,
{
    let route = rsip::headers::Route::new(value.clone()).typed().ok()?;
    let u = route.uris().first()?.uri.clone();
    Some(UriParts {
        base: rsip::Uri { params: vec![], ..u.clone() }.to_string(),
        host_port: u.host_with_port.to_string(),
        has_port: u.host_with_port.port.is_some(),
        params: u.params.into_iter().map(|p| match p {
            rsip::Param::Other(n, v) => UriParam::Other(n.to_string(), v.map(|v| v.to_string())),
            p => UriParam::Known(p.to_string()),
        }).collect(),
    })
}

/// Reads a From value with `rsip::headers::From::typed`: the prefix is the
/// display of the typed value without parameters (by the `Display` of
/// `rsip::typed::From`, the part up to the `>`), and each parameter is handed
/// on as `contact_uri_parts` does. The result is the one named by
/// `spec_from_name_addr`.
#[verifier::external_body]
pub(crate) fn from_name_addr(value: &String) -> (r: Result<NameAddr, String>)
    ensures
        r matches Ok(n) ==> spec_from_name_addr(value@) == Some(n@),
        r is Err ==> spec_from_name_addr(value@) is None,
{
    match rsip::headers::From::new(value.clone()).typed() {
        Ok(f) => Ok(NameAddr {
            prefix: rsip::typed::From { params: vec![], ..f.clone() }.to_string(),
            params: f.params.into_iter().map(|p| match p {
                rsip::Param::Other(n, v) => UriParam::Other(n.to_string(), v.map(|v| v.to_string())),
                p => UriParam::Known(p.to_string()),
            }).collect(),
        }),
        Err(e) => Err(e.to_string()),
    }
}

/// Reads a To value with `rsip::headers::To::typed`, handed on as
/// `from_name_addr` does. The result is the one named by `spec_to_name_addr`.
#[verifier::external_body]
pub(crate) fn to_name_addr(value: &String) -> (r: Result<NameAddr, String>)
    ensures
        r matches Ok(n) ==> spec_to_name_addr(value@) == Some(n@),
        r is Err ==> spec_to_name_addr(value@) is None,
{
    match rsip::headers::To::new(value.clone()).typed() {
        Ok(t) => Ok(NameAddr {
            prefix: rsip::typed::To { params: vec![], ..t.clone() }.to_string(),
            params: t.params.into_iter().map(|p| match p {
                rsip::Param::Other(n, v) => UriParam::Other(n.to_string(), v.map(|v| v.to_string())),
                p => UriParam::Known(p.to_string()),
            }).collect(),
        }),
        Err(e) => Err(e.to_string()),
    }
}

} // verus!
