//! What the stack reads from messages beyond the transaction key: a
//! response's reason and content type, the target a 2xx response's Contact
//! names, a Contact URI read leniently, the destination of a request, and
//! two edits of a header list.
use crate::contact::{tokens_view, uri_params, CustomContactTokenizer};
use crate::error::Error;
use crate::header_values::{contact_uri_parts, opt_view, route_first_uri, spec_contact_uri, spec_route_first_uri, spec_uri_parts, uri_parts};
use crate::message::{first_value, has_kind, is_first_of_kind, Header, HeaderKind, Request, Response, SipAddr};
use crate::text::{eq_ignore_ascii_case, lower_seq};
use crate::uri::{
    find_other_named, has_other_named, other_named, param_views, parts_wf, uri_display, uri_head, ParamView,
    UriParam, UriParts, UriView,
};
use vstd::prelude::*;

verus! {

/// The reason of a response: the value of the first header that is either a
/// `Reason` header (name in any case) or an Error-Info header.
pub open spec fn spec_reason(s: Seq<Header>) -> Option<Seq<char>>
    decreases s.len(),
{
    if s.len() == 0 {
        None
    } else {
        match s[0] {
            Header::Other(n, v) => if lower_seq(n@) == lower_seq("reason"@) {
                Some(v@)
            } else {
                spec_reason(s.drop_first())
            },
            Header::ErrorInfo(v) => Some(v@),
            _ => spec_reason(s.drop_first()),
        }
    }
}

/// The reason phrase a response carries, if any.
pub fn reason_phrase(resp: &Response) -> (r: Option<String>)
    ensures
        opt_view(r) == spec_reason(resp.headers@),
{
    let mut i: usize = 0;
    assert(resp.headers@.skip(0) =~= resp.headers@);
    while i < resp.headers.len()
        invariant
            i <= resp.headers@.len(),
            spec_reason(resp.headers@) == spec_reason(resp.headers@.skip(i as int)),
        decreases resp.headers@.len() - i,
    {
        proof {
            assert(resp.headers@.skip(i as int).drop_first() =~= resp.headers@.skip(i as int + 1));
        }
        match &resp.headers[i] {
            Header::Other(n, v) => {
                if eq_ignore_ascii_case(n.as_str(), "reason") {
                    return Some(v.clone());
                }
            },
            Header::ErrorInfo(v) => {
                return Some(v.clone());
            },
            _ => {},
        }
        i = i + 1;
    }
    None
}

/// The value of the response's first Content-Type header, if any.
pub fn content_type(resp: &Response) -> (r: Option<String>)
    ensures
        opt_view(r) == first_value(resp.headers@, HeaderKind::ContentType),
{
    match crate::message::first_header_value(&resp.headers, HeaderKind::ContentType) {
        Some(v) => Some(v.clone()),
        None => None,
    }
}

/// Puts `header` in front of the others.
pub fn push_front(headers: &mut Vec<Header>, header: Header)
    ensures
        final(headers)@ == seq![header] + old(headers)@,
{
    headers.insert(0, header);
    proof {
        assert(headers@ =~= seq![header] + old(headers)@);
    }
}

/// Removes the first header of kind `k`, if there is one.
pub fn header_pop(headers: &mut Vec<Header>, k: HeaderKind)
    ensures
        !has_kind(old(headers)@, k) ==> final(headers)@ == old(headers)@,
        has_kind(old(headers)@, k) ==> exists|i: int|
            is_first_of_kind(old(headers)@, k, i) && final(headers)@ == old(headers)@.remove(i),
{
    match crate::message::find_first(headers, k) {
        Some(i) => {
            headers.remove(i);
        },
        None => {},
    }
}

/// The position of the first parameter that the grammar does not know and
/// that is named `name` up to ASCII case.
pub open spec fn first_other(ps: Seq<ParamView>, name: Seq<char>) -> Option<int>
    decreases ps.len(),
{
    if ps.len() == 0 {
        None
    } else if other_named(ps.last(), name) && first_other(ps.drop_last(), name) is None {
        Some(ps.len() - 1)
    } else {
        first_other(ps.drop_last(), name)
    }
}

/// A lenient Contact parameter applied to a URI's parameters: `transport` is
/// left out; a parameter of the same name (up to ASCII case) that the grammar
/// does not know takes the value; otherwise the parameter is added.
pub open spec fn apply_token(ps: Seq<ParamView>, t: (Seq<char>, Option<Seq<char>>)) -> Seq<ParamView> {
    if lower_seq(t.0) == lower_seq("transport"@) {
        ps
    } else {
        match first_other(ps, t.0) {
            Some(i) => ps.update(i, ParamView::Other(ps[i]->Other_0, t.1)),
            None => ps.push(ParamView::Other(t.0, t.1)),
        }
    }
}

/// All lenient Contact parameters applied in order.
pub open spec fn apply_tokens(ps: Seq<ParamView>, ts: Seq<(Seq<char>, Option<Seq<char>>)>) -> Seq<ParamView>
    decreases ts.len(),
{
    if ts.len() == 0 {
        ps
    } else {
        apply_token(apply_tokens(ps, ts.drop_last()), ts.last())
    }
}

/// The URI of a Contact value: as the strict grammar reads it when it can;
/// otherwise the lenient reading's URI, parsed, with the lenient parameters
/// applied. `None` when neither yields a URI.
pub open spec fn spec_extract_uri(line: Seq<char>) -> Option<UriView> {
    match spec_contact_uri(line) {
        Some(u) => Some(u),
        None => {
            let t = crate::contact::trim(line);
            if t.len() == 0 {
                None
            } else {
                let text = crate::contact::contact_uri_text(t);
                match spec_uri_parts(text) {
                    None => None,
                    Some(u) => Some(
                        UriView {
                            params: apply_tokens(u.params, uri_params(text)),
                            ..u
                        },
                    ),
                }
            }
        },
    }
}

/// The position of the first parameter not known to the grammar that is
/// named `name` up to ASCII case.
fn first_other_exec(ps: &Vec<UriParam>, name: &String) -> (r: Option<usize>)
    ensures
        r matches Some(i) ==> first_other(param_views(ps@), name@) == Some(i as int) && i < ps@.len(),
        r is None ==> first_other(param_views(ps@), name@) is None,
{
    let ghost pv = param_views(ps@);
    let mut i: usize = 0;
    while i < ps.len()
        invariant
            pv == param_views(ps@),
            i <= ps@.len(),
            first_other(pv.take(i as int), name@) is None,
        decreases ps@.len() - i,
    {
        proof {
            assert(pv.take(i as int + 1).drop_last() =~= pv.take(i as int));
            assert(pv.take(i as int + 1).last() == ps@[i as int]@);
        }
        match &ps[i] {
            UriParam::Other(n, _) => {
                if eq_ignore_ascii_case(n.as_str(), name.as_str()) {
                    proof {
                        lemma_first_other_prefix(pv, i as int + 1, name@);
                    }
                    return Some(i);
                }
            },
            UriParam::Known(_) => {},
        }
        i = i + 1;
    }
    proof {
        assert(pv.take(ps@.len() as int) =~= pv);
    }
    None
}

/// A first match within a prefix is the first match of the whole.
proof fn lemma_first_other_prefix(ps: Seq<ParamView>, k: int, name: Seq<char>)
    requires
        0 < k <= ps.len(),
        first_other(ps.take(k), name) is Some,
    ensures
        first_other(ps, name) == first_other(ps.take(k), name),
    decreases ps.len() - k,
{
    if k < ps.len() {
        assert(ps.take(k + 1).drop_last() =~= ps.take(k));
        lemma_first_other_prefix(ps, k + 1, name);
    } else {
        assert(ps.take(k) =~= ps);
    }
}

/// The first match is a match.
proof fn lemma_first_other_found(ps: Seq<ParamView>, name: Seq<char>)
    ensures
        first_other(ps, name) matches Some(i) ==> 0 <= i < ps.len() && other_named(ps[i], name)
            && first_other(ps, name) == Some(i),
    decreases ps.len(),
{
    if ps.len() > 0 {
        lemma_first_other_found(ps.drop_last(), name);
        if let Some(i) = first_other(ps.drop_last(), name) {
            assert(ps.drop_last()[i] == ps[i]);
        }
    }
}

/// Applies one lenient Contact parameter.
fn apply_token_exec(ps: &mut Vec<UriParam>, name: &String, value: &Option<String>)
    ensures
        param_views(final(ps)@) == apply_token(param_views(old(ps)@), (name@, opt_view(*value))),
{
    let ghost pv = param_views(old(ps)@);
    if eq_ignore_ascii_case(name.as_str(), "transport") {
        return;
    }
    let v = match value {
        Some(x) => Some(x.clone()),
        None => None,
    };
    match first_other_exec(ps, name) {
        Some(i) => {
            proof {
                lemma_first_other_found(pv, name@);
                assert(pv[i as int] == ps@[i as int]@);
            }
            let key = match &ps[i] {
                UriParam::Other(k, _) => k.clone(),
                UriParam::Known(t) => t.clone(),
            };
            ps.set(i, UriParam::Other(key, v));
            proof {
                assert(param_views(ps@) =~= pv.update(i as int, ParamView::Other(pv[i as int]->Other_0, opt_view(*value))));
            }
        },
        None => {
            ps.push(UriParam::Other(name.clone(), v));
            proof {
                assert(param_views(ps@) =~= pv.push(ParamView::Other(name@, opt_view(*value))));
            }
        },
    }
}

/// The URI of a Contact header value: as the strict grammar reads it when
/// it can; otherwise the URI of the lenient reading with the lenient
/// reading's parameters applied (`transport` left out). Fails when the value is empty or the lenient URI does not
/// parse.
pub fn extract_uri_from_contact(line: &str) -> (r: Result<UriParts, Error>)
    ensures
        r is Ok <==> spec_extract_uri(line@) is Some,
        r matches Ok(u) ==> spec_extract_uri(line@) == Some(u@),
        r matches Ok(u) ==> parts_wf(u@),
{
    let owned = line.to_string();
    match contact_uri_parts(&owned) {
        Ok(u) => return Ok(u),
        Err(_) => {},
    }
    let tok = CustomContactTokenizer::from_str(line)?;
    let mut uri = match uri_parts(tok.uri()) {
        Ok(u) => u,
        Err(e) => return Err(Error::SipMessageError(e)),
    };
    let ghost u0 = uri@;
    let ghost filtered = param_views(uri.params@);
    let ghost ts = tokens_view(tok.params@);
    let mut i: usize = 0;
    while i < tok.params.len()
        invariant
            ts == tokens_view(tok.params@),
            i <= tok.params@.len(),
            param_views(uri.params@) == apply_tokens(filtered, ts.take(i as int)),
            uri.base@ == u0.base,
            uri.host_port@ == u0.host_port,
            uri.has_port == u0.has_port,
        decreases tok.params@.len() - i,
    {
        proof {
            assert(ts.take(i as int + 1).drop_last() =~= ts.take(i as int));
            assert(ts.take(i as int + 1).last() == ts[i as int]);
        }
        apply_token_exec(&mut uri.params, &tok.params[i].name, &tok.params[i].value);
        i = i + 1;
    }
    proof {
        assert(ts.take(ts.len() as int) =~= ts);
        assert(uri@ =~= UriView {
            params: apply_tokens(u0.params, ts),
            ..u0
        });
    }
    Ok(uri)
}

/// The target a 2xx response's Contact names. When its URI has an `ob`
/// parameter, the parameters are dropped and, given a destination, the host
/// and port become the destination's, with its transport as a parameter.
pub open spec fn contact_target(u: UriView, destination: Option<SipAddr>) -> Seq<char> {
    if has_other_named(u.params, "ob"@) {
        match destination {
            Some(d) => uri_head(u) + d.addr@ + match d.transport {
                Some(t) => ";transport="@ + t@,
                None => Seq::<char>::empty(),
            },
            None => u.base,
        }
    } else {
        uri_display(u)
    }
}

/// The URI of the first Contact header of a response, read strictly or
/// leniently; `None` when there is no Contact header or no URI in it.
pub open spec fn response_contact(s: Seq<Header>) -> Option<UriView> {
    match first_value(s, HeaderKind::Contact) {
        None => None,
        Some(v) => spec_extract_uri(v),
    }
}

/// The remote target of a response: its Contact's URI as `contact_target`
/// gives it. Fails when there is no Contact header or no URI in it.
pub fn remote_uri(resp: &Response, destination: Option<&SipAddr>) -> (r: Result<String, Error>)
    ensures
        r is Ok <==> response_contact(resp.headers@) is Some,
        r matches Ok(s) ==> s@ == contact_target(response_contact(resp.headers@)->0, match destination {
            Some(d) => Some(*d),
            None => None,
        }),
{
    let value = match crate::message::first_header_value(&resp.headers, HeaderKind::Contact) {
        Some(v) => v,
        None => return Err(Error::SipMessageError(String::from_str("missing header: Contact"))),
    };
    let u = extract_uri_from_contact(value.as_str())?;
    if find_other_named(&u.params, "ob") {
        match destination {
            Some(d) => {
                let head_len = u.base.unicode_len() - u.host_port.unicode_len();
                let base_chars = crate::text::chars_of(u.base.as_str());
                let mut s = crate::text::string_from(&base_chars, 0, head_len);
                proof {
                    assert(base_chars@.subrange(0, head_len as int) =~= uri_head(u@));
                }
                s.append(d.addr.as_str());
                match &d.transport {
                    Some(t) => {
                        s.append(";transport=");
                        s.append(t.as_str());
                        proof {
                            reveal_strlit(";transport=");
                            assert(s@ =~= uri_head(u@) + d.addr@ + (";transport="@ + t@));
                        }
                    },
                    None => {
                        proof {
                            assert(s@ =~= uri_head(u@) + d.addr@ + Seq::<char>::empty());
                        }
                    },
                }
                Ok(s)
            },
            None => Ok(u.base.clone()),
        }
    } else {
        Ok(u.to_text())
    }
}

/// The transport named by a URI's transport parameter, if it has one.
pub open spec fn uri_transport(ps: Seq<ParamView>) -> Option<Seq<char>>
    decreases ps.len(),
{
    if ps.len() == 0 {
        None
    } else {
        match ps[0] {
            ParamView::Known(t) => if t.len() >= 11 && t.take(11) == ";transport="@ {
                Some(t.skip(11))
            } else {
                uri_transport(ps.drop_first())
            },
            _ => uri_transport(ps.drop_first()),
        }
    }
}

/// The transport address of a URI: its host and port, with the transport
/// its parameters name.
pub fn addr_of_uri(u: &UriParts) -> (a: SipAddr)
    ensures
        a.addr@ == u.host_port@,
        opt_view(a.transport) == uri_transport(param_views(u.params@)),
{
    let ghost pv = param_views(u.params@);
    let mut i: usize = 0;
    assert(pv.skip(0) =~= pv);
    while i < u.params.len()
        invariant
            pv == param_views(u.params@),
            i <= u.params@.len(),
            uri_transport(pv) == uri_transport(pv.skip(i as int)),
        decreases u.params@.len() - i,
    {
        proof {
            assert(pv.skip(i as int).drop_first() =~= pv.skip(i as int + 1));
            assert(pv.skip(i as int)[0] == u.params@[i as int]@);
            reveal_strlit(";transport=");
        }
        match &u.params[i] {
            UriParam::Known(t) => {
                let cs = crate::text::chars_of(t.as_str());
                if cs.len() >= 11 {
                    let prefix = crate::text::string_from(&cs, 0, 11);
                    if crate::text::str_eq(prefix.as_str(), ";transport=") {
                        proof {
                            assert(cs@.subrange(0, 11) =~= t@.take(11));
                            assert(cs@.subrange(11, cs@.len() as int) =~= t@.skip(11));
                        }
                        return SipAddr {
                            transport: Some(crate::text::string_from(&cs, 11, cs.len())),
                            addr: u.host_port.clone(),
                        };
                    }
                    proof {
                        assert(cs@.subrange(0, 11) =~= t@.take(11));
                    }
                }
            },
            UriParam::Other(_, _) => {},
        }
        i = i + 1;
    }
    SipAddr { transport: None, addr: u.host_port.clone() }
}

/// The first Route header whose first URI parses, if any.
pub open spec fn first_route_uri(s: Seq<Header>) -> Option<UriView>
    decreases s.len(),
{
    if s.len() == 0 {
        None
    } else {
        match s[0] {
            Header::Route(v) => match spec_route_first_uri(v@) {
                Some(u) => Some(u),
                None => first_route_uri(s.drop_first()),
            },
            _ => first_route_uri(s.drop_first()),
        }
    }
}

/// Where a request goes: the first URI of its first usable Route header, or
/// else its Request-URI when that parses.
pub fn destination_from_request(request: &Request) -> (r: Option<SipAddr>)
    ensures
        ({
            let u = match first_route_uri(request.headers@) {
                Some(u) => Some(u),
                None => spec_uri_parts(request.uri@),
            };
            &&& r is Some <==> u is Some
            &&& r matches Some(a) ==> a.addr@ == u->0.host_port && opt_view(a.transport) == uri_transport(u->0.params)
        }),
{
    let mut i: usize = 0;
    assert(request.headers@.skip(0) =~= request.headers@);
    while i < request.headers.len()
        invariant
            i <= request.headers@.len(),
            first_route_uri(request.headers@) == first_route_uri(request.headers@.skip(i as int)),
        decreases request.headers@.len() - i,
    {
        proof {
            assert(request.headers@.skip(i as int).drop_first() =~= request.headers@.skip(i as int + 1));
        }
        match &request.headers[i] {
            Header::Route(v) => {
                match route_first_uri(v) {
                    Some(u) => return Some(addr_of_uri(&u)),
                    None => {},
                }
            },
            _ => {},
        }
        i = i + 1;
    }
    match uri_parts(request.uri.as_str()) {
        Ok(u) => Some(addr_of_uri(&u)),
        Err(_) => None,
    }
}

} // verus!
