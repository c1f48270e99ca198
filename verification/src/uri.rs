//! SIP URIs as the stack handles them: the part before the parameters, the
//! host and port, and the parameters, each kept as it is displayed. A URI's
//! text is the base followed by each parameter's text; the URI's headers
//! part is not displayed.
use crate::text::{eq_ignore_ascii_case, lower_seq};
use vstd::prelude::*;

verus! {

/// A URI parameter: one that the URI grammar does not know, by name and
/// optional value, or a known one (transport, user, lr, ...) by its text.
#[derive(Debug, Clone, PartialEq, Eq)]
pub enum UriParam {
    Other(String, Option<String>),
    Known(String),
}

/// A URI: `base` is the scheme, user part and host with port as displayed,
/// `host_port` the host with port alone (the end of `base`), and `has_port`
/// tells whether the URI names a port.
#[derive(Debug, Clone, PartialEq, Eq)]
pub struct UriParts {
    pub base: String,
    pub host_port: String,
    pub has_port: bool,
    pub params: Vec<UriParam>,
}

/// What a parameter holds.
pub enum ParamView {
    Other(Seq<char>, Option<Seq<char>>),
    Known(Seq<char>),
}

/// What a URI holds.
pub struct UriView {
    pub base: Seq<char>,
    pub host_port: Seq<char>,
    pub has_port: bool,
    pub params: Seq<ParamView>,
}

impl View for UriParam {
    type V = ParamView;

    open spec fn view(&self) -> ParamView {
        match self {
            UriParam::Other(n, Some(v)) => ParamView::Other(n@, Some(v@)),
            UriParam::Other(n, None) => ParamView::Other(n@, None),
            UriParam::Known(t) => ParamView::Known(t@),
        }
    }
}

impl View for UriParts {
    type V = UriView;

    open spec fn view(&self) -> UriView {
        UriView {
            base: self.base@,
            host_port: self.host_port@,
            has_port: self.has_port,
            params: param_views(self.params@),
        }
    }
}

/// What each parameter holds.
pub open spec fn param_views(ps: Seq<UriParam>) -> Seq<ParamView> {
    ps.map_values(|p: UriParam| p@)
}

/// The text of a parameter: `;name=value`, `;name`, or the known text.
pub open spec fn param_text(p: ParamView) -> Seq<char> {
    match p {
        ParamView::Other(n, Some(v)) => ";"@ + n + "="@ + v,
        ParamView::Other(n, None) => ";"@ + n,
        ParamView::Known(t) => t,
    }
}

/// The texts of the parameters, one after the other.
pub open spec fn params_text(ps: Seq<ParamView>) -> Seq<char>
    decreases ps.len(),
{
    if ps.len() == 0 {
        Seq::empty()
    } else {
        params_text(ps.drop_last()) + param_text(ps.last())
    }
}

/// The text of a URI.
pub open spec fn uri_display(u: UriView) -> Seq<char> {
    u.base + params_text(u.params)
}

/// The scheme and user part: `base` without the host and port at its end.
pub open spec fn uri_head(u: UriView) -> Seq<char> {
    u.base.take(u.base.len() - u.host_port.len())
}

/// The base ends with the host and port.
pub open spec fn parts_wf(u: UriView) -> bool {
    u.host_port.len() <= u.base.len() && u.base.skip(u.base.len() - u.host_port.len()) == u.host_port
}

/// A copy of a parameter.
pub fn copy_param(p: &UriParam) -> (r: UriParam)
    ensures
        r == *p,
{
    match p {
        UriParam::Other(n, v) => UriParam::Other(
            n.clone(),
            match v {
                Some(x) => Some(x.clone()),
                None => None,
            },
        ),
        UriParam::Known(t) => UriParam::Known(t.clone()),
    }
}

/// Appends the text of `p` to `s`.
pub fn push_param_text(s: &mut String, p: &UriParam)
    ensures
        final(s)@ == old(s)@ + param_text(p@),
{
    proof {
        reveal_strlit(";");
        reveal_strlit("=");
    }
    match p {
        UriParam::Other(n, Some(v)) => {
            s.append(";");
            s.append(n.as_str());
            s.append("=");
            s.append(v.as_str());
            proof {
                assert(s@ =~= old(s)@ + param_text(p@));
            }
        },
        UriParam::Other(n, None) => {
            s.append(";");
            s.append(n.as_str());
            proof {
                assert(s@ =~= old(s)@ + param_text(p@));
            }
        },
        UriParam::Known(t) => {
            s.append(t.as_str());
        },
    }
}

/// Appends the texts of `ps` to `s`.
pub fn push_params_text(s: &mut String, ps: &Vec<UriParam>)
    ensures
        final(s)@ == old(s)@ + params_text(param_views(ps@)),
{
    let ghost pv = param_views(ps@);
    let mut i: usize = 0;
    while i < ps.len()
        invariant
            i <= ps@.len(),
            pv == param_views(ps@),
            s@ == old(s)@ + params_text(pv.take(i as int)),
        decreases ps@.len() - i,
    {
        push_param_text(s, &ps[i]);
        proof {
            let t = pv.take(i as int + 1);
            assert(t.drop_last() =~= pv.take(i as int));
            assert(t.last() == ps@[i as int]@);
            assert(s@ =~= old(s)@ + params_text(t));
        }
        i = i + 1;
    }
    proof {
        assert(pv.take(pv.len() as int) =~= pv);
    }
}

impl UriParts {
    /// The text of the URI.
    pub fn to_text(&self) -> (s: String)
        ensures
            s@ == uri_display(self@),
    {
        let mut s = self.base.clone();
        push_params_text(&mut s, &self.params);
        s
    }
}

/// Some parameter is one the grammar does not know, named `name` up to ASCII case.
pub open spec fn has_other_named(ps: Seq<ParamView>, name: Seq<char>) -> bool {
    exists|i: int| 0 <= i < ps.len() && other_named(#[trigger] ps[i], name)
}

/// The parameter is one the grammar does not know, named `name` up to ASCII case.
pub open spec fn other_named(p: ParamView, name: Seq<char>) -> bool {
    match p {
        ParamView::Other(n, _) => lower_seq(n) == lower_seq(name),
        ParamView::Known(_) => false,
    }
}

/// Whether some parameter is one the grammar does not know, named `name` up
/// to ASCII case.
pub fn find_other_named(ps: &Vec<UriParam>, name: &str) -> (r: bool)
    ensures
        r == has_other_named(param_views(ps@), name@),
{
    let mut i: usize = 0;
    while i < ps.len()
        invariant
            i <= ps@.len(),
            forall|j: int| 0 <= j < i ==> !other_named(#[trigger] ps@[j]@, name@),
        decreases ps@.len() - i,
    {
        match &ps[i] {
            UriParam::Other(n, _) => {
                if eq_ignore_ascii_case(n.as_str(), name) {
                    proof {
                        assert(param_views(ps@)[i as int] == ps@[i as int]@);
                    }
                    return true;
                }
            },
            UriParam::Known(_) => {},
        }
        i = i + 1;
    }
    proof {
        assert forall|j: int| 0 <= j < ps@.len() implies !other_named(#[trigger] param_views(ps@)[j], name@) by {
            assert(param_views(ps@)[j] == ps@[j]@);
        }
    }
    false
}

/// A From, To or Contact value as its typed form displays it: the part up
/// to and including the `>` of the address, then the header's parameters.
#[derive(Debug, Clone, PartialEq, Eq)]
pub struct NameAddr {
    pub prefix: String,
    pub params: Vec<UriParam>,
}

/// What a name-address holds.
pub struct NameAddrView {
    pub prefix: Seq<char>,
    pub params: Seq<ParamView>,
}

impl View for NameAddr {
    type V = NameAddrView;

    open spec fn view(&self) -> NameAddrView {
        NameAddrView { prefix: self.prefix@, params: param_views(self.params@) }
    }
}

/// The text of a name-address.
pub open spec fn name_addr_text(n: NameAddrView) -> Seq<char> {
    n.prefix + params_text(n.params)
}

/// A tag parameter.
pub open spec fn is_tag_param(p: ParamView) -> bool {
    p matches ParamView::Known(t) && t.len() >= 5 && t.take(5) == ";tag="@
}

/// The name-address has a tag parameter.
pub open spec fn has_tag(n: NameAddrView) -> bool {
    exists|i: int| 0 <= i < n.params.len() && is_tag_param(#[trigger] n.params[i])
}

/// The tag parameter with the value `tag`.
pub open spec fn tag_param(tag: Seq<char>) -> ParamView {
    ParamView::Known(";tag="@ + tag)
}

/// The name-address with its tag parameters replaced by one tag.
pub open spec fn with_tag(n: NameAddrView, tag: Seq<char>) -> NameAddrView {
    NameAddrView { prefix: n.prefix, params: n.params.filter(|p: ParamView| !is_tag_param(p)).push(tag_param(tag)) }
}

/// Whether a parameter is a tag parameter.
pub fn is_tag_param_exec(p: &UriParam) -> (r: bool)
    ensures
        r == is_tag_param(p@),
{
    match p {
        UriParam::Known(t) => {
            let cs = crate::text::chars_of(t.as_str());
            if cs.len() < 5 {
                return false;
            }
            let head = crate::text::string_from(&cs, 0, 5);
            proof {
                reveal_strlit(";tag=");
                assert(cs@.subrange(0, 5) =~= t@.take(5));
            }
            crate::text::str_eq(head.as_str(), ";tag=")
        },
        UriParam::Other(_, _) => false,
    }
}

/// The tag parameter with the value `tag`.
pub fn make_tag_param(tag: &str) -> (p: UriParam)
    ensures
        p@ == tag_param(tag@),
{
    let mut t = String::from_str(";tag=");
    t.append(tag);
    proof {
        reveal_strlit(";tag=");
    }
    UriParam::Known(t)
}

impl NameAddr {
    /// A copy of the name-address.
    pub fn duplicate(&self) -> (r: NameAddr)
        ensures
            r@ == self@,
    {
        let mut params: Vec<UriParam> = Vec::new();
        let mut i: usize = 0;
        while i < self.params.len()
            invariant
                i <= self.params@.len(),
                param_views(params@) == param_views(self.params@.take(i as int)),
            decreases self.params@.len() - i,
        {
            let ghost before = params@;
            params.push(copy_param(&self.params[i]));
            proof {
                assert(self.params@.take(i as int + 1) =~= self.params@.take(i as int).push(self.params@[i as int]));
                assert(param_views(params@) =~= param_views(before).push(self.params@[i as int]@));
                assert(param_views(self.params@.take(i as int + 1)) =~= param_views(self.params@.take(i as int)).push(
                    self.params@[i as int]@,
                ));
            }
            i = i + 1;
        }
        proof {
            assert(self.params@.take(self.params@.len() as int) =~= self.params@);
        }
        NameAddr { prefix: self.prefix.clone(), params }
    }

    /// The text of the name-address.
    pub fn to_text(&self) -> (s: String)
        ensures
            s@ == name_addr_text(self@),
    {
        let mut s = self.prefix.clone();
        push_params_text(&mut s, &self.params);
        s
    }

    /// Whether the name-address has a tag parameter.
    pub fn tagged(&self) -> (r: bool)
        ensures
            r == has_tag(self@),
    {
        let ghost pv = param_views(self.params@);
        let mut i: usize = 0;
        while i < self.params.len()
            invariant
                pv == param_views(self.params@),
                i <= self.params@.len(),
                forall|j: int| 0 <= j < i ==> !is_tag_param(#[trigger] pv[j]),
            decreases self.params@.len() - i,
        {
            if is_tag_param_exec(&self.params[i]) {
                proof {
                    assert(pv[i as int] == self.params@[i as int]@);
                    assert(is_tag_param(self@.params[i as int]));
                }
                return true;
            }
            proof {
                assert(pv[i as int] == self.params@[i as int]@);
            }
            i = i + 1;
        }
        proof {
            assert(self@.params == pv);
        }
        false
    }

    /// The name-address with its tag parameters replaced by one tag.
    pub fn set_tag(&mut self, tag: &str)
        ensures
            final(self)@ == with_tag(old(self)@, tag@),
    {
        let ghost pv = param_views(self.params@);
        let mut kept: Vec<UriParam> = Vec::new();
        let mut i: usize = 0;
        while i < self.params.len()
            invariant
                pv == param_views(self.params@),
                i <= self.params@.len(),
                param_views(kept@) == pv.take(i as int).filter(|p: ParamView| !is_tag_param(p)),
            decreases self.params@.len() - i,
        {
            let p = copy_param(&self.params[i]);
            proof {
                reveal(Seq::filter);
                assert(pv.take(i as int + 1).drop_last() =~= pv.take(i as int));
                assert(pv.take(i as int + 1).last() == p@);
            }
            if !is_tag_param_exec(&p) {
                let ghost before = kept@;
                kept.push(p);
                proof {
                    assert(param_views(kept@) =~= param_views(before).push(p@));
                }
            }
            i = i + 1;
        }
        proof {
            assert(pv.take(self.params@.len() as int) =~= pv);
        }
        let ghost before = kept@;
        kept.push(make_tag_param(tag));
        proof {
            assert(param_views(kept@) =~= param_views(before).push(tag_param(tag@)));
        }
        self.params = kept;
    }
}

} // verus!
