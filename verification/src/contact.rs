//! A lenient reading of Contact header values that a strict URI grammar
//! refuses: the URI between the first `<` and the next `>` (or the whole
//! value), and the `;name[=value]` parameters of that URI's path.
use crate::error::Error;
use crate::text::{chars_of, string_from};
use vstd::prelude::*;

verus! {

/// A character that `str::trim` removes: Unicode White_Space.
pub open spec fn is_white_space(c: char) -> bool {
    ||| c == '\t' || c == '\n' || c == '\x0B' || c == '\x0C' || c == '\r' || c == ' '
    ||| c == '\u{85}' || c == '\u{A0}' || c == '\u{1680}'
    ||| ('\u{2000}' <= c && c <= '\u{200A}')
    ||| c == '\u{2028}' || c == '\u{2029}' || c == '\u{202F}' || c == '\u{205F}' || c == '\u{3000}'
}

/// An ASCII space, tab, carriage return or line feed.
pub open spec fn is_ascii_space(c: char) -> bool {
    c == ' ' || c == '\t' || c == '\r' || c == '\n'
}

/// A character that ends a parameter name.
pub open spec fn ends_name(c: char) -> bool {
    c == '=' || c == ';' || c == '?' || is_ascii_space(c)
}

/// A character that ends an unquoted parameter value.
pub open spec fn ends_value(c: char) -> bool {
    c == ';' || c == '?' || is_ascii_space(c)
}

/// The first index at or after `i` whose character is not white space.
pub open spec fn skip_white(s: Seq<char>, i: int) -> int
    decreases s.len() - i,
{
    if 0 <= i < s.len() && is_white_space(s[i]) {
        skip_white(s, i + 1)
    } else {
        i
    }
}

/// The end of `s[lo..j]` once trailing white space is taken off.
pub open spec fn drop_white(s: Seq<char>, lo: int, j: int) -> int
    decreases j - lo,
{
    if lo < j && j <= s.len() && is_white_space(s[j - 1]) {
        drop_white(s, lo, j - 1)
    } else {
        j
    }
}

/// `s` without leading and trailing white space, as `str::trim` gives it.
pub open spec fn trim(s: Seq<char>) -> Seq<char> {
    let a = skip_white(s, 0);
    s.subrange(a, drop_white(s, a, s.len() as int))
}

/// The first index at or after `i` whose character is not an ASCII space.
pub open spec fn skip_space(s: Seq<char>, i: int) -> int
    decreases s.len() - i,
{
    if 0 <= i < s.len() && is_ascii_space(s[i]) {
        skip_space(s, i + 1)
    } else {
        i
    }
}

/// The end of the run of name characters starting at `i`.
pub open spec fn name_end(s: Seq<char>, i: int) -> int
    decreases s.len() - i,
{
    if 0 <= i < s.len() && !ends_name(s[i]) {
        name_end(s, i + 1)
    } else {
        i
    }
}

/// The end of the run of unquoted value characters starting at `i`.
pub open spec fn value_end(s: Seq<char>, i: int) -> int
    decreases s.len() - i,
{
    if 0 <= i < s.len() && !ends_value(s[i]) {
        value_end(s, i + 1)
    } else {
        i
    }
}

/// The first index at or after `i` holding `c`, if any.
pub open spec fn find_char(s: Seq<char>, i: int, c: char) -> Option<int>
    decreases s.len() - i,
{
    if i < 0 || i >= s.len() {
        None
    } else if s[i] == c {
        Some(i)
    } else {
        find_char(s, i + 1, c)
    }
}

/// A parameter starting at `i`: optional ASCII spaces, a non-empty name
/// (trimmed), and optionally `=` followed by a quoted value (without its
/// quotes) or a non-empty unquoted value (trimmed); a `=` followed by
/// neither is not taken. Gives the name, the value and where the parameter
/// ends.
pub open spec fn param_at(s: Seq<char>, i: int) -> Option<(Seq<char>, Option<Seq<char>>, int)> {
    let a = skip_space(s, i);
    let b = name_end(s, a);
    if b == a {
        None
    } else {
        let name = trim(s.subrange(a, b));
        if b < s.len() && s[b] == '=' {
            let k = b + 1;
            if k < s.len() && s[k] == '"' && find_char(s, k + 1, '"') is Some {
                let q = find_char(s, k + 1, '"')->0;
                Some((name, Some(s.subrange(k + 1, q)), q + 1))
            } else if value_end(s, k) > k {
                let e = value_end(s, k);
                Some((name, Some(trim(s.subrange(k, e))), e))
            } else {
                Some((name, None, b))
            }
        } else {
            Some((name, None, b))
        }
    }
}

/// The parameters that follow position `p`, each after a `;`, up to the
/// first place where no `;` and parameter follow.
pub open spec fn params_after(s: Seq<char>, p: int) -> Seq<(Seq<char>, Option<Seq<char>>)>
    decreases s.len() - p,
{
    if 0 <= p < s.len() && s[p] == ';' {
        match param_at(s, p + 1) {
            Some((n, v, e)) => if p < e <= s.len() {
                seq![(n, v)] + params_after(s, e)
            } else {
                Seq::empty()
            },
            None => Seq::empty(),
        }
    } else {
        Seq::empty()
    }
}

/// A `;`-separated list of parameters; empty when the first does not parse.
pub open spec fn param_list(s: Seq<char>) -> Seq<(Seq<char>, Option<Seq<char>>)> {
    match param_at(s, 0) {
        Some((n, v, e)) => seq![(n, v)] + params_after(s, e),
        None => Seq::empty(),
    }
}

/// The parameters of a URI's text: those after the first `;` of the part
/// before the first `?`, leaving out empty names.
pub open spec fn uri_params(uri: Seq<char>) -> Seq<(Seq<char>, Option<Seq<char>>)> {
    let path = match find_char(uri, 0, '?') {
        Some(q) => uri.take(q),
        None => uri,
    };
    match find_char(path, 0, ';') {
        None => Seq::empty(),
        Some(idx) => {
            let rest = path.skip(idx + 1);
            if rest.len() == 0 {
                Seq::empty()
            } else {
                param_list(rest).filter(|p: (Seq<char>, Option<Seq<char>>)| p.0.len() > 0)
            }
        },
    }
}

/// The URI of a trimmed, non-empty value: the trimmed text between the first
/// `<` and the next `>` when there are both, the whole value otherwise.
pub open spec fn contact_uri_text(t: Seq<char>) -> Seq<char> {
    let a = skip_space(t, 0);
    match find_char(t, a, '<') {
        Some(lt) => match find_char(t, lt + 1, '>') {
            Some(gt) => trim(t.subrange(lt + 1, gt)),
            None => t,
        },
        None => t,
    }
}

/// A parameter read from a Contact value.
pub struct CustomContactParamToken {
    pub name: String,
    pub value: Option<String>,
}

/// A Contact value read leniently: its URI text and the URI's parameters.
pub struct CustomContactTokenizer {
    pub uri: String,
    pub params: Vec<CustomContactParamToken>,
}

/// What a parameter token holds.
pub open spec fn token_view(t: CustomContactParamToken) -> (Seq<char>, Option<Seq<char>>) {
    (t.name@, match t.value {
        Some(v) => Some(v@),
        None => None,
    })
}

/// What the parameter tokens hold.
pub open spec fn tokens_view(ts: Seq<CustomContactParamToken>) -> Seq<(Seq<char>, Option<Seq<char>>)> {
    ts.map_values(|t: CustomContactParamToken| token_view(t))
}

/// The index of the first character at or after `i` that is not white space.
fn skip_white_exec(v: &Vec<char>, i: usize) -> (r: usize)
    requires
        i <= v@.len(),
    ensures
        r == skip_white(v@, i as int),
        i <= r <= v@.len(),
{
    let mut j = i;
    while j < v.len() && is_white_space_exec(v[j])
        invariant
            i <= j <= v@.len(),
            skip_white(v@, j as int) == skip_white(v@, i as int),
        decreases v@.len() - j,
    {
        j = j + 1;
    }
    j
}

/// The end of `v[lo..j]` once trailing white space is taken off.
fn drop_white_exec(v: &Vec<char>, lo: usize, j: usize) -> (r: usize)
    requires
        lo <= j <= v@.len(),
    ensures
        r == drop_white(v@, lo as int, j as int),
        lo <= r <= j,
{
    let mut k = j;
    while k > lo && is_white_space_exec(v[k - 1])
        invariant
            lo <= k <= j,
            j <= v@.len(),
            drop_white(v@, lo as int, k as int) == drop_white(v@, lo as int, j as int),
        decreases k - lo,
    {
        k = k - 1;
    }
    k
}

/// Whether `c` is white space.
fn is_white_space_exec(c: char) -> (r: bool)
    ensures
        r == is_white_space(c),
{
    c == '\t' || c == '\n' || c == '\x0B' || c == '\x0C' || c == '\r' || c == ' ' || c == '\u{85}'
        || c == '\u{A0}' || c == '\u{1680}' || ('\u{2000}' <= c && c <= '\u{200A}') || c == '\u{2028}'
        || c == '\u{2029}' || c == '\u{202F}' || c == '\u{205F}' || c == '\u{3000}'
}

/// The characters `v[from..to]`, trimmed.
fn trimmed(v: &Vec<char>, from: usize, to: usize) -> (r: String)
    requires
        from <= to <= v@.len(),
    ensures
        r@ == trim(v@.subrange(from as int, to as int)),
{
    let ghost s = v@.subrange(from as int, to as int);
    let a = skip_white_exec(v, from);
    let a = if a > to { to } else { a };
    let b = drop_white_exec(v, a, to);
    proof {
        lemma_skip_white_sub(v@, from as int, to as int, from as int);
        lemma_drop_white_sub(v@, from as int, a as int, to as int);
        assert(s.subrange(a - from, b - from) =~= v@.subrange(a as int, b as int));
    }
    string_from(v, a, b)
}

/// Skipping white space in a slice is skipping it in the whole, up to the
/// slice's end.
proof fn lemma_skip_white_sub(v: Seq<char>, from: int, to: int, i: int)
    requires
        0 <= from <= i <= to <= v.len(),
    ensures
        ({
            let r = skip_white(v, i);
            let rs = skip_white(v.subrange(from, to), i - from);
            (if r > to { to } else { r }) == rs + from
        }),
    decreases to - i,
{
    let s = v.subrange(from, to);
    if i < to && is_white_space(v[i]) {
        assert(s[i - from] == v[i]);
        lemma_skip_white_sub(v, from, to, i + 1);
    } else if i < to {
        assert(s[i - from] == v[i]);
    } else {
        lemma_skip_white_ge(v, i);
    }
}

/// Skipping white space never goes back.
proof fn lemma_skip_white_ge(v: Seq<char>, i: int)
    ensures
        skip_white(v, i) >= i,
    decreases v.len() - i,
{
    if 0 <= i < v.len() && is_white_space(v[i]) {
        lemma_skip_white_ge(v, i + 1);
    }
}

/// Dropping trailing white space in a slice is dropping it in the whole.
proof fn lemma_drop_white_sub(v: Seq<char>, from: int, lo: int, j: int)
    requires
        0 <= from <= lo <= j <= v.len(),
    ensures
        drop_white(v.subrange(from, j), lo - from, j - from) + from == drop_white(v, lo, j),
    decreases j - lo,
{
    lemma_drop_white_sub_at(v, from, lo, j, j);
}

/// Dropping trailing white space in `v[from..j]` from an inner end `k`.
proof fn lemma_drop_white_sub_at(v: Seq<char>, from: int, lo: int, j: int, k: int)
    requires
        0 <= from <= lo <= k <= j <= v.len(),
    ensures
        drop_white(v.subrange(from, j), lo - from, k - from) + from == drop_white(v, lo, k),
    decreases k - lo,
{
    let s = v.subrange(from, j);
    if lo < k {
        assert(s[k - 1 - from] == v[k - 1]);
        if is_white_space(v[k - 1]) {
            lemma_drop_white_sub_at(v, from, lo, j, k - 1);
        }
    }
}


/// The index of the first character at or after `i` that is not an ASCII space.
fn skip_space_exec(v: &Vec<char>, i: usize) -> (r: usize)
    requires
        i <= v@.len(),
    ensures
        r == skip_space(v@, i as int),
        i <= r <= v@.len(),
{
    let mut j = i;
    while j < v.len() && (v[j] == ' ' || v[j] == '\t' || v[j] == '\r' || v[j] == '\n')
        invariant
            i <= j <= v@.len(),
            skip_space(v@, j as int) == skip_space(v@, i as int),
        decreases v@.len() - j,
    {
        j = j + 1;
    }
    j
}

/// The end of the run of name characters starting at `i`.
fn name_end_exec(v: &Vec<char>, i: usize) -> (r: usize)
    requires
        i <= v@.len(),
    ensures
        r == name_end(v@, i as int),
        i <= r <= v@.len(),
{
    let mut j = i;
    while j < v.len() && !(v[j] == '=' || v[j] == ';' || v[j] == '?' || v[j] == ' ' || v[j] == '\t'
        || v[j] == '\r' || v[j] == '\n')
        invariant
            i <= j <= v@.len(),
            name_end(v@, j as int) == name_end(v@, i as int),
        decreases v@.len() - j,
    {
        j = j + 1;
    }
    j
}

/// The end of the run of unquoted value characters starting at `i`.
fn value_end_exec(v: &Vec<char>, i: usize) -> (r: usize)
    requires
        i <= v@.len(),
    ensures
        r == value_end(v@, i as int),
        i <= r <= v@.len(),
{
    let mut j = i;
    while j < v.len() && !(v[j] == ';' || v[j] == '?' || v[j] == ' ' || v[j] == '\t' || v[j] == '\r'
        || v[j] == '\n')
        invariant
            i <= j <= v@.len(),
            value_end(v@, j as int) == value_end(v@, i as int),
        decreases v@.len() - j,
    {
        j = j + 1;
    }
    j
}

/// The first index at or after `i` holding `c`, if any.
fn find_char_exec(v: &Vec<char>, i: usize, c: char) -> (r: Option<usize>)
    requires
        i <= v@.len(),
    ensures
        r matches Some(j) ==> find_char(v@, i as int, c) == Some(j as int) && i <= j < v@.len(),
        r is None ==> find_char(v@, i as int, c) is None,
{
    let mut j = i;
    while j < v.len()
        invariant
            i <= j <= v@.len(),
            find_char(v@, j as int, c) == find_char(v@, i as int, c),
        decreases v@.len() - j,
    {
        if v[j] == c {
            return Some(j);
        }
        j = j + 1;
    }
    None
}

/// The characters `v[from..to]`.
fn sub_vec(v: &Vec<char>, from: usize, to: usize) -> (r: Vec<char>)
    requires
        from <= to <= v@.len(),
    ensures
        r@ == v@.subrange(from as int, to as int),
{
    let mut r: Vec<char> = Vec::new();
    let mut i = from;
    while i < to
        invariant
            from <= i <= to,
            to <= v@.len(),
            r@ == v@.subrange(from as int, i as int),
        decreases to - i,
    {
        r.push(v[i]);
        proof {
            assert(v@.subrange(from as int, i as int + 1) =~= v@.subrange(from as int, i as int).push(v@[i as int]));
        }
        i = i + 1;
    }
    r
}

/// The parameter starting at `i`, with where it ends.
fn param_at_exec(v: &Vec<char>, i: usize) -> (r: Option<(String, Option<String>, usize)>)
    requires
        i <= v@.len(),
    ensures
        r is None <==> param_at(v@, i as int) is None,
        r matches Some((n, val, e)) ==> {
            &&& param_at(v@, i as int) == Some((n@, crate::header_values::opt_view(val), e as int))
            &&& i < e <= v@.len()
        },
{
    let a = skip_space_exec(v, i);
    let b = name_end_exec(v, a);
    if b == a {
        return None;
    }
    let name = trimmed(v, a, b);
    if b < v.len() && v[b] == '=' {
        let k = b + 1;
        if k < v.len() && v[k] == '"' {
            match find_char_exec(v, k + 1, '"') {
                Some(q) => {
                    let value = string_from(v, k + 1, q);
                    return Some((name, Some(value), q + 1));
                },
                None => {},
            }
        }
        let e = value_end_exec(v, k);
        if e > k {
            let value = trimmed(v, k, e);
            return Some((name, Some(value), e));
        }
        Some((name, None, b))
    } else {
        Some((name, None, b))
    }
}

/// A token from a name and an optional value.
fn token(name: String, value: Option<String>) -> (t: CustomContactParamToken)
    ensures
        token_view(t) == (name@, crate::header_values::opt_view(value)),
{
    CustomContactParamToken { name, value }
}

/// The `;`-separated parameters of `v`.
fn param_list_exec(v: &Vec<char>) -> (r: Vec<CustomContactParamToken>)
    ensures
        tokens_view(r@) == param_list(v@),
{
    let mut out: Vec<CustomContactParamToken> = Vec::new();
    let mut p: usize = match param_at_exec(v, 0) {
        None => return out,
        Some((n, val, e)) => {
            out.push(token(n, val));
            proof {
                assert(tokens_view(out@) =~= seq![param_list(v@)[0]]);
                assert(param_list(v@) =~= tokens_view(out@) + params_after(v@, e as int));
            }
            e
        },
    };
    loop
        invariant
            p <= v@.len(),
            param_list(v@) == tokens_view(out@) + params_after(v@, p as int),
        decreases v@.len() - p,
    {
        if p < v.len() && v[p] == ';' {
            match param_at_exec(v, p + 1) {
                Some((n, val, e)) => {
                    let ghost before = out@;
                    out.push(token(n, val));
                    proof {
                        assert(tokens_view(out@) =~= tokens_view(before).push((n@, crate::header_values::opt_view(val))));
                        assert(params_after(v@, p as int) =~= seq![(n@, crate::header_values::opt_view(val))] + params_after(v@, e as int));
                        assert(param_list(v@) =~= tokens_view(out@) + params_after(v@, e as int));
                    }
                    p = e;
                },
                None => {
                    proof {
                        assert(params_after(v@, p as int) =~= Seq::empty());
                        assert(param_list(v@) =~= tokens_view(out@));
                    }
                    return out;
                },
            }
        } else {
            proof {
                assert(params_after(v@, p as int) =~= Seq::empty());
                assert(param_list(v@) =~= tokens_view(out@));
            }
            return out;
        }
    }
}

/// A copy of a token.
fn copy_token(t: &CustomContactParamToken) -> (r: CustomContactParamToken)
    ensures
        token_view(r) == token_view(*t),
{
    CustomContactParamToken {
        name: t.name.clone(),
        value: match &t.value {
            Some(v) => Some(v.clone()),
            None => None,
        },
    }
}

/// Keeps the tokens with a non-empty name.
fn keep_named(ts: &Vec<CustomContactParamToken>) -> (r: Vec<CustomContactParamToken>)
    ensures
        tokens_view(r@) == tokens_view(ts@).filter(|p: (Seq<char>, Option<Seq<char>>)| p.0.len() > 0),
{
    let ghost all = tokens_view(ts@);
    let mut out: Vec<CustomContactParamToken> = Vec::new();
    let mut i: usize = 0;
    while i < ts.len()
        invariant
            all == tokens_view(ts@),
            i <= ts@.len(),
            tokens_view(out@) == all.take(i as int).filter(|p: (Seq<char>, Option<Seq<char>>)| p.0.len() > 0),
        decreases ts@.len() - i,
    {
        let t = copy_token(&ts[i]);
        proof {
            assert(token_view(t) == all[i as int]);
            reveal(Seq::filter);
            assert(all.take(i as int + 1).drop_last() =~= all.take(i as int));
            assert(all.take(i as int + 1).last() == all[i as int]);
        }
        if t.name.unicode_len() > 0 {
            let ghost before = out@;
            out.push(t);
            proof {
                assert(tokens_view(out@) =~= tokens_view(before).push(token_view(t)));
            }
        }
        i = i + 1;
    }
    proof {
        assert(all.take(ts@.len() as int) =~= all);
    }
    out
}

/// The parameters of a URI's text.
fn uri_params_exec(uri: &Vec<char>) -> (r: Vec<CustomContactParamToken>)
    ensures
        tokens_view(r@) == uri_params(uri@),
{
    let path = match find_char_exec(uri, 0, '?') {
        Some(q) => sub_vec(uri, 0, q),
        None => sub_vec(uri, 0, uri.len()),
    };
    proof {
        assert(uri@.subrange(0, uri@.len() as int) =~= uri@);
        if let Some(q) = find_char(uri@, 0, '?') {
            assert(uri@.subrange(0, q) =~= uri@.take(q));
        }
    }
    match find_char_exec(&path, 0, ';') {
        None => Vec::new(),
        Some(idx) => {
            let rest = sub_vec(&path, idx + 1, path.len());
            proof {
                assert(rest@ =~= path@.skip(idx as int + 1));
            }
            if rest.len() == 0 {
                Vec::new()
            } else {
                keep_named(&param_list_exec(&rest))
            }
        },
    }
}

impl CustomContactTokenizer {
    /// Reads a Contact value: trimmed, it must not be empty (the error is
    /// "empty contact header"); the URI is the
    /// trimmed text between the first `<` and the next `>` when there are
    /// both, the whole trimmed value otherwise; the parameters are those of
    /// that URI.
    pub fn from_str(input: &str) -> (r: Result<CustomContactTokenizer, Error>)
        ensures
            r is Err <==> trim(input@).len() == 0,
            r matches Err(e) ==> e is Error && e->Error_0@ == "empty contact header"@,
            r matches Ok(t) ==> t.uri@ == contact_uri_text(trim(input@)) && tokens_view(t.params@) == uri_params(t.uri@),
    {
        let v = chars_of(input);
        let a = skip_white_exec(&v, 0);
        let b = drop_white_exec(&v, a, v.len());
        let t = sub_vec(&v, a, b);
        if t.len() == 0 {
            proof {
                reveal_strlit("empty contact header");
            }
            return Err(Error::Error(String::from_str("empty contact header")));
        }
        let s = skip_space_exec(&t, 0);
        match find_char_exec(&t, s, '<') {
            Some(lt) => match find_char_exec(&t, lt + 1, '>') {
                Some(gt) => {
                    let uri = trimmed(&t, lt + 1, gt);
                    let uv = chars_of(uri.as_str());
                    let params = uri_params_exec(&uv);
                    return Ok(CustomContactTokenizer { uri, params });
                },
                None => {},
            },
            None => {},
        }
        let plain = string_from(&t, 0, t.len());
        proof {
            assert(t@.subrange(0, t@.len() as int) =~= t@);
        }
        Ok(Self::from_plain(plain.as_str()))
    }

    /// A URI taken as it is, with its parameters.
    pub fn from_plain(uri: &str) -> (t: CustomContactTokenizer)
        ensures
            t.uri@ == uri@,
            tokens_view(t.params@) == uri_params(uri@),
    {
        let uv = chars_of(uri);
        CustomContactTokenizer { uri: uri.to_string(), params: uri_params_exec(&uv) }
    }

    /// The URI text.
    pub fn uri(&self) -> (u: &str)
        ensures
            u@ == self.uri@,
    {
        self.uri.as_str()
    }
}

} // verus!
