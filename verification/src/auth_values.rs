//! The digest-authentication computations of the `rsip` crate: reading a
//! challenge, computing the digest response, and displaying an
//! Authorization or Proxy-Authorization value. Each is named by a spec
//! function of its inputs.
use rsip::headers::auth::{AuthQop, Scheme};
use rsip::headers::UntypedHeader;
use rsip::prelude::ToTypedHeader;
use rsip::typed::{Authorization, ProxyAuthorization};
use vstd::prelude::*;

verus! {

/// The fields of a challenge as `rsip` displays them.
pub struct Challenge {
    pub scheme: String,
    pub realm: String,
    pub nonce: String,
    pub opaque: Option<String>,
    pub algorithm: Option<String>,
    pub qop: Option<String>,
}

/// What a challenge holds.
pub struct ChallengeView {
    pub scheme: Seq<char>,
    pub realm: Seq<char>,
    pub nonce: Seq<char>,
    pub opaque: Option<Seq<char>>,
    pub algorithm: Option<Seq<char>>,
    pub qop: Option<Seq<char>>,
}

impl View for Challenge {
    type V = ChallengeView;

    open spec fn view(&self) -> ChallengeView {
        ChallengeView {
            scheme: self.scheme@,
            realm: self.realm@,
            nonce: self.nonce@,
            opaque: crate::header_values::opt_view(self.opaque),
            algorithm: crate::header_values::opt_view(self.algorithm),
            qop: crate::header_values::opt_view(self.qop),
        }
    }
}

/// The quality of protection an answer uses: whether it is `auth-int`, the
/// client nonce and the nonce count.
pub type AnswerQop = Option<(bool, String, u8)>;

/// What an answer's quality of protection holds.
pub open spec fn qop_view(q: AnswerQop) -> Option<(bool, Seq<char>, u8)> {
    match q {
        Some((integrity, c, n)) => Some((integrity, c@, n)),
        None => None,
    }
}

/// A WWW-Authenticate value as `rsip::typed::WwwAuthenticate` reads it;
/// `None` when it does not parse.
pub uninterp spec fn spec_www_challenge(value: Seq<char>) -> Option<ChallengeView>;

/// A Proxy-Authenticate value as `rsip::typed::ProxyAuthenticate` reads it;
/// `None` when it does not parse.
pub uninterp spec fn spec_proxy_challenge(value: Seq<char>) -> Option<ChallengeView>;

/// The digest response `rsip::services::DigestGenerator::compute` gives for
/// these inputs; `None` when the algorithm, method or URI does not parse.
pub uninterp spec fn spec_digest(
    username: Seq<char>,
    password: Seq<char>,
    algorithm: Seq<char>,
    nonce: Seq<char>,
    method: Seq<char>,
    qop: Option<(bool, Seq<char>, u8)>,
    uri: Seq<char>,
    realm: Seq<char>,
) -> Option<Seq<char>>;

/// The display of an `rsip::typed::Authorization` with these fields; `None`
/// when the URI or the algorithm does not parse.
pub uninterp spec fn spec_authorization_value(
    scheme: Seq<char>,
    username: Seq<char>,
    realm: Seq<char>,
    nonce: Seq<char>,
    uri: Seq<char>,
    response: Seq<char>,
    algorithm: Seq<char>,
    opaque: Option<Seq<char>>,
    qop: Option<(bool, Seq<char>, u8)>,
) -> Option<Seq<char>>;

/// The display of an `rsip::typed::ProxyAuthorization` with these fields;
/// `None` when the URI or the algorithm does not parse.
pub uninterp spec fn spec_proxy_authorization_value(
    scheme: Seq<char>,
    username: Seq<char>,
    realm: Seq<char>,
    nonce: Seq<char>,
    uri: Seq<char>,
    response: Seq<char>,
    algorithm: Seq<char>,
    opaque: Option<Seq<char>>,
    qop: Option<(bool, Seq<char>, u8)>,
) -> Option<Seq<char>>;

/// Reads a WWW-Authenticate value with `rsip::headers::WwwAuthenticate::typed`
/// and hands on the display of each field. The result is the one named by
/// `spec_www_challenge`.
#[verifier::external_body]
pub(crate) fn www_challenge(value: &String) -> (r: Result<Challenge, String>)
    ensures
        r matches Ok(c) ==> spec_www_challenge(value@) == Some(c@),
        r is Err ==> spec_www_challenge(value@) is None,
{
    match rsip::headers::WwwAuthenticate::new(value.clone()).typed() {
        Ok(c) => Ok(Challenge {
            scheme: c.scheme.to_string(),
            realm: c.realm,
            nonce: c.nonce,
            opaque: c.opaque,
            algorithm: c.algorithm.map(|a| a.to_string()),
            qop: c.qop.map(|q| q.to_string()),
        }),
        Err(e) => Err(e.to_string()),
    }
}

/// Reads a Proxy-Authenticate value with
/// `rsip::headers::ProxyAuthenticate::typed` and hands on the display of each
/// field. The result is the one named by `spec_proxy_challenge`.
#[verifier::external_body]
pub(crate) fn proxy_challenge(value: &String) -> (r: Result<Challenge, String>)
    ensures
        r matches Ok(c) ==> spec_proxy_challenge(value@) == Some(c@),
        r is Err ==> spec_proxy_challenge(value@) is None,
{
    match rsip::headers::ProxyAuthenticate::new(value.clone()).typed() {
        Ok(rsip::typed::ProxyAuthenticate(c)) => Ok(Challenge {
            scheme: c.scheme.to_string(),
            realm: c.realm,
            nonce: c.nonce,
            opaque: c.opaque,
            algorithm: c.algorithm.map(|a| a.to_string()),
            qop: c.qop.map(|q| q.to_string()),
        }),
        Err(e) => Err(e.to_string()),
    }
}

/// Computes a digest response with `rsip::services::DigestGenerator::compute`,
/// the algorithm, method and URI parsed by `rsip` and the quality of
/// protection given as `AuthQop::AuthInt` (flag set) or `AuthQop::Auth`. The
/// result is the one named by `spec_digest`; `None` when a parse fails.
#[verifier::external_body]
pub(crate) fn digest(
    username: &str,
    password: &str,
    algorithm: &str,
    nonce: &str,
    method: &str,
    qop: &AnswerQop,
    uri: &str,
    realm: &str,
) -> (r: Option<String>)
    ensures
        crate::header_values::opt_view(r) == spec_digest(username@, password@, algorithm@, nonce@, method@, qop_view(*qop), uri@, realm@),
{
    let algorithm = algorithm.parse().ok()?;
    let method: rsip::Method = method.parse().ok()?;
    let uri = rsip::Uri::try_from(uri).ok()?;
    let qop = qop.clone().map(|(i, cnonce, nc)| if i { AuthQop::AuthInt { cnonce, nc } } else { AuthQop::Auth { cnonce, nc } });
    let generator = rsip::services::DigestGenerator {
        username, password, algorithm, nonce, method: &method, qop: qop.as_ref(), uri: &uri, realm,
    };
    Some(generator.compute())
}

/// Displays an `rsip::typed::Authorization` built from these fields (the
/// scheme as `Scheme::Other` of its display, which displays the same; the
/// URI and the algorithm parsed by `rsip`). The result is the one named by
/// `spec_authorization_value`; `None` when a parse fails.
#[verifier::external_body]
pub(crate) fn authorization_value(
    scheme: &str, username: &str, realm: &str, nonce: &str, uri: &str,
    response: &str, algorithm: &str, opaque: &Option<String>, qop: &AnswerQop,
) -> (r: Option<String>)
    ensures
        crate::header_values::opt_view(r) == spec_authorization_value(scheme@, username@, realm@, nonce@, uri@, response@, algorithm@, crate::header_values::opt_view(*opaque), qop_view(*qop)),
{
    Some(Authorization {
        scheme: Scheme::Other(scheme.into()), username: username.into(), realm: realm.into(),
        nonce: nonce.into(), uri: rsip::Uri::try_from(uri).ok()?, response: response.into(),
        algorithm: Some(algorithm.parse().ok()?), opaque: opaque.clone(),
        qop: qop.clone().map(|(i, cnonce, nc)| if i { AuthQop::AuthInt { cnonce, nc } } else { AuthQop::Auth { cnonce, nc } }),
    }.to_string())
}

/// Displays an `rsip::typed::ProxyAuthorization` built as
/// `authorization_value` builds its Authorization. The result is the one
/// named by `spec_proxy_authorization_value`; `None` when a parse fails.
#[verifier::external_body]
pub(crate) fn proxy_authorization_value(
    scheme: &str, username: &str, realm: &str, nonce: &str, uri: &str,
    response: &str, algorithm: &str, opaque: &Option<String>, qop: &AnswerQop,
) -> (r: Option<String>)
    ensures
        crate::header_values::opt_view(r) == spec_proxy_authorization_value(scheme@, username@, realm@, nonce@, uri@, response@, algorithm@, crate::header_values::opt_view(*opaque), qop_view(*qop)),
{
    Some(ProxyAuthorization(Authorization {
        scheme: Scheme::Other(scheme.into()), username: username.into(), realm: realm.into(),
        nonce: nonce.into(), uri: rsip::Uri::try_from(uri).ok()?, response: response.into(),
        algorithm: Some(algorithm.parse().ok()?), opaque: opaque.clone(),
        qop: qop.clone().map(|(i, cnonce, nc)| if i { AuthQop::AuthInt { cnonce, nc } } else { AuthQop::Auth { cnonce, nc } }),
    }).to_string())
}

} // verus!
