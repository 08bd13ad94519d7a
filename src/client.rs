use reqwest::blocking::Client as Transport;
use reqwest::Error as HttpError;
use vstd::prelude::*;

use crate::error::Error;
use crate::signing::{
    apikey_label, append_login_params, decimal, digits_value, form_encoded, lemma_decimal_value,
    login_head, nonce_label, query_separator, sign, signature, signed_url, url_base, url_fragment,
};
use vstd::utf8::encode_utf8;

verus! {

#[verifier::external_type_specification]
#[verifier::external_body]
pub struct ExTransport(Transport);

/// The root of every endpoint of the API.
pub const API_URL: &'static str = "https://bittrex.com/api/v1.1/";

/// Relies on reqwest's blocking `ClientBuilder::build`: a transport with the
/// default settings, or the builder's error.
#[verifier::external_body]
fn build_transport() -> (r: Result<Transport, HttpError>) {
    Transport::builder().build()
}

/// Relies on chrono's `From<SystemTime> for DateTime<Utc>` and
/// `DateTime::timestamp`: the seconds since the Unix epoch of the system clock,
/// negative for a clock set before it.
#[verifier::external_body]
fn unix_now() -> (r: i64) {
    chrono::DateTime::<chrono::Utc>::from(std::time::SystemTime::now()).timestamp()
}

/// The nonce for a clock reading of `t` seconds since the Unix epoch: `t`
/// itself, or `Internal` for a reading before the epoch.
pub fn nonce_of_time(t: i64) -> (r: Result<u64, Error>)
    ensures
        t >= 0 ==> r == Ok::<u64, Error>(t as u64),
        t < 0 ==> r matches Err(Error::Internal(_)),
{
    if t < 0 {
        Err(Error::Internal(String::from_str("system clock before the Unix epoch")))
    } else {
        Ok(t as u64)
    }
}

/// A request ready to be sent: its URL, the `apisign` header of a private
/// request, and the nonce that the URL carries.
pub struct Request {
    pub url: String,
    pub apisign: Option<String>,
    pub nonce: Option<u64>,
}

/// The mathematical value of a `Request`.
pub struct RequestView {
    pub url: Seq<char>,
    pub apisign: Option<Seq<char>>,
    pub nonce: Option<nat>,
}

impl View for Request {
    type V = RequestView;

    open spec fn view(&self) -> RequestView {
        RequestView {
            url: self.url@,
            apisign: match self.apisign {
                Some(s) => Some(s@),
                None => None,
            },
            nonce: match self.nonce {
                Some(n) => Some(n as nat),
                None => None,
            },
        }
    }
}

/// The request built for `url`: as it is for a public endpoint; for a private
/// one, signed with the credentials `(key, secret)` at `nonce`, or `None`
/// where there are no credentials.
pub open spec fn request_for(
    credentials: Option<(Seq<char>, Seq<char>)>,
    url: Seq<char>,
    private: bool,
    nonce: nat,
) -> Option<RequestView> {
    if !private {
        Some(RequestView { url, apisign: None, nonce: None })
    } else {
        match credentials {
            None => None,
            Some(c) => Some(
                RequestView {
                    url: signed_url(url, c.0, nonce),
                    apisign: Some(signature(c.1, signed_url(url, c.0, nonce))),
                    nonce: Some(nonce),
                },
            ),
        }
    }
}

/// The nonce of a request view, zero where it has none.
pub open spec fn nonce_or_zero(v: RequestView) -> nat {
    match v.nonce {
        Some(n) => n,
        None => 0,
    }
}

/// The request for `url` carries `nonce`: its URL ends with `&nonce=` and the
/// decimal text of `nonce`, followed only by the fragment of `url`; that text
/// reads back as `nonce`.
pub open spec fn carries_nonce(q: RequestView, url: Seq<char>, nonce: nat) -> bool {
    let text = nonce_label() + decimal(nonce);
    let f = url_fragment(url);
    &&& q.nonce == Some(nonce)
    &&& q.url.len() >= text.len() + f.len()
    &&& q.url.subrange(q.url.len() - f.len() - text.len(), q.url.len() - f.len()) == text
    &&& q.url.skip(q.url.len() - f.len()) == f
    &&& digits_value(decimal(nonce)) == nonce
}

/// Private requests built by one client at signing times `t1 <= t2` carry
/// nonces that do not decrease, each written in its URL as the decimal Unix
/// time at which it was signed.
pub proof fn lemma_nonce_order(c: Client, url1: Seq<char>, url2: Seq<char>, t1: nat, t2: nat)
    requires
        c.credentials() is Some,
        t1 <= t2,
    ensures
        request_for(c.credentials(), url1, true, t1) is Some,
        request_for(c.credentials(), url2, true, t2) is Some,
        carries_nonce(request_for(c.credentials(), url1, true, t1)->Some_0, url1, t1),
        carries_nonce(request_for(c.credentials(), url2, true, t2)->Some_0, url2, t2),
        nonce_or_zero(request_for(c.credentials(), url1, true, t1)->Some_0) <= nonce_or_zero(
            request_for(c.credentials(), url2, true, t2)->Some_0,
        ),
{
    lemma_decimal_value(t1);
    lemma_decimal_value(t2);
    lemma_signed_url_ends_with_nonce(url1, c.credentials()->Some_0.0, t1);
    lemma_signed_url_ends_with_nonce(url2, c.credentials()->Some_0.0, t2);
}

/// A signed URL ends with `&nonce=`, the decimal text of the nonce, and the
/// fragment of the original URL.
proof fn lemma_signed_url_ends_with_nonce(url: Seq<char>, api_key: Seq<char>, nonce: nat)
    ensures
        ({
            let u = signed_url(url, api_key, nonce);
            let text = nonce_label() + decimal(nonce);
            let f = url_fragment(url);
            &&& u.len() >= text.len() + f.len()
            &&& u.subrange(u.len() - f.len() - text.len(), u.len() - f.len()) == text
            &&& u.skip(u.len() - f.len()) == f
        }),
{
    let u = signed_url(url, api_key, nonce);
    let text = nonce_label() + decimal(nonce);
    let f = url_fragment(url);
    let head = login_head(url, api_key);
    assert(u =~= head + text + f);
    assert(u.subrange(u.len() - f.len() - text.len(), u.len() - f.len()) =~= text);
    assert(u.skip(u.len() - f.len()) =~= f);
}

/// Before `login` a private request is refused; after `login(key, secret)` it
/// is built with `apikey` set to `key` and an `apisign` header that is the
/// signature of the signed URL under `secret`. In the signed URL the query
/// parameter `apikey=` with the form encoding of `key` directly follows the
/// URL's base and its query separator.
pub proof fn lemma_login_gating(
    before: Client,
    after: Client,
    key: Seq<char>,
    secret: Seq<char>,
    url: Seq<char>,
    nonce: nat,
)
    requires
        before.credentials() is None,
        after.credentials() == Some((key, secret)),
    ensures
        request_for(before.credentials(), url, true, nonce) is None,
        request_for(after.credentials(), url, true, nonce) == Some(
            RequestView {
                url: signed_url(url, key, nonce),
                apisign: Some(signature(secret, signed_url(url, key, nonce))),
                nonce: Some(nonce),
            },
        ),
        ({
            let u = signed_url(url, key, nonce);
            let b = url_base(url) + query_separator(url_base(url));
            let p = apikey_label() + form_encoded(encode_utf8(key));
            &&& u.len() >= b.len() + p.len()
            &&& u.take(b.len() as int) == b
            &&& u.subrange(b.len() as int, (b.len() + p.len()) as int) == p
        }),
{
    let u = signed_url(url, key, nonce);
    let b = url_base(url) + query_separator(url_base(url));
    let p = apikey_label() + form_encoded(encode_utf8(key));
    let rest = nonce_label() + decimal(nonce) + url_fragment(url);
    assert(u =~= b + p + rest);
    assert(u.take(b.len() as int) =~= b);
    assert(u.subrange(b.len() as int, (b.len() + p.len()) as int) =~= p);
}

/// The signature depends on the URL and the secret alone: clients holding
/// the same credentials build the same request for the same URL and nonce.
pub proof fn lemma_signature_deterministic(a: Client, b: Client, url: Seq<char>, nonce: nat)
    requires
        a.credentials() == b.credentials(),
    ensures
        request_for(a.credentials(), url, true, nonce) == request_for(
            b.credentials(),
            url,
            true,
            nonce,
        ),
{
}

/// Bittrex API client: an HTTP transport and, after `login`, the API key and secret.
pub struct Client {
    inner: Transport,
    credentials: Option<(String, String)>,
}

impl Client {
    /// The API key and secret, once logged in.
    pub closed spec fn credentials(&self) -> Option<(Seq<char>, Seq<char>)> {
        match &self.credentials {
            Some(c) => Some((c.0@, c.1@)),
            None => None,
        }
    }

    /// The HTTP transport the client sends through.
    pub closed spec fn transport_handle(&self) -> Transport {
        self.inner
    }

    /// Creates a client with a default transport and no credentials. Do not
    /// call it from inside an async runtime: reqwest's blocking builder panics
    /// there.
    pub fn new() -> (r: Result<Client, Error>)
        ensures
            r matches Ok(c) ==> c.credentials() is None,
            r matches Err(e) ==> e is Http,
    {
        match build_transport() {
            Ok(inner) => Ok(Client { inner, credentials: None }),
            Err(e) => Err(Error::Http(e)),
        }
    }

    /// Stores the API key and secret for private requests; sends nothing.
    pub fn login(&mut self, api_key: &str, api_secret: &str)
        ensures
            final(self).credentials() == Some((api_key@, api_secret@)),
            final(self).transport_handle() == old(self).transport_handle(),
    {
        self.credentials = Some((String::from_str(api_key), String::from_str(api_secret)));
    }

    /// Whether `login` has been called.
    pub fn is_logged_in(&self) -> (r: bool)
        ensures
            r == self.credentials() is Some,
    {
        self.credentials.is_some()
    }

    /// The HTTP transport.
    pub fn transport(&self) -> (r: &Transport)
        ensures
            *r == self.transport_handle(),
    {
        &self.inner
    }

    /// Appends the login parameters with the given nonce to `url`.
    pub fn append_login_at(&self, url: &mut String, nonce: u64) -> (r: Result<(), Error>)
        ensures
            r is Ok <==> self.credentials() is Some,
            r matches Err(e) ==> e is NotAuthenticated && final(url)@ == old(url)@,
            r is Ok ==> final(url)@ == signed_url(
                old(url)@,
                self.credentials()->Some_0.0,
                nonce as nat,
            ),
    {
        match &self.credentials {
            Some(c) => {
                append_login_params(url, c.0.as_str(), nonce);
                Ok(())
            },
            None => Err(Error::NotAuthenticated),
        }
    }

    /// Appends the login parameters to `url`, with the current Unix time as
    /// nonce, and returns that nonce. `Internal` where the clock reads before
    /// the Unix epoch.
    pub fn append_login(&self, url: &mut String) -> (r: Result<u64, Error>)
        ensures
            self.credentials() is None ==> r matches Err(Error::NotAuthenticated),
            r matches Err(e) ==> final(url)@ == old(url)@ && (e is NotAuthenticated
                || e is Internal) && (e is NotAuthenticated <==> self.credentials() is None),
            r matches Ok(n) ==> final(url)@ == signed_url(
                old(url)@,
                self.credentials()->Some_0.0,
                n as nat,
            ),
    {
        if self.credentials.is_none() {
            return Err(Error::NotAuthenticated);
        }
        let nonce = nonce_of_time(unix_now())?;
        match self.append_login_at(url, nonce) {
            Ok(()) => Ok(nonce),
            Err(e) => Err(e),
        }
    }

    /// The `apisign` value of `url` under the secret.
    pub fn hash_uri(&self, url: &str) -> (r: Result<String, Error>)
        ensures
            r is Ok <==> self.credentials() is Some,
            r matches Err(e) ==> e is NotAuthenticated,
            r matches Ok(s) ==> s@ == signature(self.credentials()->Some_0.1, url@) && s@.len()
                == 128,
    {
        match &self.credentials {
            Some(c) => sign(c.1.as_str(), url),
            None => Err(Error::NotAuthenticated),
        }
    }

    /// The headers of a private request for `url`: `apisign` and its value.
    pub fn get_headers(&self, url: &str) -> (r: Result<Vec<(String, String)>, Error>)
        ensures
            r is Ok <==> self.credentials() is Some,
            r matches Err(e) ==> e is NotAuthenticated,
            r matches Ok(h) ==> h@.len() == 1 && h@[0].0@ == seq!['a', 'p', 'i', 's', 'i', 'g', 'n']
                && h@[0].1@ == signature(self.credentials()->Some_0.1, url@) && h@[0].1@.len() == 128,
    {
        let hash = self.hash_uri(url)?;
        proof {
            reveal_strlit("apisign");
        }
        let name = String::from_str("apisign");
        assert(name@ =~= seq!['a', 'p', 'i', 's', 'i', 'g', 'n']);
        let mut headers: Vec<(String, String)> = Vec::new();
        headers.push((name, hash));
        Ok(headers)
    }

    /// Builds the request for `url`; a private one is signed at `nonce`.
    pub fn build_request_at(&self, url: &str, private: bool, nonce: u64) -> (r: Result<
        Request,
        Error,
    >)
        ensures
            r matches Ok(q) ==> request_for(self.credentials(), url@, private, nonce as nat) == Some(
                q@,
            ),
            r matches Err(e) ==> e is NotAuthenticated && request_for(
                self.credentials(),
                url@,
                private,
                nonce as nat,
            ) is None,
    {
        let mut full = String::from_str(url);
        if !private {
            return Ok(Request { url: full, apisign: None, nonce: None });
        }
        self.append_login_at(&mut full, nonce)?;
        let apisign = self.hash_uri(full.as_str())?;
        Ok(Request { url: full, apisign: Some(apisign), nonce: Some(nonce) })
    }

    /// Builds the request for `url`; a private one is signed with the current
    /// Unix time as nonce. `Internal` where the clock reads before the Unix epoch.
    pub fn build_request(&self, url: &str, private: bool) -> (r: Result<Request, Error>)
        ensures
            !private ==> r is Ok,
            private && self.credentials() is None ==> r matches Err(Error::NotAuthenticated),
            r matches Err(e) ==> private && (e is NotAuthenticated || e is Internal) && (
            e is NotAuthenticated <==> self.credentials() is None),
            r matches Ok(q) ==> request_for(self.credentials(), url@, private, nonce_or_zero(q@))
                == Some(q@),
    {
        if !private {
            return self.build_request_at(url, false, 0);
        }
        if self.credentials.is_none() {
            return Err(Error::NotAuthenticated);
        }
        let nonce = nonce_of_time(unix_now())?;
        self.build_request_at(url, true, nonce)
    }
}

} // verus!
