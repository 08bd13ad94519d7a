use hmac::digest::InvalidLength;
use hmac::{Hmac, Mac};
use sha2::Sha512;
use vstd::prelude::*;
use vstd::utf8::encode_utf8;

verus! {

#[verifier::external_type_specification]
#[verifier::external_body]
pub struct ExInvalidLength(InvalidLength);

/// The character of a decimal digit.
pub open spec fn digit_char(d: nat) -> char {
    if d == 0 {
        '0'
    } else if d == 1 {
        '1'
    } else if d == 2 {
        '2'
    } else if d == 3 {
        '3'
    } else if d == 4 {
        '4'
    } else if d == 5 {
        '5'
    } else if d == 6 {
        '6'
    } else if d == 7 {
        '7'
    } else if d == 8 {
        '8'
    } else {
        '9'
    }
}

/// The value of a decimal digit character.
pub open spec fn digit_value(c: char) -> nat {
    if c == '1' {
        1
    } else if c == '2' {
        2
    } else if c == '3' {
        3
    } else if c == '4' {
        4
    } else if c == '5' {
        5
    } else if c == '6' {
        6
    } else if c == '7' {
        7
    } else if c == '8' {
        8
    } else if c == '9' {
        9
    } else {
        0
    }
}

/// The decimal text of `n`, without leading zeros.
pub open spec fn decimal(n: nat) -> Seq<char>
    decreases n,
{
    if n < 10 {
        seq![digit_char(n)]
    } else {
        decimal(n / 10) + seq![digit_char(n % 10)]
    }
}

/// The number that a string of decimal digits denotes.
pub open spec fn digits_value(s: Seq<char>) -> nat
    decreases s.len(),
{
    if s.len() == 0 {
        0
    } else {
        digits_value(s.drop_last()) * 10 + digit_value(s.last())
    }
}

/// Reading the decimal text of a number back gives the number.
pub proof fn lemma_decimal_value(n: nat)
    ensures
        digits_value(decimal(n)) == n,
    decreases n,
{
    if n >= 10 {
        lemma_decimal_value(n / 10);
        assert(decimal(n).drop_last() =~= decimal(n / 10));
        assert(decimal(n).last() == digit_char(n % 10));
        assert(digit_value(digit_char(n % 10)) == n % 10);
        assert(n == (n / 10) * 10 + n % 10) by (nonlinear_arith);
    } else {
        assert(decimal(n).drop_last() =~= Seq::<char>::empty());
        assert(digits_value(Seq::<char>::empty()) == 0);
    }
}

/// A lowercase hexadecimal digit.
pub open spec fn hex_digit(v: nat) -> char {
    if v < 10 {
        digit_char(v)
    } else if v == 10 {
        'a'
    } else if v == 11 {
        'b'
    } else if v == 12 {
        'c'
    } else if v == 13 {
        'd'
    } else if v == 14 {
        'e'
    } else {
        'f'
    }
}

/// Bytes written as lowercase hexadecimal, two digits per byte, high nibble first.
pub open spec fn hex_lower(b: Seq<u8>) -> Seq<char> {
    Seq::new(
        2 * b.len(),
        |i: int|
            if i % 2 == 0 {
                hex_digit(b[i / 2] as nat / 16)
            } else {
                hex_digit(b[i / 2] as nat % 16)
            },
    )
}

/// The HMAC-SHA512 tag of the UTF-8 bytes of `msg` under the UTF-8 bytes of `key`.
pub uninterp spec fn hmac_sha512(key: Seq<char>, msg: Seq<char>) -> Seq<u8>;

/// The `apisign` value for a URL: its HMAC-SHA512 under the secret, in lowercase hex.
pub open spec fn signature(secret: Seq<char>, url: Seq<char>) -> Seq<char> {
    hex_lower(hmac_sha512(secret, url))
}

/// Whether the form encoding keeps a byte as it is: ASCII letters and
/// digits, `*`, `-`, `.` and `_`.
pub open spec fn form_unchanged(b: u8) -> bool {
    b == 42 || b == 45 || b == 46 || (48 <= b <= 57) || (65 <= b <= 90) || b == 95 || (97 <= b
        <= 122)
}

/// An uppercase hexadecimal digit.
pub open spec fn upper_hex_digit(v: nat) -> char {
    if v < 10 {
        digit_char(v)
    } else if v == 10 {
        'A'
    } else if v == 11 {
        'B'
    } else if v == 12 {
        'C'
    } else if v == 13 {
        'D'
    } else if v == 14 {
        'E'
    } else {
        'F'
    }
}

/// The form encoding of one byte: kept, a space as `+`, anything else as `%XX`.
pub open spec fn form_byte(b: u8) -> Seq<char> {
    if form_unchanged(b) {
        seq![b as char]
    } else if b == 32 {
        seq!['+']
    } else {
        seq!['%', upper_hex_digit(b as nat / 16), upper_hex_digit(b as nat % 16)]
    }
}

/// The `application/x-www-form-urlencoded` encoding of bytes, byte by byte.
pub open spec fn form_encoded(b: Seq<u8>) -> Seq<char>
    decreases b.len(),
{
    if b.len() == 0 {
        seq![]
    } else {
        form_encoded(b.drop_last()) + form_byte(b.last())
    }
}

/// `k` is where the fragment of `url` starts: its first `#`, or its end.
pub open spec fn is_fragment_start(url: Seq<char>, k: int) -> bool {
    &&& 0 <= k <= url.len()
    &&& k < url.len() ==> url[k] == '#'
    &&& forall|j: int| 0 <= j < k ==> url[j] != '#'
}

/// Where the fragment of `url` starts.
pub open spec fn fragment_start(url: Seq<char>) -> int {
    choose|k: int| is_fragment_start(url, k)
}

/// `url` without its fragment.
pub open spec fn url_base(url: Seq<char>) -> Seq<char> {
    url.take(fragment_start(url))
}

/// The fragment of `url` with its `#`, empty where it has none.
pub open spec fn url_fragment(url: Seq<char>) -> Seq<char> {
    url.skip(fragment_start(url))
}

/// What joins the login parameters to a URL without fragment: `?` where it
/// has no query yet, nothing where its query is still empty, `&` otherwise.
pub open spec fn query_separator(url: Seq<char>) -> Seq<char> {
    if !url.contains('?') {
        seq!['?']
    } else if url.last() == '?' {
        seq![]
    } else {
        seq!['&']
    }
}

/// `apikey=`
pub open spec fn apikey_label() -> Seq<char> {
    seq!['a', 'p', 'i', 'k', 'e', 'y', '=']
}

/// `&nonce=`
pub open spec fn nonce_label() -> Seq<char> {
    seq!['&', 'n', 'o', 'n', 'c', 'e', '=']
}

/// The query of `url` up to the `nonce` value: the URL without fragment, then
/// the parameter `apikey` with the form encoding of the key's UTF-8 bytes.
pub open spec fn login_head(url: Seq<char>, api_key: Seq<char>) -> Seq<char> {
    url_base(url) + query_separator(url_base(url)) + apikey_label() + form_encoded(
        encode_utf8(api_key),
    )
}

/// The URL with the query parameters `apikey` (the key, form-encoded) and
/// `nonce` (in decimal) appended to its query, before any fragment.
pub open spec fn signed_url(url: Seq<char>, api_key: Seq<char>, nonce: nat) -> Seq<char> {
    login_head(url, api_key) + nonce_label() + decimal(nonce) + url_fragment(url)
}

/// There is one place where a fragment starts.
proof fn lemma_fragment_start_unique(url: Seq<char>, k: int)
    requires
        is_fragment_start(url, k),
    ensures
        fragment_start(url) == k,
{
    let c = fragment_start(url);
    assert(is_fragment_start(url, c));
    if c < k {
        assert(url[c] == '#');
    } else if c > k {
        assert(url[k] == '#');
    }
}

/// Relies on `form_urlencoded::byte_serialize`, the encoding that
/// `Url::query_pairs_mut().append_pair` gives a value: the UTF-8 bytes of `s`,
/// each kept where it is an ASCII letter or digit or one of `*-._`, a space as
/// `+`, any other as `%` and two uppercase hex digits.
#[verifier::external_body]
fn form_encode(s: &str) -> (r: String)
    ensures
        r@ == form_encoded(encode_utf8(s@)),
{
    form_urlencoded::byte_serialize(s.as_bytes()).collect()
}

/// Relies on hmac's `Hmac<Sha512>` (`new_from_slice`, `update`, `finalize`):
/// the tag of `msg`'s bytes under `key`'s bytes. `new_from_slice` of hmac 0.12
/// hashes a key longer than a block and pads a shorter one, so it accepts every
/// key; a SHA-512 tag is 64 bytes.
#[verifier::external_body]
fn hmac_sha512_tag(key: &str, msg: &str) -> (r: Result<Vec<u8>, InvalidLength>)
    ensures
        r is Ok,
        r matches Ok(t) ==> t@ == hmac_sha512(key@, msg@) && t@.len() == 64,
{
    let mut mac = <Hmac<Sha512> as Mac>::new_from_slice(key.as_bytes())?;
    mac.update(msg.as_bytes());
    Ok(mac.finalize().into_bytes().to_vec())
}

/// Relies on `hex::encode`: each byte as two lowercase hex digits, high nibble first.
#[verifier::external_body]
fn encode_hex(b: &[u8]) -> (r: String)
    ensures
        r@ == hex_lower(b@),
{
    hex::encode(b)
}

/// Computes the `apisign` value of a URL: HMAC-SHA512 under the secret, in
/// lowercase hexadecimal. `Internal` where the HMAC primitive refuses the key,
/// which it does for no key.
pub fn sign(secret: &str, url: &str) -> (r: Result<String, crate::error::Error>)
    ensures
        r matches Ok(s) && s@ == signature(secret@, url@) && s@.len() == 128,
{
    match hmac_sha512_tag(secret, url) {
        Ok(tag) => Ok(encode_hex(tag.as_slice())),
        Err(_) => Err(crate::error::Error::Internal(String::from_str("invalid key length"))),
    }
}

/// The one-character text of a decimal digit.
fn digit_str(d: u64) -> (s: &'static str)
    requires
        d < 10,
    ensures
        s@ == seq![digit_char(d as nat)],
{
    proof {
        reveal_strlit("0");
        reveal_strlit("1");
        reveal_strlit("2");
        reveal_strlit("3");
        reveal_strlit("4");
        reveal_strlit("5");
        reveal_strlit("6");
        reveal_strlit("7");
        reveal_strlit("8");
        reveal_strlit("9");
    }
    if d == 0 {
        "0"
    } else if d == 1 {
        "1"
    } else if d == 2 {
        "2"
    } else if d == 3 {
        "3"
    } else if d == 4 {
        "4"
    } else if d == 5 {
        "5"
    } else if d == 6 {
        "6"
    } else if d == 7 {
        "7"
    } else if d == 8 {
        "8"
    } else {
        "9"
    }
}

/// Appends the decimal text of `n` to `s`.
pub fn push_decimal(s: &mut String, n: u64)
    ensures
        final(s)@ == old(s)@ + decimal(n as nat),
    decreases n,
{
    if n < 10 {
        s.append(digit_str(n));
    } else {
        push_decimal(s, n / 10);
        s.append(digit_str(n % 10));
    }
}

/// The separator that `query_separator` gives for `url`.
fn separator(url: &str) -> (r: &'static str)
    ensures
        r@ == query_separator(url@),
{
    let n = url.unicode_len();
    let mut i: usize = 0;
    while i < n
        invariant
            n == url@.len(),
            i <= n,
            forall|j: int| 0 <= j < i ==> url@[j] != '?',
        decreases n - i,
    {
        if url.get_char(i) == '?' {
            assert(url@[i as int] == '?');
            let last = url.get_char(n - 1);
            assert(url@.last() == last);
            proof {
                reveal_strlit("");
                reveal_strlit("&");
            }
            if last == '?' {
                assert(""@ =~= Seq::<char>::empty());
                return "";
            } else {
                assert("&"@ =~= seq!['&']);
                return "&";
            }
        }
        i = i + 1;
    }
    proof {
        reveal_strlit("?");
    }
    assert("?"@ =~= seq!['?']);
    "?"
}

/// Where the fragment of `url` starts.
fn fragment_index(url: &str) -> (k: usize)
    ensures
        k as int == fragment_start(url@),
        k <= url@.len(),
{
    let n = url.unicode_len();
    let mut i: usize = 0;
    while i < n
        invariant
            n == url@.len(),
            i <= n,
            forall|j: int| 0 <= j < i ==> url@[j] != '#',
        decreases n - i,
    {
        if url.get_char(i) == '#' {
            proof {
                lemma_fragment_start_unique(url@, i as int);
            }
            return i;
        }
        i = i + 1;
    }
    proof {
        lemma_fragment_start_unique(url@, i as int);
    }
    i
}

/// Appends the login parameters to the query of `url`, before any fragment:
/// `apikey` with the key form-encoded, then `nonce` with the nonce in decimal.
pub fn append_login_params(url: &mut String, api_key: &str, nonce: u64)
    ensures
        final(url)@ == signed_url(old(url)@, api_key@, nonce as nat),
{
    proof {
        reveal_strlit("apikey=");
        reveal_strlit("&nonce=");
    }
    let k = fragment_index(url.as_str());
    let n = url.unicode_len();
    let mut out = String::from_str(url.as_str().substring_char(0, k));
    assert(out@ =~= url_base(url@));
    let sep = separator(out.as_str());
    out.append(sep);
    out.append("apikey=");
    let key = form_encode(api_key);
    out.append(key.as_str());
    out.append("&nonce=");
    push_decimal(&mut out, nonce);
    let fragment = url.as_str().substring_char(k, n);
    assert(fragment@ =~= url_fragment(url@));
    out.append(fragment);
    *url = out;
}

} // verus!
