use bittrex::signing::{append_login_params, push_decimal, sign};

#[test]
fn sign_matches_rfc4231_vector() {
    let s = sign("Jefe", "what do ya want for nothing?").unwrap();
    assert_eq!(
        s,
        "164b7a7bfcf819e2e395fbe73b56e0a387bd64222e831fd610270cd7ea2505549758bf75c05a994a6d034f65f8f0e6fdcaeab1a34d4a6b4b636e070a38bce737"
    );
}

#[test]
fn sign_empty_key_and_message() {
    let s = sign("", "").unwrap();
    assert_eq!(
        s,
        "b936cee86c9f87aa5d3c6f2e84cb5a4239a5fe50480a6ec66b70ab5b1f4ac6730c6c515421b327ec1d69402e53dfb49ad7381eb067b338fd7b0cb22247225d47"
    );
}

#[test]
fn sign_is_deterministic() {
    let url = "https://bittrex.com/api/v1.1/account/getbalances?apikey=K&nonce=1";
    let a = sign("S", url).unwrap();
    let b = sign("S", url).unwrap();
    assert_eq!(a, b);
    assert_eq!(a.len(), 128);
    assert!(a.chars().all(|c| c.is_ascii_digit() || ('a'..='f').contains(&c)));
    assert_ne!(a, sign("T", url).unwrap());
}

#[test]
fn decimal_text() {
    for (n, t) in [(0u64, "0"), (7, "7"), (10, "10"), (1700000000, "1700000000"), (u64::MAX, "18446744073709551615")] {
        let mut s = String::from("x=");
        push_decimal(&mut s, n);
        assert_eq!(s, format!("x={}", t));
    }
}

#[test]
fn login_params_without_query() {
    let mut url = String::from("https://bittrex.com/api/v1.1/account/getbalances");
    append_login_params(&mut url, "KEY123", 1700000000);
    assert_eq!(url, "https://bittrex.com/api/v1.1/account/getbalances?apikey=KEY123&nonce=1700000000");
}

#[test]
fn login_params_after_query() {
    let mut url = String::from("https://bittrex.com/api/v1.1/account/getbalance?currency=BTC");
    append_login_params(&mut url, "K", 5);
    assert_eq!(url, "https://bittrex.com/api/v1.1/account/getbalance?currency=BTC&apikey=K&nonce=5");
}

#[test]
fn login_params_after_empty_query() {
    let mut url = String::from("https://bittrex.com/api/v1.1/account/getbalances?");
    append_login_params(&mut url, "K", 0);
    assert_eq!(url, "https://bittrex.com/api/v1.1/account/getbalances?apikey=K&nonce=0");
}

#[test]
fn login_params_encode_the_key() {
    let mut url = String::from("https://bittrex.com/api/v1.1/account/getbalances");
    append_login_params(&mut url, "a&b c+d%e#f~g*-._", 9);
    assert_eq!(
        url,
        "https://bittrex.com/api/v1.1/account/getbalances?apikey=a%26b+c%2Bd%25e%23f%7Eg*-._&nonce=9"
    );
}

#[test]
fn login_params_encode_non_ascii_key() {
    let mut url = String::from("https://h/p");
    append_login_params(&mut url, "é", 1);
    assert_eq!(url, "https://h/p?apikey=%C3%A9&nonce=1");
}

#[test]
fn login_params_go_before_fragment() {
    let mut url = String::from("https://h/p?x=1#frag?y#z");
    append_login_params(&mut url, "K", 12);
    assert_eq!(url, "https://h/p?x=1&apikey=K&nonce=12#frag?y#z");
    let mut bare = String::from("https://h/p#top");
    append_login_params(&mut bare, "K", 3);
    assert_eq!(bare, "https://h/p?apikey=K&nonce=3#top");
}

#[test]
fn sign_is_128_lowercase_hex_digits() {
    let s = sign("k", "m").unwrap();
    assert_eq!(s.len(), 128);
    assert!(s.chars().all(|c| c.is_ascii_digit() || ('a'..='f').contains(&c)));
}
