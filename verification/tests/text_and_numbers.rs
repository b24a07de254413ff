use server_dash_api::digits::{decimal_chars, hex_chars, parse_u64_chars};
use server_dash_api::secret::{fresh_secret, read_secret_file, secret_file_contents, SecretFile, ROTATION_DAYS, ROTATION_SECONDS};
use server_dash_api::session::{generate_secret, generate_session_id, hex_token};
use server_dash_api::text::{chars_of, remove_all_chars, split_once_chars, string_of, trim_chars};

fn chars(s: &str) -> Vec<char> {
    s.chars().collect()
}

#[test]
fn chars_round_trip() {
    assert_eq!(chars_of("h\u{e9}llo"), chars("h\u{e9}llo"));
    assert_eq!(string_of(&chars("h\u{e9}llo")), "h\u{e9}llo");
}

#[test]
fn trim_like_std() {
    for s in ["  a b \n", "\t\u{3000}x\u{85}", "", "   ", "abc", "\u{200b}x"] {
        assert_eq!(string_of(&trim_chars(&chars(s))), s.trim());
    }
}

#[test]
fn split_once_like_std() {
    for s in ["a:b:c", ":", "abc", "", "x:"] {
        let ours = split_once_chars(&chars(s), ':')
            .map(|(a, b)| (string_of(&a), string_of(&b)));
        let std = s.split_once(':').map(|(a, b)| (a.to_string(), b.to_string()));
        assert_eq!(ours, std);
    }
}

#[test]
fn remove_all_like_replace() {
    for s in ["Bearer x", "aaaa", "Bearer Bearer ", "BeBearer r", ""] {
        assert_eq!(string_of(&remove_all_chars(&chars(s), &chars("Bearer "))), s.replace("Bearer ", ""));
    }
    assert_eq!(string_of(&remove_all_chars(&chars("aaaa"), &chars("aa"))), "");
    assert_eq!(string_of(&remove_all_chars(&chars("aaa"), &chars("aa"))), "a");
}

#[test]
fn decimal_rendering() {
    assert_eq!(string_of(&decimal_chars(0)), "0");
    assert_eq!(string_of(&decimal_chars(1234567890)), "1234567890");
    assert_eq!(string_of(&decimal_chars(u64::MAX)), u64::MAX.to_string());
}

#[test]
fn hex_rendering() {
    assert_eq!(string_of(&hex_chars(0xbeef, 4)), "beef");
    assert_eq!(string_of(&hex_chars(0x1beef, 4)), "beef");
    assert_eq!(string_of(&hex_chars(10, 3)), "00a");
    assert_eq!(string_of(&hex_chars(5, 0)), "");
}

#[test]
fn parse_u64_like_std() {
    for s in ["0", "42", "+42", "", "+", "-1", "++1", " 1", "12a", "007",
              "18446744073709551615", "18446744073709551616", "99999999999999999999999"] {
        assert_eq!(parse_u64_chars(&chars(s)), s.parse::<u64>().ok(), "input {:?}", s);
    }
}

#[test]
fn token_format() {
    assert_eq!(hex_token(0, 0), "0".repeat(32));
    assert_eq!(hex_token(0xdeadbeef, u64::MAX), "00000000deadbeefffffffffffffffff");
    assert_eq!(hex_token(1, 2), format!("{:016x}{:016x}", 1u64, 2u64));
}

#[test]
fn generated_tokens_are_hex() {
    for t in [generate_session_id(), generate_secret()] {
        assert_eq!(t.len(), 32);
        assert!(t.chars().all(|c| c.is_ascii_digit() || ('a'..='f').contains(&c)));
    }
    assert_ne!(generate_session_id(), generate_session_id());
}

#[test]
fn secret_file_format() {
    assert_eq!(secret_file_contents(1700000000, "abc"), "1700000000:abc");
    assert_eq!(secret_file_contents(0, ""), "0:");
}

#[test]
fn secret_read_back_while_fresh() {
    let text = secret_file_contents(1700000000, "0123456789abcdef0123456789abcdef");
    assert_eq!(fresh_secret(&text, 1700000000), Some("0123456789abcdef0123456789abcdef".to_string()));
    assert_eq!(fresh_secret(&text, 1700000000 + ROTATION_SECONDS - 1), Some("0123456789abcdef0123456789abcdef".to_string()));
}

#[test]
fn secret_rotated_after_a_week() {
    assert_eq!(ROTATION_SECONDS, ROTATION_DAYS * 86400);
    let text = secret_file_contents(1700000000, "abc");
    assert_eq!(fresh_secret(&text, 1700000000 + ROTATION_SECONDS), None);
}

#[test]
fn secret_file_variants() {
    assert_eq!(fresh_secret("  100:s3cr:et \n", 200), Some("s3cr:et".to_string()));
    assert_eq!(fresh_secret("+100:x", 200), Some("x".to_string()));
    assert_eq!(fresh_secret("100", 200), None);
    assert_eq!(fresh_secret("abc:x", 200), None);
    assert_eq!(fresh_secret(":x", 200), None);
    assert_eq!(fresh_secret("", 200), None);
    // a stamp in the future wraps around and counts as expired
    assert_eq!(fresh_secret("300:x", 200), None);
}

#[test]
fn secret_file_states() {
    assert!(matches!(read_secret_file("100:abc", 150), SecretFile::Fresh(ref s) if s == "abc"));
    assert!(matches!(read_secret_file("100:abc", 100 + ROTATION_SECONDS), SecretFile::Expired));
    assert!(matches!(read_secret_file("100:abc", 50), SecretFile::Expired));
    assert!(matches!(read_secret_file("x100:abc", 150), SecretFile::Malformed));
    assert!(matches!(read_secret_file("100abc", 150), SecretFile::Malformed));
    assert!(matches!(read_secret_file("", 150), SecretFile::Malformed));
}
