use run_in_roblox::bytes::{bytes_eq, contains_bytes_exec, ends_with_exec};
use run_in_roblox::token::{generate_session_token, make_session_token, render_hex, tokens_match};

#[test]
fn small_values_render_in_lower_hex() {
    assert_eq!(render_hex(0), b"0".to_vec());
    assert_eq!(render_hex(10), b"a".to_vec());
    assert_eq!(render_hex(0x2a), b"2a".to_vec());
    assert_eq!(render_hex(0xdeadbeef), b"deadbeef".to_vec());
}

#[test]
fn rendering_matches_the_standard_hex_formatting() {
    let samples: Vec<u128> = vec![
        0,
        1,
        15,
        16,
        0x123456789abcdef0,
        u128::MAX,
        340_282_366_920_938_463_463_374_607_431_768_211_454,
    ];
    for n in samples {
        assert_eq!(render_hex(n), format!("{:x}", n).into_bytes());
    }
}

#[test]
fn a_token_is_the_prefix_and_the_hex_digits() {
    assert_eq!(make_session_token(0x2a), b"run-in-roblox-2a".to_vec());
    assert_eq!(make_session_token(0), b"run-in-roblox-0".to_vec());
    let n: u128 = 0xfeed_f00d_cafe;
    assert_eq!(make_session_token(n), format!("run-in-roblox-{:x}", n).into_bytes());
}

#[test]
fn generated_tokens_are_well_formed_and_fresh() {
    let a = generate_session_token();
    let b = generate_session_token();
    let prefix = b"run-in-roblox-".to_vec();
    assert!(a.len() > prefix.len());
    assert!(a.starts_with(&prefix));
    assert!(b.starts_with(&prefix));
    for digit in &a[prefix.len()..] {
        assert!(digit.is_ascii_hexdigit() && !digit.is_ascii_uppercase());
    }
    // 128 bits of entropy: two draws in one process never collide in practice.
    assert_ne!(a, b);
}

#[test]
fn token_matching_is_exact_and_case_sensitive() {
    let configured = make_session_token(0xabcdef);
    assert!(tokens_match(&configured, &b"run-in-roblox-abcdef".to_vec()));
    assert!(!tokens_match(&configured, &b"run-in-roblox-ABCDEF".to_vec()));
    assert!(!tokens_match(&configured, &b"run-in-roblox-abcde".to_vec()));
    assert!(!tokens_match(&configured, &b"".to_vec()));
}

#[test]
fn byte_string_helpers_handle_edges() {
    let hay = b"abcabd".to_vec();
    assert!(contains_bytes_exec(&hay, &b"cab".to_vec()));
    assert!(contains_bytes_exec(&hay, &b"abd".to_vec()));
    assert!(!contains_bytes_exec(&hay, &b"abe".to_vec()));
    assert!(contains_bytes_exec(&hay, &b"".to_vec()));
    assert!(!contains_bytes_exec(&b"ab".to_vec(), &b"abc".to_vec()));

    assert!(ends_with_exec(&hay, &b"abd".to_vec()));
    assert!(!ends_with_exec(&hay, &b"abc".to_vec()));
    assert!(ends_with_exec(&hay, &b"".to_vec()));

    assert!(bytes_eq(&hay, &b"abcabd".to_vec()));
    assert!(!bytes_eq(&hay, &b"abcabD".to_vec()));
}
