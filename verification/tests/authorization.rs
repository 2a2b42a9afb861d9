use oplire::auth::{normalize_auth_header, request_auth, resolve_auth_header};

fn some(text: &str) -> Option<String> {
    Some(text.to_string())
}

#[test]
fn keys_get_the_scheme_and_headers_keep_theirs() {
    for (value, header) in [
        ("key", "Bearer key"),
        ("  key\t\n", "Bearer key"),
        ("Bearer key", "Bearer key"),
        (" bearer key ", "bearer key"),
        ("BEARER  key", "BEARER  key"),
        ("Bearer", "Bearer"),
        ("Bearer ", "Bearer"),
        ("\tBEARER\n", "BEARER"),
        ("bearer", "bearer"),
        ("Beare", "Bearer Beare"),
        ("bearer2", "Bearer bearer2"),
        ("Bearerkey", "Bearer Bearerkey"),
        ("Basic abc", "Bearer Basic abc"),
        ("", "Bearer "),
        ("   ", "Bearer "),
        ("k\u{e9}y", "Bearer k\u{e9}y"),
        ("\u{20ac}\u{20ac}xy", "Bearer \u{20ac}\u{20ac}xy"),
        ("\u{3000}key\u{a0}", "Bearer key"),
    ] {
        assert_eq!(normalize_auth_header(value), header);
    }
}

#[test]
fn the_scheme_is_never_given_twice() {
    for value in ["key", "Bearer key", "  bearer  key ", "Bearer", "Bearer ", " bEARER", "Basic x"] {
        let header = normalize_auth_header(value);
        let lower = header.to_ascii_lowercase();
        assert!(lower == "bearer" || lower.starts_with("bearer "), "{value}");
        assert!(!lower.starts_with("bearer bearer"), "{value}");
    }
    assert_eq!(resolve_auth_header(some("Bearer"), some("other")), some("Bearer"));
    assert_eq!(resolve_auth_header(None, some("bearer ")), some("bearer"));
    assert_eq!(request_auth(Some(b"Bearer"), None), some("Bearer"));
}

#[test]
fn normalizing_twice_changes_nothing_more() {
    for value in ["key", "Bearer key", "  bearer  key ", "Bearer", "Bearer Bearer x", "k\u{e9}"] {
        let once = normalize_auth_header(value);
        assert_eq!(normalize_auth_header(&once), once);
    }
    assert_eq!(normalize_auth_header("Bearer Bearer x"), "Bearer Bearer x");
}

#[test]
fn white_space_is_what_unicode_says() {
    let white = [
        '\u{9}', '\u{a}', '\u{b}', '\u{c}', '\u{d}', '\u{20}', '\u{85}', '\u{a0}', '\u{1680}',
        '\u{2000}', '\u{2001}', '\u{2002}', '\u{2003}', '\u{2004}', '\u{2005}', '\u{2006}',
        '\u{2007}', '\u{2008}', '\u{2009}', '\u{200a}', '\u{2028}', '\u{2029}', '\u{202f}',
        '\u{205f}', '\u{3000}',
    ];
    for code in 0..=0x10ffffu32 {
        let Some(c) = char::from_u32(code) else {
            continue;
        };
        let key = format!("{c}xx");
        let header = normalize_auth_header(&key);
        if white.contains(&c) {
            assert_eq!(header, "Bearer xx");
        } else {
            assert_eq!(header, format!("Bearer {key}"));
        }
    }
}

#[test]
fn the_callers_key_goes_before_the_proxys() {
    let resolve = resolve_auth_header;
    assert_eq!(resolve(some("Bearer mine"), some("other")), some("Bearer mine"));
    assert_eq!(resolve(some("mine"), None), some("Bearer mine"));
    assert_eq!(resolve(some("  "), some("other")), some("Bearer other"));
    assert_eq!(resolve(some(""), None), None);
    assert_eq!(resolve(None, some("bearer other")), some("bearer other"));
    assert_eq!(resolve(None, some("")), some("Bearer "));
    assert_eq!(resolve(None, None), None);
}

#[test]
fn header_values_that_are_no_text_count_as_missing() {
    assert_eq!(request_auth(Some(b"Bearer mine"), some("other")), some("Bearer mine"));
    assert_eq!(request_auth(Some(b"\tmine "), None), some("Bearer mine"));
    assert_eq!(request_auth(Some(b"Bearer m\xc3\xa9"), some("other")), some("Bearer other"));
    assert_eq!(request_auth(Some(b"a\x7f"), None), None);
    assert_eq!(request_auth(Some(b"a\nb"), None), None);
    assert_eq!(request_auth(Some(b"~!"), None), some("Bearer ~!"));
    assert_eq!(request_auth(Some(b""), some("other")), some("Bearer other"));
    assert_eq!(request_auth(None, some("other")), some("Bearer other"));
    assert_eq!(request_auth(None, None), None);
}
