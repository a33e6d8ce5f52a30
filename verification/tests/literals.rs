use cornetto::literal::literal_is_readable;

fn all_readable(texts: &[&str]) {
    for text in texts {
        assert!(literal_is_readable(text), "{}", text);
    }
}

fn none_readable(texts: &[&str]) {
    for text in texts {
        assert!(!literal_is_readable(text), "{}", text);
    }
}

#[test]
fn strings_are_readable() {
    all_readable(&[
        "\"\"",
        "\"shop\"",
        "\"a b\tc\"",
        "\"é ü 日本\"",
        "\"a\\\"b\"",
        "\"\\n\\r\\t\\\\\\0\\'\\\"\"",
        "\"\\x41\\x7f\\x00\"",
        "\"\\u{41}\\u{e9}\\u{1F600}\\u{10FFFF}\\u{D7FF}\\u{E000}\"",
        "\"line\\\n    next\"",
        "\"two\nlines\"",
        "\"dos\r\nline\"",
        "\"shop\"suffix",
    ]);
}

#[test]
fn malformed_strings_are_not_readable() {
    none_readable(&[
        "\"",
        "\"open",
        "\"back\\",
        "\"\\q\"",
        "\"\\a\"",
        "\"\\x4\"",
        "\"\\x4g\"",
        "\"\\x80\"",
        "\"\\xff\"",
        "\"\\u41\"",
        "\"\\u{}\"",
        "\"\\u{41\"",
        "\"\\u{1234567}\"",
        "\"\\u{D800}\"",
        "\"\\u{DFFF}\"",
        "\"\\u{110000}\"",
        "\"\\u{4_1}\"",
        "\"\\u{g}\"",
        "\"bare\rreturn\"",
        "\"end\r",
    ]);
}

#[test]
fn raw_strings_are_readable() {
    all_readable(&[
        "r\"\"",
        "r\"a\\q\"",
        "r#\"a\"b\"#",
        "r##\"a\"#b\"##",
        "r#\"a\"#suffix",
        "br\"a\"",
        "br#\"a\"b\"#",
    ]);
}

#[test]
fn malformed_raw_strings_are_not_readable() {
    none_readable(&["r", "r#", "r\"", "r#\"a\"", "r##\"a\"#", "ra\"b\"", "r#a\"b\"#", "br", "br#\"a\""]);
}

#[test]
fn byte_strings_are_readable() {
    all_readable(&[
        "b\"\"",
        "b\"abc\"",
        "b\"\\xff\\x00\\n\\\"\"",
        "b\"line\\\n next\"",
    ]);
}

#[test]
fn malformed_byte_strings_are_not_readable() {
    none_readable(&["b", "b\"", "b\"a", "b\"\\u{41}\"", "b\"\\q\"", "b\"\\x4\"", "bx", "b#"]);
}

#[test]
fn characters_and_bytes_are_readable() {
    all_readable(&[
        "'a'", "'é'", "'\"'", "'\\''", "'\\n'", "'\\x41'", "'\\u{1F600}'", "'a'suffix", "b'a'",
        "b'\\n'", "b'\\xff'", "b'\\''", "b'\"'",
    ]);
}

#[test]
fn malformed_characters_and_bytes_are_not_readable() {
    none_readable(&[
        "'", "'a", "'ab'", "'\\q'", "'\\x80'", "'\\u{D800}'", "'\\\n'", "b'", "b'a", "b'é'",
        "b'ab'", "b'\\u{41}'", "b'\\q'",
    ]);
}

#[test]
fn numbers_are_readable() {
    all_readable(&[
        "0", "7", "200", "1_000_000", "007", "17u8", "1i128", "5usize", "5isize", "1f32", "2f64",
        "0x1F", "0xdead_beef", "0xffu8", "0o777", "0o7i64", "0b1010", "0b1_0u16", "1.5", "0.0",
        "1_0.2_5", "1.5f32", "1.5e3", "1e5", "1E5", "1e+5", "1e-5", "2.5E-1_0", "1e5f64",
        "1.5e-3f64",
    ]);
}

#[test]
fn numbers_of_other_shapes_are_not_readable() {
    none_readable(&[
        "1e+", "1e", "1e-", "1ex", "1.", "1.e5", "1.5.3", "1..2", "0x", "0xg", "0x_1", "0o8",
        "0b2", "0b", "1u7", "1u", "1f16", "1.5u8", "1e5u8", "0x1.8", "1abc", "1 ", " 1", "-3",
        "-1.5", "1_e", "0b1f32",
    ]);
}

#[test]
fn other_texts_are_not_readable() {
    none_readable(&["", "c\"x\"", "cr\"x\"", "true", "false", "x", "_", "#", "é", ".5", "+1"]);
}

#[test]
fn readable_literals_are_read() {
    let texts = [
        "\"shop\"",
        "\"a\\\"b\"",
        "\"\\n\\r\\t\\\\\\0\\'\\\"\"",
        "\"\\x41\\x7f\\x00\"",
        "\"\\u{41}\\u{e9}\\u{1F600}\\u{10FFFF}\"",
        "\"line\\\n    next\"",
        "\"two\nlines\"",
        "r\"a\\q\"",
        "r#\"a\"b\"#",
        "br#\"a\"b\"#",
        "b\"\\xff\\x00\\n\\\"\"",
        "'a'",
        "'\\''",
        "'\\u{1F600}'",
        "b'a'",
        "b'\\xff'",
        "0",
        "1_000_000",
        "17u8",
        "1f32",
        "0x1F",
        "0xffu8",
        "0o777",
        "0b1_0u16",
        "1.5",
        "1.5f32",
        "1e5",
        "1e+5",
        "2.5E-1_0",
        "1.5e-3f64",
    ];
    for text in texts {
        assert!(literal_is_readable(text), "{}", text);
        let token: proc_macro2::Literal = text.parse().unwrap();
        assert_eq!(quote::ToTokens::to_token_stream(&syn::Lit::new(token)).to_string(), text);
        let first = text.chars().next().unwrap();
        if first.is_ascii_digit() {
            let negative: syn::Lit = syn::parse_str(&format!("-{}", text)).unwrap();
            assert_eq!(
                quote::ToTokens::to_token_stream(&negative).to_string().replace(' ', ""),
                format!("-{}", text)
            );
        }
    }
}
