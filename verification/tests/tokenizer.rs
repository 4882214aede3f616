use aam_rs::aaml::AAML;
use aam_rs::builder::AAMBuilder;

#[test]
fn comment_after_value_is_stripped() {
    assert_eq!(AAML::strip_comment("key = a #comment"), "key = a ");
    assert_eq!(AAML::strip_comment("key = a #comment").trim(), "key = a");
}

#[test]
fn hash_inside_double_quotes_is_kept() {
    assert_eq!(AAML::strip_comment("key = \"a#b\""), "key = \"a#b\"");
}

#[test]
fn hash_inside_single_quotes_is_kept() {
    assert_eq!(AAML::strip_comment("key = 'a#b' # tail"), "key = 'a#b' ");
}

#[test]
fn line_without_hash_is_kept_whole() {
    assert_eq!(AAML::strip_comment("key = value"), "key = value");
    assert_eq!(AAML::strip_comment(""), "");
}

#[test]
fn hash_at_the_start_leaves_nothing() {
    assert_eq!(AAML::strip_comment("# only a comment"), "");
}

#[test]
fn other_quote_does_not_close_a_span() {
    assert_eq!(AAML::strip_comment("k = \"it's #1\" # c"), "k = \"it's #1\" ");
    assert_eq!(AAML::strip_comment("k = 'say \"#\"' # c"), "k = 'say \"#\"' ");
}

#[test]
fn unclosed_quote_hides_every_hash() {
    assert_eq!(AAML::strip_comment("k = \"a # b"), "k = \"a # b");
}

#[test]
fn comment_directly_after_closing_quote() {
    assert_eq!(AAML::strip_comment("k = \"a\"#b"), "k = \"a\"");
}

#[test]
fn strip_comment_counts_characters_not_bytes() {
    assert_eq!(AAML::strip_comment("clé = été # accent"), "clé = été ");
}

#[test]
fn assignment_splits_at_first_equals() {
    assert_eq!(AAML::parse_assignment("a = b = c"), Ok(("a", "b = c")));
}

#[test]
fn assignment_trims_key_and_value() {
    assert_eq!(AAML::parse_assignment("  name\t=   value  "), Ok(("name", "value")));
    assert_eq!(AAML::parse_assignment("a=1"), Ok(("a", "1")));
}

#[test]
fn assignment_trims_unicode_white_space() {
    assert_eq!(
        AAML::parse_assignment("\u{a0}key\u{3000}=\u{2003}v\u{85}"),
        Ok(("key", "v"))
    );
}

#[test]
fn assignment_unquotes_value() {
    assert_eq!(AAML::parse_assignment("k = \"a b\""), Ok(("k", "a b")));
    assert_eq!(AAML::parse_assignment("k = 'a b'"), Ok(("k", "a b")));
    assert_eq!(AAML::parse_assignment("k = \" padded \""), Ok(("k", " padded ")));
}

#[test]
fn assignment_accepts_empty_value() {
    assert_eq!(AAML::parse_assignment("k ="), Ok(("k", "")));
    assert_eq!(AAML::parse_assignment("k = \"\""), Ok(("k", "")));
}

#[test]
fn assignment_without_equals_is_refused() {
    assert_eq!(
        AAML::parse_assignment("bad_line_no_equals"),
        Err("Missing assignment operator '='")
    );
    assert_eq!(AAML::parse_assignment(""), Err("Missing assignment operator '='"));
}

#[test]
fn assignment_with_empty_key_is_refused() {
    assert_eq!(AAML::parse_assignment(" = value"), Err("Key cannot be empty"));
    assert_eq!(AAML::parse_assignment("="), Err("Key cannot be empty"));
}

#[test]
fn unwrap_quotes_strips_one_layer() {
    assert_eq!(AAML::unwrap_quotes("\"abc\""), "abc");
    assert_eq!(AAML::unwrap_quotes("'abc'"), "abc");
    assert_eq!(AAML::unwrap_quotes("\"'abc'\""), "'abc'");
    assert_eq!(AAML::unwrap_quotes("\"\"abc\"\""), "\"abc\"");
}

#[test]
fn unwrap_quotes_trims_first() {
    assert_eq!(AAML::unwrap_quotes("   \"abc\"  "), "abc");
    assert_eq!(AAML::unwrap_quotes("  plain  "), "plain");
}

#[test]
fn unwrap_quotes_leaves_unmatched_quotes() {
    assert_eq!(AAML::unwrap_quotes("\"abc'"), "\"abc'");
    assert_eq!(AAML::unwrap_quotes("\"abc"), "\"abc");
    assert_eq!(AAML::unwrap_quotes("abc\""), "abc\"");
    assert_eq!(AAML::unwrap_quotes("a\"b\"c"), "a\"b\"c");
}

#[test]
fn unwrap_quotes_needs_two_characters() {
    assert_eq!(AAML::unwrap_quotes("\""), "\"");
    assert_eq!(AAML::unwrap_quotes("'"), "'");
    assert_eq!(AAML::unwrap_quotes("\"\""), "");
    assert_eq!(AAML::unwrap_quotes(""), "");
}

#[test]
fn assembled_line_reads_back() {
    let cases = [
        ("name", "value"),
        ("a.b.c", "1 2 3"),
        ("k", ""),
        ("spaced key", "x=y=z"),
        ("q", "\"quoted text\""),
        ("path", "C:\\dir\\file"),
    ];
    for (key, value) in cases {
        let mut builder = AAMBuilder::new();
        builder.add_line(key, value);
        let line = builder.build();
        let stripped = AAML::strip_comment(&line);
        assert_eq!(stripped, line);
        assert_eq!(
            AAML::parse_assignment(stripped),
            Ok((key.trim(), AAML::unwrap_quotes(value)))
        );
    }
}

#[test]
fn assembled_line_with_padding_reads_back_trimmed() {
    let mut builder = AAMBuilder::new();
    builder.add_line("  key ", "  'v'  ");
    let line = builder.build();
    assert_eq!(AAML::parse_assignment(AAML::strip_comment(&line)), Ok(("key", "v")));
}
