//! The parts of the library one by one, on values chosen by hand.

use raw_string_assists::assists::{
    add_hash, make_raw_string, make_usual_string, plain_string_literal, raw_string_literal,
    remove_hash,
};
use raw_string_assists::chars::{chars_of, len_utf8};
use raw_string_assists::content::{find_usual_string_range, payload_of, quote_indices};
use raw_string_assists::escape::escape_default;
use raw_string_assists::hashes::count_hashes;
use raw_string_assists::token::{Edit, TextRange, Token, TokenKind};
use raw_string_assists::unescape::{collect_decoded, try_unescape};

fn token(kind: TokenKind, text: &str) -> Token {
    Token::new(kind, text.to_string(), TextRange { start: 10, end: 10 + text.len() })
}

fn replacement(edit: Option<Edit>) -> Option<String> {
    edit.map(|edit| edit.replacement)
}

fn fence(width: usize) -> String {
    let mut fence = String::from("\"");
    for _ in 0..width {
        fence.push('#');
    }
    fence
}

/// The number of `#` with which a raw literal opens.
fn fence_width(literal: &str) -> usize {
    literal[1..].chars().take_while(|c| *c == '#').count()
}

#[test]
fn token_keeps_what_it_was_made_of() {
    let range = TextRange { start: 3, end: 8 };
    let made = Token::new(TokenKind::RawStr, "r\"ab\"".to_string(), range);
    assert_eq!(made.kind(), TokenKind::RawStr);
    assert_eq!(made.text(), "r\"ab\"");
    assert_eq!(made.range(), range);
}

#[test]
fn chars_of_gives_every_char() {
    assert_eq!(chars_of(""), Vec::<char>::new());
    assert_eq!(chars_of("a\u{e9}\u{2764}"), vec!['a', '\u{e9}', '\u{2764}']);
}

#[test]
fn len_utf8_is_that_of_std() {
    for c in ['\0', 'a', '\u{7f}', '\u{80}', '\u{7ff}', '\u{800}', '\u{d7ff}', '\u{e000}',
        '\u{ffff}', '\u{10000}', '\u{10ffff}']
    {
        assert_eq!(len_utf8(c), c.len_utf8());
    }
}

#[test]
fn quote_indices_are_those_of_the_first_and_last_quote() {
    assert_eq!(quote_indices(&chars_of("\"abc\"")), Some((0, 4)));
    assert_eq!(quote_indices(&chars_of("r##\"a\"b\"##")), Some((3, 7)));
    assert_eq!(quote_indices(&chars_of("\"\"")), Some((0, 1)));
    assert_eq!(quote_indices(&chars_of("\"")), None);
    assert_eq!(quote_indices(&chars_of("no quote")), None);
    assert_eq!(quote_indices(&chars_of("")), None);
}

#[test]
fn payload_is_what_stands_between_the_outer_quotes() {
    assert_eq!(payload_of("\"abc\""), Some("abc"));
    assert_eq!(payload_of("r##\"a\"b\"##"), Some("a\"b"));
    assert_eq!(payload_of("x\"\u{e9}\u{2764}\"y"), Some("\u{e9}\u{2764}"));
    assert_eq!(payload_of("\"\""), Some(""));
    assert_eq!(payload_of("\""), None);
    assert_eq!(payload_of("r#\"bar"), None);
    assert_eq!(payload_of(""), None);
}

#[test]
fn range_lies_inside_the_quotes() {
    assert_eq!(find_usual_string_range("\"abc\""), Some(TextRange { start: 1, end: 4 }));
    assert_eq!(find_usual_string_range("r##\"a\"b\"##"), Some(TextRange { start: 4, end: 7 }));
    assert_eq!(find_usual_string_range("x\"a\"b\"c"), Some(TextRange { start: 2, end: 5 }));
}

#[test]
fn range_of_empty_literal_is_empty() {
    assert_eq!(find_usual_string_range("\"\""), Some(TextRange { start: 1, end: 1 }));
    assert_eq!(find_usual_string_range("r#\"\"#"), Some(TextRange { start: 3, end: 3 }));
}

#[test]
fn range_needs_two_quotes() {
    assert_eq!(find_usual_string_range(""), None);
    assert_eq!(find_usual_string_range("\""), None);
    assert_eq!(find_usual_string_range("\"foo\n            }\n"), None);
    assert_eq!(find_usual_string_range("r#\"bar"), None);
    assert_eq!(find_usual_string_range("r###"), None);
    assert_eq!(find_usual_string_range("plain"), None);
}

#[test]
fn range_is_in_bytes() {
    let text = "\u{e9}\"\u{2764}x\"\u{1f600}";
    let range = find_usual_string_range(text).unwrap();
    assert_eq!(range, TextRange { start: 3, end: 7 });
    assert_eq!(&text[range.start..range.end], "\u{2764}x");
    assert_eq!(range.start, text.find('"').unwrap() + 1);
    assert_eq!(range.end, text.rfind('"').unwrap());
}

#[test]
fn count_hashes_takes_the_longest_run_behind_a_quote() {
    assert_eq!(count_hashes(""), 0);
    assert_eq!(count_hashes("\""), 0);
    assert_eq!(count_hashes("\"\"\""), 0);
    assert_eq!(count_hashes("\"#"), 1);
    assert_eq!(count_hashes("\"###\"#"), 3);
    assert_eq!(count_hashes("\"#\"###"), 3);
    assert_eq!(count_hashes("\"#x##"), 1);
    assert_eq!(count_hashes("#\u{e9}\"##\u{2764}"), 2);
}

#[test]
fn escape_default_escapes_the_six_and_leaves_printable_ascii() {
    assert_eq!(escape_default("\t\r\n'\"\\"), "\\t\\r\\n\\'\\\"\\\\");
    assert_eq!(escape_default(" az~#{}"), " az~#{}");
    assert_eq!(escape_default(""), "");
}

#[test]
fn escape_default_writes_code_points_in_hex() {
    assert_eq!(escape_default("\0"), "\\u{0}");
    assert_eq!(escape_default("\u{1f}"), "\\u{1f}");
    assert_eq!(escape_default("\u{7f}"), "\\u{7f}");
    assert_eq!(escape_default("\u{e9}"), "\\u{e9}");
    assert_eq!(escape_default("\u{2764}"), "\\u{2764}");
    assert_eq!(escape_default("\u{10ffff}"), "\\u{10ffff}");
}

#[test]
fn escape_default_is_that_of_std() {
    let samples = [
        "random string",
        "random\"str\"ing",
        "a\\b\n\tc\r'",
        "\0\u{1}\u{a}\u{f}\u{10}\u{ff}\u{100}\u{fff}\u{1000}\u{ffff}\u{10000}\u{fffff}\u{100000}",
        "\u{e9}t\u{e9} \u{2764} \u{1f600}",
    ];
    for sample in samples {
        assert_eq!(escape_default(sample), sample.escape_default().to_string());
    }
}

#[test]
fn collect_decoded_wants_every_piece() {
    assert_eq!(collect_decoded(&vec![]), Some(String::new()));
    assert_eq!(collect_decoded(&vec![Some('a'), Some('"'), Some('\n')]), Some("a\"\n".to_string()));
    assert_eq!(collect_decoded(&vec![None]), None);
    assert_eq!(collect_decoded(&vec![Some('a'), None, Some('b')]), None);
    assert_eq!(collect_decoded(&vec![Some('a'), Some('b'), None]), None);
}

#[test]
fn try_unescape_decodes_escapes() {
    assert_eq!(try_unescape(""), Some(String::new()));
    assert_eq!(try_unescape("random string"), Some("random string".to_string()));
    assert_eq!(try_unescape("a\\nb\\tc\\\\d\\\"e\\'f\\0"), Some("a\nb\tc\\d\"e'f\0".to_string()));
    assert_eq!(try_unescape("\\x41\\u{2764}\\u{1F600}"), Some("A\u{2764}\u{1f600}".to_string()));
    assert_eq!(try_unescape("a\\\n    b"), Some("ab".to_string()));
    assert_eq!(try_unescape("a\nb"), Some("a\nb".to_string()));
}

#[test]
fn try_unescape_fails_on_what_it_cannot_decode() {
    assert_eq!(try_unescape("\\q"), None);
    assert_eq!(try_unescape("abc\\"), None);
    assert_eq!(try_unescape("\\x4"), None);
    assert_eq!(try_unescape("\\xff"), None);
    assert_eq!(try_unescape("\\u{d800}"), None);
    assert_eq!(try_unescape("\\u{110000}"), None);
    assert_eq!(try_unescape("a\"b"), None);
    assert_eq!(try_unescape("a\rb"), None);
    assert_eq!(try_unescape("fine until \\u{"), None);
}

#[test]
fn raw_string_literal_has_one_hash_more_than_the_content_needs() {
    assert_eq!(raw_string_literal(""), "r#\"\"#");
    assert_eq!(raw_string_literal("random\nstring"), "r#\"random\nstring\"#");
    assert_eq!(raw_string_literal("#random##\nstring"), "r#\"#random##\nstring\"#");
    assert_eq!(raw_string_literal("random\"string"), "r#\"random\"string\"#");
    assert_eq!(raw_string_literal("#random\"##\nstring"), "r###\"#random\"##\nstring\"###");
    assert_eq!(raw_string_literal("\"#\"####"), "r#####\"\"#\"####\"#####");
}

#[test]
fn plain_string_literal_escapes_its_content() {
    assert_eq!(plain_string_literal(""), "\"\"");
    assert_eq!(plain_string_literal("random string"), "\"random string\"");
    assert_eq!(plain_string_literal("random\"string"), "\"random\\\"string\"");
    assert_eq!(plain_string_literal("a\\b\n"), "\"a\\\\b\\n\"");
}

#[test]
fn make_raw_string_decodes_the_payload() {
    let edit = make_raw_string(&token(TokenKind::Str, "\"random\\nstring\"")).unwrap();
    assert_eq!(edit.replacement, "r#\"random\nstring\"#");
    assert_eq!(edit.target, TextRange { start: 10, end: 26 });
    let plain = token(TokenKind::Str, "\"#random\\\"##\\nstring\"");
    assert_eq!(replacement(make_raw_string(&plain)), Some("r###\"#random\"##\nstring\"###".to_string()));
    let empty = token(TokenKind::Str, "\"\"");
    assert_eq!(replacement(make_raw_string(&empty)), Some("r#\"\"#".to_string()));
}

#[test]
fn make_raw_string_declines_what_it_cannot_decode() {
    assert_eq!(make_raw_string(&token(TokenKind::Str, "\"\\q\"")), None);
    assert_eq!(make_raw_string(&token(TokenKind::Str, "\"a\"b\"")), None);
    assert_eq!(make_raw_string(&token(TokenKind::Str, "\"\\u{110000}\"")), None);
}

#[test]
fn make_raw_string_declines_other_kinds() {
    assert_eq!(make_raw_string(&token(TokenKind::RawStr, "r#\"random string\"#")), None);
    assert_eq!(make_raw_string(&token(TokenKind::RawStr, "\"random string\"")), None);
    assert_eq!(make_raw_string(&token(TokenKind::Other, "\"random string\"")), None);
}

#[test]
fn make_usual_string_escapes_the_payload() {
    let edit = make_usual_string(&token(TokenKind::RawStr, "r#\"random\"string\"#")).unwrap();
    assert_eq!(edit.replacement, "\"random\\\"string\"");
    assert_eq!(edit.target, TextRange { start: 10, end: 28 });
    let raw = token(TokenKind::RawStr, "r\"a\\b\nc\"");
    assert_eq!(replacement(make_usual_string(&raw)), Some("\"a\\\\b\\nc\"".to_string()));
    let empty = token(TokenKind::RawStr, "r\"\"");
    assert_eq!(replacement(make_usual_string(&empty)), Some("\"\"".to_string()));
}

#[test]
fn make_usual_string_declines_other_kinds() {
    assert_eq!(make_usual_string(&token(TokenKind::Str, "\"random string\"")), None);
    assert_eq!(make_usual_string(&token(TokenKind::Str, "r#\"random string\"#")), None);
    assert_eq!(make_usual_string(&token(TokenKind::Other, "r#\"random string\"#")), None);
}

#[test]
fn add_hash_grows_both_sides() {
    let edit = add_hash(&token(TokenKind::RawStr, "r\"random string\"")).unwrap();
    assert_eq!(edit.replacement, "r#\"random string\"#");
    assert_eq!(edit.target, TextRange { start: 10, end: 26 });
    let raw = token(TokenKind::RawStr, "r#\"random\"string\"#");
    assert_eq!(replacement(add_hash(&raw)), Some("r##\"random\"string\"##".to_string()));
    let wide = token(TokenKind::RawStr, "r\"\u{e9}\u{2764}\"");
    assert_eq!(replacement(add_hash(&wide)), Some("r#\"\u{e9}\u{2764}\"#".to_string()));
}

#[test]
fn add_hash_declines_what_is_no_raw_string() {
    assert_eq!(add_hash(&token(TokenKind::Str, "\"random string\"")), None);
    assert_eq!(add_hash(&token(TokenKind::Other, "r\"random string\"")), None);
    assert_eq!(add_hash(&token(TokenKind::RawStr, "\"random string\"")), None);
    assert_eq!(add_hash(&token(TokenKind::RawStr, "\u{e9}\"random string\"")), None);
    assert_eq!(add_hash(&token(TokenKind::RawStr, "r\"random string")), None);
    assert_eq!(add_hash(&token(TokenKind::RawStr, "r##")), None);
}

#[test]
fn remove_hash_strips_one_hash_of_several() {
    let edit = remove_hash(&token(TokenKind::RawStr, "r##\"random\"string\"##")).unwrap();
    assert_eq!(edit.replacement, "r#\"random\"string\"#");
    assert_eq!(edit.target, TextRange { start: 10, end: 30 });
    let raw = token(TokenKind::RawStr, "r###\"a\\b\"###");
    assert_eq!(replacement(remove_hash(&raw)), Some("r##\"a\\b\"##".to_string()));
}

#[test]
fn remove_hash_stays_raw_when_the_last_hash_goes_and_no_quote_is_inside() {
    let raw = token(TokenKind::RawStr, "r#\"random string\"#");
    assert_eq!(replacement(remove_hash(&raw)), Some("r\"random string\"".to_string()));
    let slashed = token(TokenKind::RawStr, "r#\"a\\b\n'\u{e9}\"#");
    assert_eq!(replacement(remove_hash(&slashed)), Some("r\"a\\b\n'\u{e9}\"".to_string()));
    let empty = token(TokenKind::RawStr, "r#\"\"#");
    assert_eq!(replacement(remove_hash(&empty)), Some("r\"\"".to_string()));
}

#[test]
fn remove_hash_turns_plain_when_the_last_hash_guarded_a_quote() {
    let quoted = token(TokenKind::RawStr, "r#\"random\"str\"ing\"#");
    let edit = remove_hash(&quoted).unwrap();
    assert_eq!(edit.replacement, "\"random\\\"str\\\"ing\"");
    assert_eq!(edit.target, TextRange { start: 10, end: 29 });
    let mixed = token(TokenKind::RawStr, "r#\"a\\\"b\n\"#");
    assert_eq!(replacement(remove_hash(&mixed)), Some("\"a\\\\\\\"b\\n\"".to_string()));
    let lone = token(TokenKind::RawStr, "r#\"\"\"#");
    assert_eq!(replacement(remove_hash(&lone)), Some("\"\\\"\"".to_string()));
}

#[test]
fn remove_hash_leaves_a_literal_that_denotes_the_payload() {
    for text in ["r#\"random\"str\"ing\"#", "r#\"a\\\"b\n\"#", "r#\"\"\"#", "r#\"it's \"so\"\"#"] {
        let inside = payload_of(text).unwrap();
        let plain = replacement(remove_hash(&token(TokenKind::RawStr, text))).unwrap();
        assert!(plain.starts_with('"') && plain.ends_with('"'));
        assert_eq!(try_unescape(payload_of(&plain).unwrap()), Some(inside.to_string()));
    }
    for text in ["r#\"random string\"#", "r#\"a\\b\"#", "r##\"a\"b\"##", "r###\"\"###"] {
        let raw = replacement(remove_hash(&token(TokenKind::RawStr, text))).unwrap();
        assert!(raw.starts_with('r'));
        assert_eq!(fence_width(&raw) + 1, fence_width(text));
        assert_eq!(payload_of(&raw), payload_of(text));
    }
}

#[test]
fn remove_hash_declines_without_a_hash_on_both_sides() {
    assert_eq!(remove_hash(&token(TokenKind::RawStr, "r\"random string\"")), None);
    assert_eq!(remove_hash(&token(TokenKind::RawStr, "r#\"random string\"")), None);
    assert_eq!(remove_hash(&token(TokenKind::RawStr, "x#\"random string\"#")), None);
    assert_eq!(remove_hash(&token(TokenKind::RawStr, "r#\"random string")), None);
    assert_eq!(remove_hash(&token(TokenKind::RawStr, "r#")), None);
    assert_eq!(remove_hash(&token(TokenKind::Str, "r#\"random string\"#")), None);
    assert_eq!(remove_hash(&token(TokenKind::Other, "r#\"random string\"#")), None);
}

#[test]
fn nothing_applies_to_a_lone_quote() {
    for kind in [TokenKind::Str, TokenKind::RawStr, TokenKind::Other] {
        for text in ["\"", "r\"", "r#\"", "\"foo", "r#\"bar\n", "r#\"bar#"] {
            let partial = token(kind, text);
            assert_eq!(find_usual_string_range(text), None);
            assert_eq!(make_raw_string(&partial), None);
            assert_eq!(make_usual_string(&partial), None);
            assert_eq!(add_hash(&partial), None);
            assert_eq!(remove_hash(&partial), None);
        }
    }
}

#[test]
fn raw_and_back_denotes_the_same() {
    for text in ["\"random\\nstring\"", "\"\"", "\"#random\\\"##\\nstring\"", "\"\\u{2764}\\x41\\\\\"",
        "\"it's\"", "\"tab\\there\""]
    {
        let range = find_usual_string_range(text).unwrap();
        let denoted = try_unescape(&text[range.start..range.end]).unwrap();
        let raw = replacement(make_raw_string(&token(TokenKind::Str, text))).unwrap();
        let inside = find_usual_string_range(&raw).unwrap();
        assert_eq!(&raw[inside.start..inside.end], denoted);
        let back = replacement(make_usual_string(&token(TokenKind::RawStr, &raw))).unwrap();
        assert_eq!(back, format!("\"{}\"", escape_default(&denoted)));
        let again = find_usual_string_range(&back).unwrap();
        assert_eq!(try_unescape(&back[again.start..again.end]), Some(denoted));
    }
}

#[test]
fn grow_then_shrink_gives_the_text_back() {
    for text in ["r#\"random string\"#", "r##\"a\"#b\"##", "r#\"a\\b\n\"#", "r\"random string\"",
        "r\"a\\b\n'\u{e9}\"", "r\"\"", "r###\"\"###"]
    {
        let grown = replacement(add_hash(&token(TokenKind::RawStr, text))).unwrap();
        assert_eq!(fence_width(&grown), fence_width(text) + 1);
        assert_eq!(payload_of(&grown), payload_of(text));
        let shrunk = replacement(remove_hash(&token(TokenKind::RawStr, &grown))).unwrap();
        assert_eq!(shrunk, text);
    }
}

#[test]
fn grow_then_shrink_turns_plain_where_no_fence_guarded_a_quote() {
    let grown = replacement(add_hash(&token(TokenKind::RawStr, "r\"a\"b\""))).unwrap();
    assert_eq!(grown, "r#\"a\"b\"#");
    let shrunk = replacement(remove_hash(&token(TokenKind::RawStr, &grown))).unwrap();
    assert_eq!(shrunk, "\"a\\\"b\"");
}

#[test]
fn chosen_fence_is_the_narrowest_that_is_safe() {
    for content in ["abc", "###", "\"#abc", "#ab\"##c", "#ab\"##\"####c", "\"", "a\"b", "\"#\"##\"###"] {
        let literal = raw_string_literal(content);
        let width = fence_width(&literal);
        assert_eq!(width, count_hashes(content) + 1);
        assert!(!content.contains(&fence(width)));
        assert!(!content.contains(&fence(width + 1)));
        for narrower in 1..width {
            assert!(content.contains(&fence(narrower)));
        }
        assert_eq!(content.contains(&fence(0)), content.contains('"'));
    }
}
