use omnimind_core::json::{parse_flat_object, Scalar};
use omnimind_core::classifier::parse_classification;
use omnimind_core::text::{decimal, fraction, trim, lower, tokens};

#[test]
fn flat_object_members_come_back_in_order() {
    let ms = parse_flat_object("{\"a\": \"x\", \"b\": 0.5}").expect("well-formed");
    assert_eq!(ms.len(), 2);
    assert_eq!(ms[0].0, "a");
    assert_eq!(ms[0].1, Scalar::Text(String::from("x")));
    assert_eq!(ms[1].0, "b");
    assert_eq!(ms[1].1, Scalar::Frac(500));
}

#[test]
fn string_escapes_are_decoded() {
    let ms = parse_flat_object("{\"k\": \"a\\\"b\\\\c\\n\\t\\u0041\\u00e9\"}")
        .expect("well-formed");
    assert_eq!(ms[0].1, Scalar::Text(String::from("a\"b\\c\n\tA\u{e9}")));
}

#[test]
fn surrogate_escapes_are_rejected() {
    assert!(parse_flat_object("{\"k\": \"\\ud834\"}").is_none());
}

#[test]
fn numbers_are_read_as_clamped_thousandths() {
    let cases = [
        ("1", 1000u32),
        ("0", 0),
        ("0.9", 900),
        ("0.95", 950),
        ("0.957", 957),
        ("0.9999", 999),
        ("2.5", 1000),
        ("-0.7", 0),
    ];
    for (lit, milli) in cases {
        let line = format!("{{\"k\": {}}}", lit);
        let ms = parse_flat_object(&line).expect("well-formed");
        assert_eq!(ms[0].1, Scalar::Frac(milli), "literal {}", lit);
    }
}

#[test]
fn number_shape_is_strict() {
    for bad in ["{\"k\": 01}", "{\"k\": .5}", "{\"k\": 1.}", "{\"k\": 1e3}"] {
        assert!(parse_flat_object(bad).is_none(), "accepted {}", bad);
    }
}

#[test]
fn only_flat_objects_are_accepted() {
    assert!(parse_flat_object("not json at all").is_none());
    assert!(parse_flat_object("{\"k\": {\"nested\": 1}}").is_none());
    assert!(parse_flat_object("{\"k\": [1, 2]}").is_none());
    assert!(parse_flat_object("{\"k\": 1} trailing").is_none());
    assert!(parse_flat_object("{\"k\" 1}").is_none());
}

#[test]
fn empty_object_parses_to_no_members() {
    let ms = parse_flat_object(" { } ").expect("well-formed");
    assert!(ms.is_empty());
}

#[test]
fn classification_reads_all_five_fields() {
    let line = "{\"original_text\": \"do it\", \"intent\": \"echo\", \"predicted_label\": \"echo_cmd\", \"confidence\": 0.75, \"arguments_text\": \"it\"}\n";
    let c = parse_classification(line).expect("well-formed reply");
    assert_eq!(c.original_text, "do it");
    assert_eq!(c.intent, "echo");
    assert_eq!(c.predicted_label, "echo_cmd");
    assert_eq!(c.confidence, 750);
    assert_eq!(c.arguments_text, "it");
}

#[test]
fn classification_rejects_missing_or_mistyped_fields() {
    // missing arguments_text
    assert!(parse_classification(
        "{\"original_text\": \"x\", \"intent\": \"echo\", \"predicted_label\": \"e\", \"confidence\": 0.9}"
    )
    .is_none());
    // confidence as a string
    assert!(parse_classification(
        "{\"original_text\": \"x\", \"intent\": \"echo\", \"predicted_label\": \"e\", \"confidence\": \"0.9\", \"arguments_text\": \"\"}"
    )
    .is_none());
    // duplicate field
    assert!(parse_classification(
        "{\"original_text\": \"x\", \"intent\": \"echo\", \"intent\": \"help\", \"predicted_label\": \"e\", \"confidence\": 0.9, \"arguments_text\": \"\"}"
    )
    .is_none());
}

#[test]
fn decimal_renders_exactly() {
    assert_eq!(decimal(0), "0");
    assert_eq!(decimal(7), "7");
    assert_eq!(decimal(404), "404");
    assert_eq!(decimal(65535), "65535");
}

#[test]
fn fraction_renders_thousandths() {
    assert_eq!(fraction(0), "0.000");
    assert_eq!(fraction(900), "0.900");
    assert_eq!(fraction(957), "0.957");
    assert_eq!(fraction(1000), "1.000");
}

#[test]
fn trim_lower_and_tokens_behave() {
    assert_eq!(trim("  a b  "), "a b");
    assert_eq!(trim("\t\n"), "");
    assert_eq!(lower("AbC-1"), "abc-1");
    let ts = tokens("  echo  hello   world ");
    assert_eq!(ts, vec!["echo", "hello", "world"]);
}

#[test]
fn whitespace_is_unicode_white_space() {
    // no-break space and ideographic space separate tokens, as
    // `str::split_whitespace` would have it
    let ts = tokens("echo\u{A0}hello\u{3000}world");
    assert_eq!(ts, vec!["echo", "hello", "world"]);
    assert_eq!(trim("\u{2009}a\u{2028}"), "a");
}
