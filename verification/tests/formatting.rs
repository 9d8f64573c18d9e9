use ednq::EdnValue;
use ednq::output::OutputConfig;
use ednq::formatter::format_output;
use ednq::primitives::{escape_string, format_character};

fn kw(s: &str) -> EdnValue {
    EdnValue::Keyword(s.to_string())
}

fn s(text: &str) -> EdnValue {
    EdnValue::String(text.to_string())
}

fn num(i: i64) -> EdnValue {
    EdnValue::Integer(i)
}

#[test]
fn test_escape_strings() {
    assert_eq!(escape_string("hello\nworld"), "hello\\nworld");
    assert_eq!(escape_string("quote\"test"), "quote\\\"test");
    assert_eq!(escape_string("backslash\\test"), "backslash\\\\test");
}

#[test]
fn test_character_formatting() {
    assert_eq!(format_character('a'), "\\a");
    assert_eq!(format_character('\n'), "\\newline");
    assert_eq!(format_character('\t'), "\\tab");
    assert_eq!(format_character(' '), "\\space");
}

#[test]
fn test_format_primitives() {
    let config = OutputConfig::default();

    assert_eq!(format_output(&EdnValue::Nil, &config), "nil");
    assert_eq!(format_output(&EdnValue::Bool(true), &config), "true");
    assert_eq!(format_output(&num(42), &config), "42");
    let f = EdnValue::Float { bits: 3.14f64.to_bits(), text: 3.14f64.to_string() };
    assert_eq!(format_output(&f, &config), "3.14");
    assert_eq!(format_output(&s("hello"), &config), "\"hello\"");
    assert_eq!(format_output(&kw("key"), &config), ":key");
    assert_eq!(format_output(&EdnValue::Character('a'), &config), "\\a");
    assert_eq!(format_output(&EdnValue::Character('\n'), &config), "\\newline");
}

#[test]
fn test_format_collections() {
    let config = OutputConfig::default();

    // a simple vector stays inline
    let vec = EdnValue::Vector(vec![num(1), num(2), num(3)]);
    assert_eq!(format_output(&vec, &config), "[1 2 3]");

    // a simple map stays inline
    let map_val = EdnValue::MapV(vec![(kw("name"), s("Alice"))]);
    assert_eq!(format_output(&map_val, &config), "{:name \"Alice\"}");
}

#[test]
fn test_compact_format() {
    let config = OutputConfig { compact: true, ..OutputConfig::default() };

    let nested = EdnValue::Vector(vec![EdnValue::MapV(vec![
        (kw("a"), num(1)),
        (kw("b"), EdnValue::Vector(vec![num(2), num(3)])),
    ])]);

    let result = format_output(&nested, &config);
    assert!(!result.contains('\n'));
    assert!(result.contains("{:a 1 :b [2 3]}"));
}

#[test]
fn test_pretty_format() {
    let config = OutputConfig::default();

    // large enough to spill onto several lines
    let large_vec = EdnValue::Vector(vec![
        s("item1"),
        s("item2"),
        s("item3"),
        s("item4"),
        s("item5"),
    ]);

    let result = format_output(&large_vec, &config);
    assert!(result.contains('\n'));
}

#[test]
fn test_raw_strings() {
    let mut config = OutputConfig::default();
    config.raw_strings = true;

    let string_val = s("hello world");
    assert_eq!(format_output(&string_val, &config), "hello world");

    config.raw_strings = false;
    assert_eq!(format_output(&string_val, &config), "\"hello world\"");
}

#[test]
fn test_indentation_config() {
    let mut config = OutputConfig::default();
    config.indent_size = 4;

    let nested = EdnValue::Vector(vec![
        EdnValue::Vector(vec![num(1)]),
        EdnValue::Vector(vec![num(2)]),
        EdnValue::Vector(vec![num(3)]),
        EdnValue::Vector(vec![num(4)]),
        EdnValue::Vector(vec![num(5)]),
    ]);

    let result = format_output(&nested, &config);
    assert!(result.lines().any(|line| line.starts_with("    ")));
}

#[test]
fn test_set_formatting() {
    let set_val = EdnValue::SetV(vec![num(3), num(1), num(2)]);
    let config = OutputConfig::default();
    let result = format_output(&set_val, &config);

    assert!(result.starts_with("#{"));
    assert!(result.ends_with("}"));
    assert!(result.contains("1"));
    assert!(result.contains("2"));
    assert!(result.contains("3"));
}

#[test]
fn test_tagged_values() {
    let config = OutputConfig::default();
    let tagged = EdnValue::Tagged {
        tag: "inst".to_string(),
        value: Box::new(s("2023-01-01")),
    };

    assert_eq!(format_output(&tagged, &config), "#inst \"2023-01-01\"");
}

#[test]
fn negative_integers_render_with_a_sign() {
    let config = OutputConfig::default();
    assert_eq!(format_output(&num(-7), &config), "-7");
    assert_eq!(format_output(&num(i64::MIN), &config), i64::MIN.to_string());
    assert_eq!(format_output(&num(0), &config), "0");
}

#[test]
fn error_text_carries_its_details() {
    let q = ednq::error::EqError::query_error("bad shape");
    assert_eq!(q.describe(), "Query error: bad shape");
    let t = ednq::error::EqError::type_error("integer", "keyword");
    assert_eq!(t.describe(), "Type error: expected integer, got keyword");
}
