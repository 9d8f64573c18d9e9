use ednq::EdnValue;

fn kw(s: &str) -> EdnValue {
    EdnValue::Keyword(s.to_string())
}

fn s(text: &str) -> EdnValue {
    EdnValue::String(text.to_string())
}

fn num(i: i64) -> EdnValue {
    EdnValue::Integer(i)
}

#[test]
fn test_type_names() {
    assert_eq!(EdnValue::Nil.kind_name(), "nil");
    assert_eq!(EdnValue::Bool(true).kind_name(), "boolean");
    assert_eq!(s("test").kind_name(), "string");
    assert_eq!(kw("key").kind_name(), "keyword");
    assert_eq!(num(42).kind_name(), "integer");
}

#[test]
fn test_truthy() {
    assert!(!EdnValue::Nil.is_truthy());
    assert!(!EdnValue::Bool(false).is_truthy());
    assert!(EdnValue::Bool(true).is_truthy());
    assert!(num(0).is_truthy());
    assert!(s("").is_truthy());
}

#[test]
fn value_test_count() {
    let vec = EdnValue::Vector(vec![num(1), num(2), num(3)]);
    assert_eq!(vec.count(), Some(3));

    let map_val = EdnValue::MapV(vec![(kw("a"), num(1))]);
    assert_eq!(map_val.count(), Some(1));

    let string_val = s("hello");
    assert_eq!(string_val.count(), Some(5));

    assert_eq!(num(42).count(), None);
}

#[test]
fn test_get() {
    // Vector access
    let vec = EdnValue::Vector(vec![num(10), num(20), num(30)]);
    assert_eq!(vec.get(&num(0)), Some(&num(10)));
    assert_eq!(vec.get(&num(2)), Some(&num(30)));
    assert_eq!(vec.get(&num(-1)), Some(&num(30)));
    assert_eq!(vec.get(&num(5)), None);

    // Map access
    let map_val = EdnValue::MapV(vec![(kw("name"), s("Alice"))]);
    assert_eq!(map_val.get(&kw("name")), Some(&s("Alice")));
    assert_eq!(map_val.get(&kw("age")), None);
}

#[test]
fn test_get_in() {
    let inner = EdnValue::MapV(vec![(kw("name"), s("Bob"))]);
    let root = EdnValue::MapV(vec![(kw("user"), inner)]);

    let path = vec![kw("user"), kw("name")];

    assert_eq!(root.get_in(&path), Some(&s("Bob")));
}

#[test]
fn test_get_in_mixed_keys() {
    // A structure with mixed keyword and integer access:
    // {:skills [:clojure :rust :javascript] :profile {:scores [85 92 78]}}
    let skills_vector = EdnValue::Vector(vec![kw("clojure"), kw("rust"), kw("javascript")]);
    let scores_vector = EdnValue::Vector(vec![num(85), num(92), num(78)]);
    let profile_map = EdnValue::MapV(vec![(kw("scores"), scores_vector)]);
    let root = EdnValue::MapV(vec![(kw("skills"), skills_vector), (kw("profile"), profile_map)]);

    // Mixed path: keyword -> integer (the second skill)
    let path1 = vec![kw("skills"), num(1)];
    assert_eq!(root.get_in(&path1), Some(&kw("rust")));

    // Mixed path: keyword -> keyword -> integer (the first score)
    let path2 = vec![kw("profile"), kw("scores"), num(0)];
    assert_eq!(root.get_in(&path2), Some(&num(85)));

    // Negative index counts from the end
    let path3 = vec![kw("profile"), kw("scores"), num(-1)];
    assert_eq!(root.get_in(&path3), Some(&num(78)));

    // Invalid path
    let invalid_path = vec![kw("skills"), num(10)];
    assert_eq!(root.get_in(&invalid_path), None);
}

#[test]
fn test_display() {
    let config = ednq::output::OutputConfig {
        compact: true,
        raw_strings: false,
        use_tabs: false,
        indent_size: 2,
    };
    assert_eq!(ednq::formatter::format_output(&EdnValue::Nil, &config), "nil");
    assert_eq!(ednq::formatter::format_output(&EdnValue::Bool(true), &config), "true");
    assert_eq!(ednq::formatter::format_output(&s("hello"), &config), "\"hello\"");
    assert_eq!(ednq::formatter::format_output(&kw("key"), &config), ":key");
    assert_eq!(ednq::formatter::format_output(&num(42), &config), "42");

    let vec = EdnValue::Vector(vec![num(1), num(2)]);
    assert_eq!(ednq::formatter::format_output(&vec, &config), "[1 2]");
}

#[test]
fn float_equality_follows_the_bits() {
    // NaN is unequal to itself; the two zeroes are equal.
    let nan = EdnValue::Float { bits: f64::NAN.to_bits(), text: f64::NAN.to_string() };
    let nan2 = EdnValue::Float { bits: f64::NAN.to_bits(), text: f64::NAN.to_string() };
    assert!(!ednq::eq::value_eq(&nan, &nan2));
    let pz = EdnValue::Float { bits: 0.0f64.to_bits(), text: 0.0f64.to_string() };
    let nz = EdnValue::Float { bits: (-0.0f64).to_bits(), text: (-0.0f64).to_string() };
    assert!(ednq::eq::value_eq(&pz, &nz));
    let pi = EdnValue::Float { bits: 3.14f64.to_bits(), text: 3.14f64.to_string() };
    let pi2 = EdnValue::Float { bits: 3.14f64.to_bits(), text: 3.14f64.to_string() };
    assert!(ednq::eq::value_eq(&pi, &pi2));
}

#[test]
fn mixed_comparison_promotes_to_float() {
    // 2 < 2.5 < 3, and the comparison orders exactly as doubles do.
    let two_point_five =
        EdnValue::Float { bits: 2.5f64.to_bits(), text: 2.5f64.to_string() };
    assert_eq!(ednq::builtins::compare_values(&num(2), &two_point_five).unwrap(), -1);
    assert_eq!(ednq::builtins::compare_values(&num(3), &two_point_five).unwrap(), 1);
    let three = EdnValue::Float { bits: 3.0f64.to_bits(), text: 3.0f64.to_string() };
    assert_eq!(ednq::builtins::compare_values(&num(3), &three).unwrap(), 0);
    // A very large integer rounds to the nearest double before comparing.
    let big = (1i64 << 53) + 1;
    let big_f = EdnValue::Float { bits: (9007199254740992.0f64).to_bits(), text: String::new() };
    assert_eq!(ednq::builtins::compare_values(&num(big), &big_f).unwrap(), 0);
    // Incomparable kinds are a type error.
    assert!(ednq::builtins::compare_values(&num(1), &kw("a")).is_err());
}
