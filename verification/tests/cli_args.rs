use ednq::cli::Args;

fn argv(parts: &[&str]) -> Vec<String> {
    parts.iter().map(|p| p.to_string()).collect()
}

#[test]
fn test_basic_args() {
    let args = Args::try_parse_from(&argv(&["eq", "."])).unwrap();
    assert_eq!(args.filter, ".");
    assert!(args.files.is_empty());
    assert!(!args.compact);
}

#[test]
fn test_file_args() {
    let args = Args::try_parse_from(&argv(&["eq", "(first)", "test.edn"])).unwrap();
    assert_eq!(args.filter, "(first)");
    assert_eq!(args.files.len(), 1);
    assert_eq!(args.files[0], "test.edn");
}

#[test]
fn test_flags() {
    let args = Args::try_parse_from(&argv(&["eq", "-c", "-r", "--tab", "."])).unwrap();
    assert!(args.compact);
    assert!(args.raw_output);
    assert!(args.tab);
}

#[test]
fn test_with_filename_flag() {
    let args = Args::try_parse_from(&argv(&["eq", "-H", ".", "file1.edn"])).unwrap();
    assert!(args.with_filename);

    let args = Args::try_parse_from(&argv(&["eq", "--with-filename", ".", "file1.edn"])).unwrap();
    assert!(args.with_filename);
}

#[test]
fn unknown_flags_and_missing_filters_are_rejected() {
    assert!(Args::try_parse_from(&argv(&["eq", "--no-such-flag", "."])).is_err());
    assert!(Args::try_parse_from(&argv(&["eq"])).is_err());
    assert!(Args::try_parse_from(&argv(&["eq", ".", "-f"])).is_err());
    let args = Args::try_parse_from(&argv(&["eq", "--indent", "4", "."])).unwrap();
    assert_eq!(args.indent, 4);
    assert_eq!(args.filter, ".");
}
