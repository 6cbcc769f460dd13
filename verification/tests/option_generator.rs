use diffutils::option_generator::{parse_to_app_options, AppOption};

fn opt(long: &str, short: Option<char>, has_arg: bool) -> AppOption {
    AppOption {
        option: String::new(),
        long_name: long.to_string(),
        short,
        has_arg,
        line: String::new(),
    }
}

#[test]
fn option_names() {
    let o = opt("ignore-Initial", Some('i'), true);
    assert_eq!(o.option_name_snake_case(), "ignore_initial");
    assert_eq!(o.option_const_name(), "OPT_IGNORE_INITIAL");
}

#[test]
fn capitalized_words() {
    let mut s = "print-bytes and more".to_string();
    AppOption::capitalize_words(&mut s);
    assert_eq!(s, "PrintBytes And More");
    let mut s = String::new();
    AppOption::capitalize_words(&mut s);
    assert_eq!(s, "");
}

#[test]
fn option_text() {
    let mut o = opt("bytes", Some('n'), true);
    o.option = o.option_const_name();
    assert_eq!(
        o.text(),
        "pub const OPT_BYTES: AppOption = AppOption {\n    long_name: \"bytes\",\n    short: Some('n'),\n    has_arg: true,\n};"
    );
    let mut o = opt("help", None, false);
    o.option = o.option_const_name();
    assert_eq!(
        o.text(),
        "pub const OPT_HELP: AppOption = AppOption {\n    long_name: \"help\",\n    short: None,\n    has_arg: false,\n};"
    );
}

#[test]
fn generated_options() {
    let lines: Vec<String> = vec![
        "Usage: cmp [OPTION]... FILE1 [FILE2]".to_string(),
        "  -n, --bytes=LIMIT          compare at most LIMIT bytes".to_string(),
        "  -b, --print-bytes          print differing bytes".to_string(),
        "      --help                 display this help and exit".to_string(),
        "  -x                         no long name".to_string(),
    ];
    let out = parse_to_app_options(&lines);
    let expected = "// ".to_string()
        + &lines[1]
        + "\n// "
        + &lines[2]
        + "\n// "
        + &lines[3]
        + "\n// "
        + &lines[4]
        + "\n*** ERROR parsing in line 4: no --long_name found for option 'x'!\n"
        + "pub const OPT_BYTES: AppOption = AppOption {\n    long_name: \"bytes\",\n    short: Some('n'),\n    has_arg: true,\n};\n"
        + "pub const OPT_PRINT_BYTES: AppOption = AppOption {\n    long_name: \"print-bytes\",\n    short: Some('b'),\n    has_arg: false,\n};\n"
        + "\n// Array for ArgParser\n"
        + "pub const APP_OPTIONS: [AppOption; 3] = [\n"
        + "OPT_BYTES,\nOPT_HELP,\nOPT_PRINT_BYTES,\n];\n";
    assert!(out.starts_with(&expected), "{out}");
    assert!(out.contains("    /// -n, --bytes=LIMIT          compare at most LIMIT bytes\n    pub bytes: Option<String>,\n"));
    assert!(out.contains("    pub print_bytes: bool,\n"));
    assert!(out.contains("            OPT_HELP => return Ok(ParamsXxxOk::Info(ArgParser::add_copyright(TEXT_HELP))), \n"));
    assert!(out.contains("            OPT_BYTES => params.bytes = parsed_option.arg_for_option.clone(), \n"));
    assert!(out.contains("            OPT_PRINT_BYTES => params.print_bytes = true, \n"));
    assert!(out.ends_with("        }\n    }\n}\n}\n"));
}
