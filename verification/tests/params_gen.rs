use diffutils::cmp::params_cmp_def::{app_options, opt_bytes_limit, opt_silent};
use diffutils::params_gen::{
    opt_help, opt_version, AppOption, OptionNameTypeUsed, ParamsGen, ParamsGenParseError,
    ParseBytesError, ParsedOption,
};

fn args(s: &str) -> Vec<String> {
    s.split(' ').map(|a| a.to_string()).collect()
}

fn parse(s: &str) -> Result<ParamsGen, ParamsGenParseError> {
    let options = app_options();
    ParamsGen::parse_params(&options, &args(s))
}

#[test]
fn gen_options_and_operands() {
    let p = parse("cmp -b --bytes=10 a -n 5 b").unwrap();
    assert_eq!(p.executable, "cmp");
    assert_eq!(p.operands, vec!["a".to_string(), "b".to_string()]);
    assert_eq!(p.options_parsed.len(), 3);
    assert_eq!(
        p.options_parsed[1],
        ParsedOption::new(opt_bytes_limit(), "10".to_string(), OptionNameTypeUsed::LongName)
    );
    assert_eq!(
        p.options_parsed[2],
        ParsedOption::new(opt_bytes_limit(), "5".to_string(), OptionNameTypeUsed::ShortName)
    );
}

#[test]
fn gen_errors() {
    assert_eq!(
        parse("cmp --silent=3 a b").err(),
        Some(ParamsGenParseError::ArgForOptionNotAllowed(ParsedOption::new(
            opt_silent(),
            "3".to_string(),
            OptionNameTypeUsed::LongName
        )))
    );
    assert_eq!(
        parse("cmp a b -n").err(),
        Some(ParamsGenParseError::ArgForOptionMissing(ParsedOption::new_none(
            opt_bytes_limit(),
            OptionNameTypeUsed::ShortName
        )))
    );
    assert_eq!(
        ParamsGen::parse_params(&app_options(), &Vec::new()).err(),
        Some(ParamsGenParseError::NoExecutable)
    );
    assert_eq!(
        parse("cmp -z a b").err(),
        Some(ParamsGenParseError::InvalidOption("-z".to_string()))
    );
    assert_eq!(
        parse("cmp --foo a b").err(),
        Some(ParamsGenParseError::UnrecognizedOption("--foo".to_string()))
    );
    assert_eq!(parse("cmp -s").err(), Some(ParamsGenParseError::NoOperand));
}

#[test]
fn gen_error_messages() {
    let hint = "cmp: Try 'cmp --help' for more information.";
    assert_eq!(
        ParamsGenParseError::UnrecognizedOption("--foo".to_string()).message(),
        format!("cmp: unrecognized option '--foo'\n{hint}")
    );
    assert_eq!(
        ParamsGenParseError::NoOperand.message(),
        format!("cmp: missing operand after 'cmp'\n{hint}")
    );
    assert_eq!(
        ParamsGenParseError::NoExecutable.message(),
        "This program must be called with 'cmp' and its parameters."
    );
    assert_eq!(
        ParamsGenParseError::AmbiguousOption(
            "--ver".to_string(),
            vec![opt_help(), opt_version()]
        )
        .body("sdiff"),
        "option '--ver' is ambiguous; possibilities: '--help' '--version'"
    );
    assert_eq!(
        ParamsGenParseError::NoOperand.body("diff3"),
        "missing operand after 'diff3'"
    );
}

#[test]
fn gen_byte_values() {
    assert_eq!(ParamsGen::parse_bytes(""), Err(ParseBytesError::NoValue));
    assert_eq!(ParamsGen::parse_bytes("abc"), Err(ParseBytesError::InvalidNumber));
    assert_eq!(ParamsGen::parse_bytes("1jb"), Err(ParseBytesError::InvalidUnit));
    assert_eq!(ParamsGen::parse_bytes("1ZB"), Err(ParseBytesError::InvalidUnit));
    assert_eq!(ParamsGen::parse_bytes("16E"), Err(ParseBytesError::PosOverflow));
    assert_eq!(ParamsGen::parse_bytes("2KiB"), Ok(2048));
    assert_eq!(ParamsGen::parse_number_unit("MB"), Ok(1_000_000));
    assert_eq!(ParamsGen::parse_number_unit("X"), Err(ParseBytesError::InvalidUnit));
}

#[test]
fn gen_partial_names() {
    let options = app_options();
    let found = ParamsGen::identify_options_from_partial_text(&options, "ver");
    let names: Vec<&str> = found.iter().map(|o: &AppOption| o.long_name).collect();
    assert_eq!(names, vec!["verbose", "version"]);
    assert!(ParamsGen::identify_options_from_partial_text(&options, "x").is_empty());
}

#[test]
fn gen_double_dash_is_no_option() {
    assert!(matches!(
        parse("cmp -b a -- --help"),
        Err(ParamsGenParseError::InvalidOption(o)) if o == "--"
    ));
}
