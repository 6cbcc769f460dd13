use diffutils::cmp::params_cmp::ParamsCmp;
use diffutils::cmp::params_cmp_def::{
    opt_bytes_limit, opt_ignore_initial, opt_verbose, ParamsCmpError, ParamsCmpOk,
};
use diffutils::executable::Executable;
use diffutils::params_gen::{opt_version, OptionNameTypeUsed, ParamsGenParseError, ParsedOption};

const TEXT_HELP_HINT: &str = "Try 'cmp --help' for more information.";

fn os(s: &str) -> String {
    s.to_string()
}

/// Simplify call of parser, just pass a normal string like in the Terminal.
fn parse(args: &str) -> Result<ParamsCmpOk, ParamsCmpError> {
    let mut o = Vec::new();
    for arg in args.split(' ') {
        o.push(os(arg));
    }
    ParamsCmp::parse_params(&o)
}

fn res_ok(params: ParamsCmp) -> Result<ParamsCmpOk, ParamsCmpError> {
    Ok(ParamsCmpOk::ParamsCmp(params))
}

fn error_text(r: Result<ParamsCmpOk, ParamsCmpError>) -> String {
    match r {
        Ok(_) => panic!("Should not be Ok."),
        Err(e) => e.message(),
    }
}

#[test]
fn params_cmp_positional() {
    // file_1 and file_2 given
    assert_eq!(
        parse("cmp foo bar"),
        res_ok(ParamsCmp {
            util: Executable::Cmp,
            from: os("foo"),
            to: os("bar"),
            ..Default::default()
        }),
    );

    // file_1 only
    assert_eq!(
        parse("cmp foo"),
        res_ok(ParamsCmp {
            util: Executable::Cmp,
            from: os("foo"),
            to: os("-"),
            ..Default::default()
        }),
    );

    // double dash without operand
    assert_eq!(
        parse("sdiff foo -- --help"),
        res_ok(ParamsCmp {
            util: Executable::SDiff,
            from: os("foo"),
            to: os("--help"),
            ..Default::default()
        }),
    );

    // --ignore-initial for file_1 as operand
    assert_eq!(
        parse("cmp foo bar 1"),
        res_ok(ParamsCmp {
            util: Executable::Cmp,
            from: os("foo"),
            to: os("bar"),
            ignore_initial_bytes_from: Some(1),
            ignore_initial_bytes_to: None,
            ..Default::default()
        }),
    );

    // Failure: --ignore-initial as operands with 1 2Y (which is greater than u64)
    assert_eq!(
        parse("cmp foo bar 1 2Y"),
        Err(ParamsCmpError::BytesInvalidUnit(ParsedOption {
            app_option: opt_ignore_initial(),
            arg_for_option: Some("2Y".to_string()),
            name_type_used: OptionNameTypeUsed::LongName
        })),
    );

    // Err: too many operands
    assert_eq!(
        parse("cmp foo bar 1 2 3"),
        Err(ParamsCmpError::ExtraOperand("3".to_string())),
    );

    // Err: no arguments
    assert_eq!(
        parse("cmp"),
        Err(ParamsCmpError::ArgParserError(ParamsGenParseError::NoOperand))
    );
}

#[test]
fn params_cmp_execution_modes() {
    // --print-bytes
    let print_bytes = ParamsCmp {
        util: Executable::Cmp,
        from: os("foo"),
        to: os("bar"),
        print_bytes: true,
        ..Default::default()
    };
    assert_eq!(parse("cmp -b foo bar"), res_ok(print_bytes.clone()));
    assert_eq!(
        parse("cmp --print-bytes foo bar"),
        res_ok(print_bytes.clone())
    );
    assert_eq!(parse("cmp --pr foo bar"), res_ok(print_bytes));

    // --verbose
    let verbose = ParamsCmp {
        util: Executable::Cmp,
        from: os("foo"),
        to: os("bar"),
        verbose: true,
        ..Default::default()
    };
    assert_eq!(parse("cmp -l foo bar"), res_ok(verbose.clone()));
    assert_eq!(parse("cmp --verbose foo bar"), res_ok(verbose.clone()));
    assert_eq!(parse("cmp --verb foo bar"), res_ok(verbose.clone()));

    // --ver ambiguous
    assert_eq!(
        parse("cmp --ver foo bar"),
        Err(ParamsCmpError::ArgParserError(
            ParamsGenParseError::AmbiguousOption(
                "--ver".to_string(),
                vec![opt_verbose(), opt_version()]
            )
        )),
    );
    assert!(error_text(parse("cmp --ver foo bar"))
        .contains("cmp: option '--ver' is ambiguous; possibilities: '--verbose' '--version'"));

    // --verbose & --print-bytes
    let verbose_and_print_bytes = ParamsCmp {
        util: Executable::Cmp,
        from: os("foo"),
        to: os("bar"),
        print_bytes: true,
        verbose: true,
        ..Default::default()
    };
    assert_eq!(
        parse("cmp -l -b foo bar"),
        res_ok(verbose_and_print_bytes.clone())
    );
    assert_eq!(
        parse("cmp -lb foo bar"),
        res_ok(verbose_and_print_bytes.clone())
    );
    assert_eq!(
        parse("cmp -bl foo bar"),
        res_ok(verbose_and_print_bytes.clone())
    );
    assert_eq!(
        parse("cmp --verbose --print-bytes foo bar"),
        res_ok(verbose_and_print_bytes.clone())
    );
    assert_eq!(
        parse("cmp --verb --p foo bar"),
        res_ok(verbose_and_print_bytes.clone())
    );

    // --silent --quiet
    let silent = ParamsCmp {
        util: Executable::Cmp,
        from: os("foo"),
        to: os("bar"),
        silent: true,
        ..Default::default()
    };
    assert_eq!(parse("cmp -s foo bar"), res_ok(silent.clone()));
    assert_eq!(parse("cmp --silent foo bar"), res_ok(silent.clone()));
    assert_eq!(parse("cmp --quiet foo bar"), res_ok(silent.clone()));

    // Some options do not mix.
    assert_eq!(
        parse("cmp -l -s foo bar"),
        Err(ParamsCmpError::SilentVerboseIncompatible),
    );
    assert_eq!(
        parse("cmp -b -s foo bar"),
        Err(ParamsCmpError::SilentPrintBytesIncompatible),
    );
}

#[test]
fn params_cmp_bytes_limit() {
    let mut bytes_limit = ParamsCmp {
        util: Executable::Cmp,
        from: os("foo"),
        to: os("bar"),
        bytes_limit: Some(1000),
        ..Default::default()
    };
    assert_eq!(parse("cmp -n 1000 foo bar"), res_ok(bytes_limit.clone()));
    assert_eq!(parse("cmp -n1000 foo bar"), res_ok(bytes_limit.clone()));
    assert_eq!(parse("cmp -n 1kB foo bar"), res_ok(bytes_limit.clone()));
    assert_eq!(parse("cmp -n 1KB foo bar"), res_ok(bytes_limit.clone()));

    bytes_limit.bytes_limit = Some(1024);
    assert_eq!(parse("cmp -n 1024 foo bar"), res_ok(bytes_limit.clone()));
    assert_eq!(parse("cmp -n 1k foo bar"), res_ok(bytes_limit.clone()));
    assert_eq!(parse("cmp -n 1K foo bar"), res_ok(bytes_limit.clone()));
    assert_eq!(parse("cmp -n 1KiB foo bar"), res_ok(bytes_limit.clone()));
    assert_eq!(parse("cmp -n 1kiB foo bar"), res_ok(bytes_limit.clone()));
    assert_eq!(parse("cmp -n1024 foo bar"), res_ok(bytes_limit.clone()));
    assert_eq!(parse("cmp -n1k foo bar"), res_ok(bytes_limit.clone()));
    assert_eq!(parse("cmp -n1K foo bar"), res_ok(bytes_limit.clone()));
    assert_eq!(
        parse("cmp --bytes=1024 foo bar"),
        res_ok(bytes_limit.clone())
    );
    assert_eq!(parse("cmp --bytes=1K foo bar"), res_ok(bytes_limit.clone()));
    assert_eq!(
        parse("cmp --bytes 1024 foo bar"),
        res_ok(bytes_limit.clone())
    );
    assert_eq!(parse("cmp --bytes 1K foo bar"), res_ok(bytes_limit.clone()));
    bytes_limit.print_bytes = true;
    bytes_limit.verbose = true;
    assert_eq!(parse("cmp -bln1kiB foo bar"), res_ok(bytes_limit.clone()));
    bytes_limit.print_bytes = false;
    bytes_limit.verbose = false;

    bytes_limit.bytes_limit = Some(1_000_000);
    assert_eq!(parse("cmp -n 1MB foo bar"), res_ok(bytes_limit.clone()));
    bytes_limit.bytes_limit = Some(1_048_576);
    assert_eq!(parse("cmp -n 1M foo bar"), res_ok(bytes_limit.clone()));
    assert_eq!(parse("cmp -n 1MiB foo bar"), res_ok(bytes_limit.clone()));
    bytes_limit.bytes_limit = Some(1_000_000_000);
    assert_eq!(parse("cmp -n 1GB foo bar"), res_ok(bytes_limit.clone()));
    bytes_limit.bytes_limit = Some(1_073_741_824);
    assert_eq!(parse("cmp -n 1G foo bar"), res_ok(bytes_limit.clone()));
    assert_eq!(parse("cmp -n 1GiB foo bar"), res_ok(bytes_limit.clone()));
    bytes_limit.bytes_limit = Some(1_000_000_000_000);
    assert_eq!(parse("cmp -n 1TB foo bar"), res_ok(bytes_limit.clone()));
    bytes_limit.bytes_limit = Some(1_099_511_627_776);
    assert_eq!(parse("cmp -n 1T foo bar"), res_ok(bytes_limit.clone()));
    assert_eq!(parse("cmp -n 1TiB foo bar"), res_ok(bytes_limit.clone()));
    bytes_limit.bytes_limit = Some(1_000_000_000_000_000);
    assert_eq!(parse("cmp -n 1PB foo bar"), res_ok(bytes_limit.clone()));
    bytes_limit.bytes_limit = Some(1_125_899_906_842_624);
    assert_eq!(parse("cmp -n 1P foo bar"), res_ok(bytes_limit.clone()));
    assert_eq!(parse("cmp -n 1PiB foo bar"), res_ok(bytes_limit.clone()));
    bytes_limit.bytes_limit = Some(1_000_000_000_000_000_000);
    assert_eq!(parse("cmp -n 1EB foo bar"), res_ok(bytes_limit.clone()));
    bytes_limit.bytes_limit = Some(1_152_921_504_606_846_976);
    assert_eq!(parse("cmp -n 1E foo bar"), res_ok(bytes_limit.clone()));
    assert_eq!(parse("cmp -n 1EiB foo bar"), res_ok(bytes_limit.clone()));

    // Failure cases
    assert_eq!(
        parse("cmp -n 1ZB foo bar"),
        Err(ParamsCmpError::BytesInvalidUnit(ParsedOption::new(
            opt_bytes_limit(),
            "1ZB".to_string(),
            OptionNameTypeUsed::ShortName
        )))
    );
    assert_eq!(
        error_text(parse("cmp -n 1ZB foo bar")),
        format!("cmp: invalid '--bytes' value '1ZB'\ncmp: {TEXT_HELP_HINT}")
    );

    assert_eq!(
        parse("cmp -n 99999999999999999999999999999999999999999999999999999999999 foo bar"),
        Err(ParamsCmpError::BytesPosOverflow(ParsedOption::new(
            opt_bytes_limit(),
            "99999999999999999999999999999999999999999999999999999999999".to_string(),
            OptionNameTypeUsed::ShortName
        )))
    );
}

#[test]
fn params_cmp_ignore_initial() {
    let mut skips = ParamsCmp {
        util: Executable::Cmp,
        from: os("foo"),
        to: os("bar"),
        ignore_initial_bytes_from: Some(1),
        ignore_initial_bytes_to: Some(1),
        ..Default::default()
    };
    assert_eq!(parse("cmp -i 1 foo bar"), res_ok(skips.clone()));
    assert_eq!(
        parse("cmp --ignore-initial 1 foo bar"),
        res_ok(skips.clone())
    );
    assert_eq!(parse("cmp --ig 1 foo bar"), res_ok(skips.clone()));

    // 2nd value different
    skips.ignore_initial_bytes_to = Some(2);
    assert_eq!(
        parse("cmp --ignore-initial=1:2 foo bar"),
        res_ok(skips.clone())
    );

    // Ignores positional arguments when -i is provided.
    assert_eq!(
        parse("cmp --ignore-initial=1:2 foo bar 3 4"),
        res_ok(skips.clone())
    );

    // large numbers
    skips.ignore_initial_bytes_from = Some(1_000_000_000);
    skips.ignore_initial_bytes_to = Some(2 * 1_152_921_504_606_846_976);
    assert_eq!(
        parse("cmp --ignore-initial=1GB:2E foo bar"),
        res_ok(skips.clone())
    );

    // Failure cases
    // Number too large
    assert_eq!(
        error_text(parse(
            "cmp -i 99999999999999999999999999999999999999999999999999999999999 foo bar"
        )),
        format!("cmp: invalid '--ignore-initial' value (too large) '99999999999999999999999999999999999999999999999999999999999'\ncmp: {TEXT_HELP_HINT}")
    );

    // wrong unit
    assert_eq!(
        error_text(parse("cmp --ignore-initial=1mb foo bar")),
        format!("cmp: invalid '--ignore-initial' value '1mb'\ncmp: {TEXT_HELP_HINT}")
    );

    // wrong unit
    assert_eq!(
        error_text(parse("cmp --ignore-initial=1jb foo bar")),
        format!("cmp: invalid '--ignore-initial' value '1jb'\ncmp: {TEXT_HELP_HINT}")
    );

    // too many values
    assert_eq!(
        error_text(parse("cmp --ignore-initial=1:2:3 foo bar")),
        format!("cmp: invalid '--ignore-initial' value '2:3'\ncmp: {TEXT_HELP_HINT}")
    );

    // negative value
    assert_eq!(
        error_text(parse("cmp --ignore-initial=-1 foo bar")),
        format!("cmp: invalid '--ignore-initial' value '-1'\ncmp: {TEXT_HELP_HINT}")
    );

    // All special suffixes for ignore-initial.
    for (i, suffixes) in [
        ["kB", "K"],
        ["MB", "M"],
        ["GB", "G"],
        ["TB", "T"],
        ["PB", "P"],
        ["EB", "E"],
    ]
    .iter()
    .enumerate()
    {
        let values = [
            (1_000 as u64)
                .checked_pow((i + 1) as u32)
                .expect(&format!("number too large for suffix {:?}", suffixes)),
            (1024 as u64)
                .checked_pow((i + 1) as u32)
                .expect(&format!("number too large for suffix {:?}", suffixes)),
        ];
        for (j, v) in values.iter().enumerate() {
            assert_eq!(
                parse(&format!("cmp -i 1{}:2 foo bar", suffixes[j])),
                res_ok(ParamsCmp {
                    util: Executable::Cmp,
                    from: os("foo"),
                    to: os("bar"),
                    ignore_initial_bytes_from: Some(*v),
                    ignore_initial_bytes_to: Some(2),
                    ..Default::default()
                }),
            );
        }
    }
}

#[test]
fn params_cmp_double_dash_ends_options() {
    assert_eq!(
        parse("cmp foo -- -x"),
        res_ok(ParamsCmp {
            util: Executable::Cmp,
            from: os("foo"),
            to: os("-x"),
            ..Default::default()
        }),
    );
    assert_eq!(
        parse("cmp -- -l foo"),
        res_ok(ParamsCmp {
            util: Executable::Cmp,
            from: os("-l"),
            to: os("foo"),
            ..Default::default()
        }),
    );
}
