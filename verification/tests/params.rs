use diffutils::cmp::params::{BytesType, Params, ParamsParseError, ParamsParseInfo, ParamsParseOk};

fn os(s: &str) -> String {
    s.to_string()
}

/// Simplify call of parser, just pass a normal string like in the Terminal.
fn parse(args: &str) -> Result<ParamsParseOk, ParamsParseError> {
    let mut o = Vec::new();
    for arg in args.split(' ') {
        o.push(os(arg));
    }
    Params::parse_params(&o)
}

fn res_ok(params: Params) -> Result<ParamsParseOk, ParamsParseError> {
    Ok(ParamsParseOk::Params(params))
}

fn base() -> Params {
    Params {
        executable: os("cmp"),
        file_1: os("foo"),
        file_2: os("bar"),
        ..Default::default()
    }
}

#[test]
fn params_positional() {
    // file_1 and file_2 given
    assert_eq!(parse("cmp foo bar"), res_ok(base()));

    // file_1 only
    assert_eq!(
        parse("cmp foo"),
        res_ok(Params {
            executable: os("cmp"),
            file_1: os("foo"),
            file_2: os("-"),
            ..Default::default()
        }),
    );

    // --ignore-initial for file_1 as operand
    assert_eq!(
        parse("cmp foo bar 1"),
        res_ok(Params {
            ignore_initial_bytes_file_1: Some(1),
            ignore_initial_bytes_file_2: None,
            ..base()
        }),
    );

    // Err: --ignore-initial as operands with 1 2Y (which is greater than u64)
    assert_eq!(
        parse("cmp foo bar 1 2Y"),
        Err(ParamsParseError::BytesInvalidUnit(
            "cmp".to_string(),
            BytesType::IgnoreInitial,
            "2Y".to_string()
        )),
    );

    // Err: too many operands
    assert_eq!(
        parse("cmp foo bar 1 2 3"),
        Err(ParamsParseError::ExtraOperand(
            "cmp".to_string(),
            "3".to_string()
        )),
    );

    // Err: no arguments
    assert_eq!(
        parse("cmp"),
        Err(ParamsParseError::NoOperand("cmp".to_string())),
    );
}

#[test]
fn params_execution_modes() {
    // --print-bytes
    let print_bytes = Params {
        print_bytes: true,
        ..base()
    };
    assert_eq!(parse("cmp -b foo bar"), res_ok(print_bytes.clone()));
    assert_eq!(
        parse("cmp --print-bytes foo bar"),
        res_ok(print_bytes.clone())
    );
    assert_eq!(parse("cmp --pr foo bar"), res_ok(print_bytes));

    // --verbose
    let verbose = Params {
        verbose: true,
        ..base()
    };
    assert_eq!(parse("cmp -l foo bar"), res_ok(verbose.clone()));
    assert_eq!(parse("cmp --verbose foo bar"), res_ok(verbose.clone()));
    assert_eq!(parse("cmp --verb foo bar"), res_ok(verbose.clone()));
    assert_eq!(
        parse("cmp --ver foo bar"),
        Err(ParamsParseError::AmbiguousOption(
            "cmp".to_string(),
            "--ver".to_string(),
            "'--verbose' '--version'".to_string()
        )),
    );

    // --verbose & --print-bytes
    let verbose_and_print_bytes = Params {
        print_bytes: true,
        verbose: true,
        ..base()
    };
    assert_eq!(
        parse("cmp -l -b foo bar"),
        res_ok(verbose_and_print_bytes.clone())
    );
    assert_eq!(
        parse("cmp -lb foo bar"),
        res_ok(verbose_and_print_bytes.clone())
    );
    assert_eq!(
        parse("cmp -bl foo bar"),
        res_ok(verbose_and_print_bytes.clone())
    );
    assert_eq!(
        parse("cmp --verbose --print-bytes foo bar"),
        res_ok(verbose_and_print_bytes.clone())
    );
    assert_eq!(
        parse("cmp --verb --p foo bar"),
        res_ok(verbose_and_print_bytes.clone())
    );

    // --silent --quiet
    let silent = Params {
        silent: true,
        ..base()
    };
    assert_eq!(parse("cmp -s foo bar"), res_ok(silent.clone()));
    assert_eq!(parse("cmp --silent foo bar"), res_ok(silent.clone()));
    assert_eq!(parse("cmp --quiet foo bar"), res_ok(silent.clone()));

    // Some options do not mix.
    assert_eq!(
        parse("cmp -l -s foo bar"),
        Err(ParamsParseError::SilentVerboseIncompatible(
            "cmp".to_string(),
        )),
    );
    // This does not give an error in GNU cmp, but should.
    assert_eq!(
        parse("cmp -b -s foo bar"),
        Err(ParamsParseError::SilentPrintBytesIncompatible(
            "cmp".to_string(),
        )),
    );
}

#[test]
/// These are all identical:
/// - cmp file_1 file_2 -bl -n 1024
/// - cmp file_1 file_2 -bl -n 1k
/// - cmp file_1 file_2 -bl -n 1K
/// - cmp file_1 file_2 -bl -n 1KiB
/// - cmp file_1 file_2 -bl -n 1kiB
/// - cmp file_1 file_2 -bl -n1kiB
/// - cmp file_1 file_2 -bln1kiB
fn params_bytes_limit() {
    let mut bytes_limit = Params {
        bytes_limit: Some(1000),
        ..base()
    };
    assert_eq!(parse("cmp -n 1000 foo bar"), res_ok(bytes_limit.clone()));
    assert_eq!(parse("cmp -n1000 foo bar"), res_ok(bytes_limit.clone()));
    assert_eq!(parse("cmp -n 1kB foo bar"), res_ok(bytes_limit.clone()));
    assert_eq!(parse("cmp -n 1KB foo bar"), res_ok(bytes_limit.clone()));
    assert_eq!(
        parse("cmp -n 1kb foo bar"),
        Err(ParamsParseError::BytesInvalidUnit(
            "cmp".to_string(),
            BytesType::Limit,
            "1kb".to_string(),
        )),
    );

    bytes_limit.bytes_limit = Some(1024);
    assert_eq!(parse("cmp -n 1024 foo bar"), res_ok(bytes_limit.clone()));
    assert_eq!(parse("cmp -n 1k foo bar"), res_ok(bytes_limit.clone()));
    assert_eq!(parse("cmp -n 1K foo bar"), res_ok(bytes_limit.clone()));
    assert_eq!(parse("cmp -n 1KiB foo bar"), res_ok(bytes_limit.clone()));
    assert_eq!(parse("cmp -n 1kiB foo bar"), res_ok(bytes_limit.clone()));
    assert_eq!(parse("cmp -n1024 foo bar"), res_ok(bytes_limit.clone()));
    assert_eq!(parse("cmp -n1k foo bar"), res_ok(bytes_limit.clone()));
    assert_eq!(parse("cmp -n1K foo bar"), res_ok(bytes_limit.clone()));
    assert_eq!(
        parse("cmp --bytes=1024 foo bar"),
        res_ok(bytes_limit.clone())
    );
    assert_eq!(parse("cmp --bytes=1K foo bar"), res_ok(bytes_limit.clone()));
    assert_eq!(
        parse("cmp --bytes 1024 foo bar"),
        res_ok(bytes_limit.clone())
    );
    assert_eq!(parse("cmp --bytes 1K foo bar"), res_ok(bytes_limit.clone()));
    bytes_limit.print_bytes = true;
    bytes_limit.verbose = true;
    assert_eq!(parse("cmp -bln1kiB foo bar"), res_ok(bytes_limit.clone()));
    bytes_limit.print_bytes = false;
    bytes_limit.verbose = false;

    // Test large numbers
    bytes_limit.bytes_limit = Some(1_000_000);
    assert_eq!(parse("cmp -n 1MB foo bar"), res_ok(bytes_limit.clone()));
    bytes_limit.bytes_limit = Some(1_048_576);
    assert_eq!(parse("cmp -n 1M foo bar"), res_ok(bytes_limit.clone()));
    assert_eq!(parse("cmp -n 1MiB foo bar"), res_ok(bytes_limit.clone()));
    bytes_limit.bytes_limit = Some(1_000_000_000);
    assert_eq!(parse("cmp -n 1GB foo bar"), res_ok(bytes_limit.clone()));
    bytes_limit.bytes_limit = Some(1_073_741_824);
    assert_eq!(parse("cmp -n 1G foo bar"), res_ok(bytes_limit.clone()));
    assert_eq!(parse("cmp -n 1GiB foo bar"), res_ok(bytes_limit.clone()));
    bytes_limit.bytes_limit = Some(1_000_000_000_000);
    assert_eq!(parse("cmp -n 1TB foo bar"), res_ok(bytes_limit.clone()));
    bytes_limit.bytes_limit = Some(1_099_511_627_776);
    assert_eq!(parse("cmp -n 1T foo bar"), res_ok(bytes_limit.clone()));
    assert_eq!(parse("cmp -n 1TiB foo bar"), res_ok(bytes_limit.clone()));
    bytes_limit.bytes_limit = Some(1_000_000_000_000_000);
    assert_eq!(parse("cmp -n 1PB foo bar"), res_ok(bytes_limit.clone()));
    bytes_limit.bytes_limit = Some(1_125_899_906_842_624);
    assert_eq!(parse("cmp -n 1P foo bar"), res_ok(bytes_limit.clone()));
    assert_eq!(parse("cmp -n 1PiB foo bar"), res_ok(bytes_limit.clone()));
    bytes_limit.bytes_limit = Some(1_000_000_000_000_000_000);
    assert_eq!(parse("cmp -n 1EB foo bar"), res_ok(bytes_limit.clone()));
    bytes_limit.bytes_limit = Some(1_152_921_504_606_846_976);
    assert_eq!(parse("cmp -n 1E foo bar"), res_ok(bytes_limit.clone()));
    assert_eq!(parse("cmp -n 1EiB foo bar"), res_ok(bytes_limit.clone()));

    // Error cases
    assert_eq!(
        parse("cmp -n 1ZB foo bar"),
        Err(ParamsParseError::BytesInvalidUnit(
            "cmp".to_string(),
            BytesType::Limit,
            "1ZB".to_string(),
        ))
    );
    assert_eq!(
        parse("cmp -n 99999999999999999999999999999999999999999999999999999999999 foo bar"),
        Err(ParamsParseError::BytesPosOverflow(
            "cmp".to_string(),
            BytesType::Limit,
            "99999999999999999999999999999999999999999999999999999999999".to_string(),
        ))
    );
}

#[test]
fn params_ignore_initial() {
    let mut skips = Params {
        ignore_initial_bytes_file_1: Some(1),
        ignore_initial_bytes_file_2: Some(1),
        ..base()
    };
    assert_eq!(parse("cmp -i 1 foo bar"), res_ok(skips.clone()));
    assert_eq!(
        parse("cmp --ignore-initial 1 foo bar"),
        res_ok(skips.clone())
    );
    assert_eq!(parse("cmp --ig 1 foo bar"), res_ok(skips.clone()));

    // 2nd value different
    skips.ignore_initial_bytes_file_2 = Some(2);
    assert_eq!(
        parse("cmp --ignore-initial=1:2 foo bar"),
        res_ok(skips.clone())
    );

    // Ignores positional arguments when -i is provided.
    assert_eq!(
        parse("cmp --ignore-initial=1:2 foo bar 3 4"),
        res_ok(skips.clone())
    );

    // large numbers
    skips.ignore_initial_bytes_file_1 = Some(1_000_000_000);
    skips.ignore_initial_bytes_file_2 = Some(2 * 1_152_921_504_606_846_976);
    assert_eq!(
        parse("cmp --ignore-initial=1GB:2E foo bar"),
        res_ok(skips.clone())
    );

    // Failure cases
    // Number too large
    assert_eq!(
        parse("cmp -i 99999999999999999999999999999999999999999999999999999999999 foo bar"),
        Err(ParamsParseError::BytesPosOverflow(
            "cmp".to_string(),
            BytesType::IgnoreInitial,
            "99999999999999999999999999999999999999999999999999999999999".to_string(),
        ))
    );
    // wrong unit
    assert_eq!(
        parse("cmp --ignore-initial=1mb foo bar"),
        Err(ParamsParseError::BytesInvalidUnit(
            "cmp".to_string(),
            BytesType::IgnoreInitial,
            "1mb".to_string(),
        ))
    );
    // too many values
    assert_eq!(
        parse("cmp --ignore-initial=1:2:3 foo bar"),
        Err(ParamsParseError::BytesInvalidUnit(
            "cmp".to_string(),
            BytesType::IgnoreInitial,
            "2:3".to_string(),
        ))
    );
    // negative value
    assert_eq!(
        parse("cmp --ignore-initial=-1 foo bar"),
        Err(ParamsParseError::BytesInvalidNumber(
            "cmp".to_string(),
            BytesType::IgnoreInitial,
            "-1".to_string(),
        ))
    );

    // All special suffixes.
    for (i, suffixes) in [
        ["kB", "K"],
        ["MB", "M"],
        ["GB", "G"],
        ["TB", "T"],
        ["PB", "P"],
        ["EB", "E"],
    ]
    .iter()
    .enumerate()
    {
        let values = [
            (1_000 as u64)
                .checked_pow((i + 1) as u32)
                .expect(&format!("number too large for suffix {:?}", suffixes)),
            (1024 as u64)
                .checked_pow((i + 1) as u32)
                .expect(&format!("number too large for suffix {:?}", suffixes)),
        ];
        for (j, v) in values.iter().enumerate() {
            assert_eq!(
                parse(&format!("cmp -i 1{}:2 foo bar", suffixes[j])),
                res_ok(Params {
                    ignore_initial_bytes_file_1: Some(*v),
                    ignore_initial_bytes_file_2: Some(2),
                    ..base()
                }),
            );
        }
    }
}

#[test]
fn params_skip_operands_and_option() {
    // -i with one value overrides only the first SKIP operand
    let mut p = base();
    p.ignore_initial_bytes_file_1 = Some(10);
    p.ignore_initial_bytes_file_2 = Some(20);
    assert_eq!(parse("cmp foo bar 99 20 -i10"), res_ok(p));
    // -i with both values overrides both
    let mut p = base();
    p.ignore_initial_bytes_file_1 = Some(10);
    p.ignore_initial_bytes_file_2 = Some(10);
    assert_eq!(parse("cmp foo bar 99 20 -i10:10"), res_ok(p));
    let mut p = base();
    p.ignore_initial_bytes_file_1 = Some(10);
    p.ignore_initial_bytes_file_2 = Some(10);
    assert_eq!(parse("cmp foo bar 99 -i10"), res_ok(p));
    let mut p = base();
    p.ignore_initial_bytes_file_1 = Some(10);
    p.ignore_initial_bytes_file_2 = Some(20);
    assert_eq!(parse("cmp foo bar 99 99 --ignore-initial=10:20"), res_ok(p));
}

#[test]
fn params_help_and_version_disregard_other_options() {
    assert_eq!(
        parse("cmp -l -s --help"),
        Ok(ParamsParseOk::Info(ParamsParseInfo::Help))
    );
    assert_eq!(
        parse("cmp -b -s foo bar --version"),
        Ok(ParamsParseOk::Info(ParamsParseInfo::Version))
    );
    assert_eq!(
        parse("cmp -s -l foo bar"),
        Err(ParamsParseError::SilentVerboseIncompatible("cmp".to_string()))
    );
    assert_eq!(
        parse("cmp -l -s foo bar"),
        Err(ParamsParseError::SilentVerboseIncompatible("cmp".to_string()))
    );
}

#[test]
fn params_spellings_parse_alike() {
    let expected = parse("cmp file_1 file_2 -b -l -n 50");
    assert!(expected.is_ok());
    for line in [
        "cmp file_1 file_2 -bl -n50",
        "cmp file_1 file_2 -bln 50",
        "cmp file_1 file_2 -bln50",
        "cmp file_1 file_2 --print-bytes --verbose --bytes 50",
        "cmp file_1 file_2 --print-bytes --verbose --bytes=50",
        "cmp file_1 file_2 --p --verb --by 50",
        "cmp file_1 file_2 --p --verb --by=50",
        "cmp file_1 file_2 -b -l -n50",
    ] {
        assert_eq!(parse(line), expected, "{line}");
    }
}

#[test]
fn params_first_refusal_is_reported() {
    assert_eq!(
        parse("cmp -b -s -l foo bar"),
        Err(ParamsParseError::SilentPrintBytesIncompatible("cmp".to_string()))
    );
    assert_eq!(
        parse("cmp -l -s --bytes=x foo bar"),
        Err(ParamsParseError::SilentVerboseIncompatible("cmp".to_string()))
    );
    assert_eq!(
        parse("cmp -sbl foo bar"),
        Err(ParamsParseError::SilentPrintBytesIncompatible("cmp".to_string()))
    );
    assert_eq!(
        parse("cmp -slb foo bar"),
        Err(ParamsParseError::SilentVerboseIncompatible("cmp".to_string()))
    );
    assert_eq!(
        parse("cmp -ls --version"),
        Ok(ParamsParseOk::Info(ParamsParseInfo::Version))
    );
}
