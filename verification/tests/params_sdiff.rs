use diffutils::executable::Executable;
use diffutils::params_gen::ParamsGenParseError;
use diffutils::sdiff::params_sdiff::ParamsSdiff;
use diffutils::sdiff::params_sdiff_def::{ParamsSdiffErrorCtx, SDiffParseError, SDiffParseOk};

const TEXT_HELP_HINT: &str = "Try 'sdiff --help' for more information.";

fn os(s: &str) -> String {
    s.to_string()
}

/// Simplify call of parser, just pass a normal string like in the Terminal.
fn parse(args: &str) -> Result<SDiffParseOk, SDiffParseError> {
    let mut o = Vec::new();
    for arg in args.split(' ') {
        o.push(os(arg));
    }
    ParamsSdiff::parse_params(&o)
}

fn res_ok(params: ParamsSdiff) -> Result<SDiffParseOk, SDiffParseError> {
    Ok(SDiffParseOk::ParamsSdiff(params))
}

#[test]
fn params_sdiff_positional() {
    // file_1 and file_2 given
    assert_eq!(
        parse("sdiff foo bar"),
        res_ok(ParamsSdiff {
            util: Executable::SDiff,
            from: os("foo"),
            to: os("bar"),
            ..Default::default()
        }),
    );

    // file_1 only
    assert_eq!(
        parse("sdiff foo"),
        res_ok(ParamsSdiff {
            util: Executable::SDiff,
            from: os("foo"),
            to: os("-"),
            ..Default::default()
        }),
    );

    // Err: too many operands
    assert_eq!(
        parse("sdiff foo bar extra"),
        Err(SDiffParseError::ExtraOperand("extra".to_string())),
    );

    // Err: no arguments
    assert_eq!(
        parse("sdiff"),
        Err(SDiffParseError::ParserError(ParamsGenParseError::NoOperand))
    );
}

#[test]
fn params_sdiff_execution_modes() {
    // Test all options
    // I^A is at the end of the single options, forcing '^A' as argument for 'I'.
    // --wi is abbreviated and uses equal sign
    // diff-program uses next arg
    // -O uses next arg
    let params = ParamsSdiff {
        util: Executable::SDiff,
        from: os("foo"),
        to: os("bar"),
        diff_program: Some("prg".to_string()),
        expand_tabs: true,
        help: false,
        ignore_all_space: true,
        ignore_blank_lines: true,
        ignore_case: true,
        ignore_matching_lines: Some("^A".to_string()),
        ignore_space_change: true,
        ignore_tab_expansion: true,
        ignore_trailing_space: true,
        left_column: true,
        minimal: true,
        output: Some("out".to_string()),
        speed_large_files: true,
        strip_trailing_cr: true,
        suppress_common_lines: true,
        tabsize: Some(2),
        text: true,
        version: false,
        width: Some(150),
    };
    assert_eq!(
        parse("sdiff foo bar -iEZbWBalstdHI^A --wi=150 --diff-program prg -o out --strip --tab=2"),
        res_ok(params.clone())
    );

    // negative value
    let r = parse("sdiff foo bar --tab=-2");
    match r {
        Ok(_) => assert!(false, "Should not be Ok."),
        Err(e) => assert_eq!(
            ParamsSdiffErrorCtx {
                util: Executable::SDiff,
                error: e
            }
            .message(),
            format!("sdiff: invalid argument '-2' for '--tabsize'\nsdiff: {TEXT_HELP_HINT}")
        ),
    }
}

#[test]
fn sdiff_number_errors() {
    let r = parse("sdiff --width=abc foo bar");
    match r {
        Ok(_) => panic!("Should not be Ok."),
        Err(e) => {
            assert_eq!(e.message(), "invalid argument 'abc' for '--width' (-w)");
            assert_eq!(
                ParamsSdiffErrorCtx {
                    util: Executable::SDiff,
                    error: e
                }
                .message(),
                format!("sdiff: invalid argument 'abc' for '--width' (-w)\nsdiff: {TEXT_HELP_HINT}")
            );
        }
    }
    assert_eq!(
        parse("sdiff --width=+130 foo bar"),
        res_ok(ParamsSdiff {
            util: Executable::SDiff,
            from: os("foo"),
            to: os("bar"),
            width: Some(130),
            ..Default::default()
        }),
    );
    assert!(parse("sdiff --tabsize=99999999999999999999999 foo bar").is_err());
    // the parser asks for an operand before it looks at the options
    assert_eq!(
        parse("sdiff --help"),
        Err(SDiffParseError::ParserError(ParamsGenParseError::NoOperand))
    );
    assert_eq!(parse("sdiff --help foo"), Ok(SDiffParseOk::Help));
    assert_eq!(parse("sdiff -v foo"), Ok(SDiffParseOk::Version));
    assert_eq!(
        SDiffParseError::ParserError(ParamsGenParseError::NoOperand).message(),
        "missing operand after 'sdiff'"
    );
}
