use diffutils::diff3::params_diff3::{Diff3ParseOk, ParamsDiff3};
use diffutils::diff3::params_diff3_def::ParamsDiff3Error;
use diffutils::diff3::{Diff3Error, Diff3Ok};
use diffutils::executable::Executable;
use diffutils::params_gen::ParamsGenParseError;

fn os(s: &str) -> String {
    s.to_string()
}

fn parse(args: &str) -> Result<Diff3ParseOk, ParamsDiff3Error> {
    let mut o = Vec::new();
    for arg in args.split(' ') {
        o.push(os(arg));
    }
    ParamsDiff3::parse_params(Executable::Diff3, &o)
}

fn res_ok(params: ParamsDiff3) -> Result<Diff3ParseOk, ParamsDiff3Error> {
    Ok(Diff3ParseOk::Params(params))
}

#[test]
fn diff3_positional() {
    assert_eq!(
        parse("diff3 foo bar"),
        res_ok(ParamsDiff3 {
            executable: Executable::Diff3,
            from: os("foo"),
            to: os("bar"),
            ..Default::default()
        }),
    );
    assert_eq!(
        parse("diff3 foo"),
        res_ok(ParamsDiff3 {
            executable: Executable::Diff3,
            from: os("foo"),
            to: os("-"),
            ..Default::default()
        }),
    );
    let msg = "missing operand after 'diff3'";
    match parse("diff3") {
        Ok(_) => panic!("Should not be ok!"),
        Err(e) => {
            assert_eq!(e, ParamsDiff3Error::ArgParserError(ParamsGenParseError::NoOperand));
            assert!(e.message().contains(msg));
        }
    }
    assert_eq!(
        parse("diff3 mine older yours"),
        res_ok(ParamsDiff3 {
            executable: Executable::Diff3,
            from: os("mine"),
            to: os("older"),
            version_b: Some(os("yours")),
            ..Default::default()
        }),
    );
    let msg = "extra operand 'should-not-be-here'";
    match parse("diff3 foo bar baz should-not-be-here") {
        Ok(_) => panic!("Should not be ok!"),
        Err(e) => assert!(e.message().contains(msg)),
    }
}

#[test]
fn diff3_options() {
    let params = ParamsDiff3 {
        executable: Executable::Diff3,
        from: os("foo"),
        to: os("bar"),
        version_b: None,
        append_wq_to_ed: true,
        bracket_conflicts: true,
        diff_program: Some("prg".to_string()),
        easy_only: true,
        ed: true,
        help: false,
        initial_tab: true,
        label: Some("lbl".to_string()),
        merge: true,
        overlap_only: true,
        show_all: true,
        show_overlap: true,
        strip_trailing_cr: true,
        text: true,
        version: false,
    };
    assert_eq!(
        parse("diff3 foo bar -iX3eTmxAEa --diff-program prg -L lbl --strip"),
        res_ok(params.clone())
    );
    assert_eq!(parse("diff3 foo --help"), Ok(Diff3ParseOk::Help));
    assert_eq!(parse("diff3 -v foo"), Ok(Diff3ParseOk::Version));
    // options of the table only
    assert_eq!(
        parse("diff3 foo bar --width=3"),
        Err(ParamsDiff3Error::ArgParserError(
            ParamsGenParseError::UnrecognizedOption("--width".to_string())
        ))
    );
}

#[test]
fn diff3_errors() {
    assert_eq!(
        Diff3Error::from(ParamsDiff3Error::ExtraOperand("x".to_string())).message(),
        "diff3: extra operand 'x'\ndiff3: Try 'diff3 --help' for more information."
    );
    assert_eq!(
        Diff3Error::NotYetImplemented.message(),
        "Diff3 compare functionality is not yet implemented"
    );
    assert_eq!(Diff3Ok::Equal, Diff3Ok::Equal);
}
