use diffutils::cmp::params::Params;
use diffutils::cmp::params_cmp::ParamsCmp;
use diffutils::cmp::params_cmp_def::ParamsCmpOk;
use diffutils::cmp::{compare_chunk, ChunkOutcome, CmpOk, CompareState};
use diffutils::params_gen::ParamsGen;
use diffutils::sdiff::params_sdiff::ParamsSdiff;

fn args(s: &str) -> Vec<String> {
    s.split(' ').map(|a| a.to_string()).collect()
}

#[test]
fn plain_numbers_read_back() {
    for n in [0u64, 1, 9, 10, 1024, 123456789, u64::MAX] {
        assert_eq!(ParamsGen::parse_bytes(&n.to_string()), Ok(n));
    }
}

#[test]
fn units_multiply() {
    let units = [
        ("K", 1024u64),
        ("k", 1024),
        ("KiB", 1024),
        ("kB", 1000),
        ("MB", 1_000_000),
        ("M", 1_048_576),
        ("GB", 1_000_000_000),
        ("GiB", 1_073_741_824),
        ("TB", 1_000_000_000_000),
        ("P", 1_125_899_906_842_624),
        ("EB", 1_000_000_000_000_000_000),
        ("E", 1_152_921_504_606_846_976),
    ];
    for (u, m) in units {
        for n in [0u64, 1, 3, 15] {
            let r = ParamsGen::parse_bytes(&format!("{n}{u}"));
            match n.checked_mul(m) {
                Some(v) => assert_eq!(r, Ok(v)),
                None => assert!(r.is_err()),
            }
        }
    }
}

#[test]
fn abbreviations_read_as_the_option() {
    assert_eq!(
        ParamsCmp::parse_params(&args("cmp --verb foo bar")),
        ParamsCmp::parse_params(&args("cmp --verbose foo bar"))
    );
    assert_eq!(
        ParamsCmp::parse_params(&args("cmp --ig=5 foo bar")),
        ParamsCmp::parse_params(&args("cmp --ignore-initial=5 foo bar"))
    );
    assert_eq!(
        Params::parse_params(&args("cmp --ign=7 --verb foo bar")),
        Params::parse_params(&args("cmp --ignore-initial=7 --verbose foo bar"))
    );
    assert_eq!(
        Params::parse_params(&args("cmp --by 9 foo bar")),
        Params::parse_params(&args("cmp --bytes 9 foo bar"))
    );
    assert_eq!(
        ParamsSdiff::parse_params(&args("sdiff --sup foo bar")),
        ParamsSdiff::parse_params(&args("sdiff --suppress-common-lines foo bar"))
    );
}

#[test]
fn silence_never_with_output() {
    for line in [
        "cmp -s foo bar",
        "cmp -s -l foo bar",
        "cmp -l -s foo bar",
        "cmp -b -s foo bar",
        "cmp -s -b foo bar",
        "cmp --quiet --verbose foo bar",
    ] {
        if let Ok(ParamsCmpOk::ParamsCmp(p)) = ParamsCmp::parse_params(&args(line)) {
            assert!(!(p.silent && (p.verbose || p.print_bytes)), "{line}");
        }
    }
}

/// Runs the comparison of two inputs that hand over chunks of the given sizes.
fn run(f: &[u8], t: &[u8], fsize: usize, tsize: usize) -> CmpOk {
    run_limited(f, t, fsize, tsize, None)
}

/// Runs the comparison with a byte limit.
fn run_limited(f: &[u8], t: &[u8], fsize: usize, tsize: usize, limit: Option<u64>) -> CmpOk {
    let p = ParamsCmp {
        from: "f".to_string(),
        to: "t".to_string(),
        bytes_limit: limit,
        ..Default::default()
    };
    let mut s = CompareState::new();
    let (mut pf, mut pt) = (0usize, 0usize);
    loop {
        let fc = &f[pf..(pf + fsize).min(f.len())];
        let tc = &t[pt..(pt + tsize).min(t.len())];
        match compare_chunk(&mut s, fc, tc, &p, 20) {
            ChunkOutcome::Done | ChunkOutcome::LimitReached { .. } => return s.compare,
            ChunkOutcome::Eof { .. } | ChunkOutcome::Difference { .. } => return CmpOk::Different,
            ChunkOutcome::Consumed { consumed, .. } => {
                pf += consumed;
                pt += consumed;
            }
        }
    }
}

#[test]
fn equal_exactly_when_same_whatever_the_chunks() {
    let cases: [(&[u8], &[u8]); 5] = [
        (b"hello\nworld\n", b"hello\nworld\n"),
        (b"hello\nworld\n", b"hello\nworld!"),
        (b"hello", b"hello world"),
        (b"", b""),
        (b"", b"x"),
    ];
    for (f, t) in cases {
        for fs in 1..5 {
            for ts in 1..5 {
                let r = run(f, t, fs, ts);
                assert_eq!(r == CmpOk::Equal, f == t, "{fs} {ts}");
            }
        }
    }
}

#[test]
fn equal_exactly_when_the_compared_bytes_are_same() {
    let cases: [(&[u8], &[u8]); 5] = [
        (b"ab", b"acd"),
        (b"abXZ", b"abY"),
        (b"hello", b"hello world"),
        (b"", b"x"),
        (b"same", b"same"),
    ];
    for (f, t) in cases {
        for limit in 0..6u64 {
            let n = limit as usize;
            let equal = f[..n.min(f.len())] == t[..n.min(t.len())];
            for fs in 1..5 {
                for ts in 1..5 {
                    let r = run_limited(f, t, fs, ts, Some(limit));
                    assert_eq!(r == CmpOk::Equal, equal, "{limit} {fs} {ts}");
                }
            }
        }
    }
}
