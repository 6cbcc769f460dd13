use diffutils::cmp::params_cmp::ParamsCmp;
use diffutils::cmp::params_cmp_def::ParamsCmpError;
use diffutils::cmp::{
    compare_chunk, difference_message, eof_message, format_octal, format_verbose_difference,
    format_visible_byte, offset_width, sizes_decide, write_visible_byte, write_visible_byte_padded,
    ChunkOutcome, CmpError, CmpOk, CompareState,
};
use diffutils::executable::Executable;

fn params() -> ParamsCmp {
    ParamsCmp {
        util: Executable::Cmp,
        from: "a.txt".to_string(),
        to: "b.txt".to_string(),
        ..Default::default()
    }
}

fn visible(byte: u8) -> Vec<u8> {
    let mut v = Vec::new();
    write_visible_byte(&mut v, byte);
    v
}

#[test]
fn octal_fields() {
    assert_eq!(format_octal(0), b"  0".to_vec());
    assert_eq!(format_octal(7), b"  7".to_vec());
    assert_eq!(format_octal(8), b" 10".to_vec());
    assert_eq!(format_octal(63), b" 77".to_vec());
    assert_eq!(format_octal(64), b"100".to_vec());
    assert_eq!(format_octal(255), b"377".to_vec());
}

#[test]
fn visible_bytes() {
    assert_eq!(visible(0), b"^@".to_vec());
    assert_eq!(visible(10), b"^J".to_vec());
    assert_eq!(visible(31), b"^_".to_vec());
    assert_eq!(visible(32), b" ".to_vec());
    assert_eq!(visible(b'a'), b"a".to_vec());
    assert_eq!(visible(126), b"~".to_vec());
    assert_eq!(visible(127), b"^?".to_vec());
    assert_eq!(visible(128), b"M-^@".to_vec());
    assert_eq!(visible(159), b"M-^_".to_vec());
    assert_eq!(visible(160), b"M- ".to_vec());
    assert_eq!(visible(254), b"M-~".to_vec());
    assert_eq!(visible(255), b"M-^?".to_vec());
    let mut v = b"x".to_vec();
    assert_eq!(write_visible_byte(&mut v, 200), 3);
    assert_eq!(v, b"xM-H".to_vec());
}

#[test]
fn visible_bytes_are_distinct_and_printable() {
    let mut seen: Vec<Vec<u8>> = Vec::new();
    for b in 0..=255u8 {
        let v = visible(b);
        assert!(!v.is_empty() && v.len() <= 4);
        assert!(v.iter().all(|c| (32..=126).contains(c)));
        assert!(!seen.contains(&v));
        seen.push(v);
    }
}

#[test]
fn visible_padded_and_string() {
    let mut v = Vec::new();
    write_visible_byte_padded(&mut v, b'a');
    assert_eq!(v, b"a   ".to_vec());
    let mut v = Vec::new();
    write_visible_byte_padded(&mut v, 255);
    assert_eq!(v, b"M-^?".to_vec());
    assert_eq!(format_visible_byte(1), "^A");
    assert_eq!(format_visible_byte(b'z'), "z");
    assert_eq!(format_visible_byte(233), "M-i");
}

#[test]
fn verbose_lines() {
    let mut p = params();
    p.verbose = true;
    let mut out = Vec::new();
    assert_eq!(
        format_verbose_difference(b'a', b'b', 7, 3, &mut out, &p),
        Ok(())
    );
    assert_eq!(out, b"  7 141 142\n".to_vec());
    p.print_bytes = true;
    let mut out = Vec::new();
    assert_eq!(
        format_verbose_difference(b'a', 10, 1234, 2, &mut out, &p),
        Ok(())
    );
    assert_eq!(out, b"1234 141 a     12 ^J\n".to_vec());
}

#[test]
fn eof_messages() {
    let p = params();
    assert_eq!(
        eof_message(1, 1, true, "a.txt", &p),
        Some("cmp: EOF on 'a.txt' which is empty".to_string())
    );
    assert_eq!(
        eof_message(11, 3, true, "b.txt", &p),
        Some("cmp: EOF on 'b.txt' after byte 10, line 2".to_string())
    );
    assert_eq!(
        eof_message(11, 3, false, "b.txt", &p),
        Some("cmp: EOF on 'b.txt' after byte 10, in line 3".to_string())
    );
    let mut v = params();
    v.verbose = true;
    assert_eq!(
        eof_message(11, 3, false, "b.txt", &v),
        Some("cmp: EOF on 'b.txt' after byte 10".to_string())
    );
    let mut s = params();
    s.silent = true;
    assert_eq!(eof_message(11, 3, false, "b.txt", &s), None);
}

#[test]
fn difference_messages() {
    let p = params();
    assert_eq!(
        difference_message(b'a', b'b', 5, 2, &p, false),
        Some("a.txt b.txt differ: byte 5, line 2".to_string())
    );
    assert_eq!(
        difference_message(b'a', b'b', 5, 2, &p, true),
        Some("a.txt b.txt differ: char 5, line 2".to_string())
    );
    let mut b = params();
    b.print_bytes = true;
    assert_eq!(
        difference_message(b'a', b'b', 5, 2, &b, true),
        Some("a.txt b.txt differ: byte 5, line 2 is 141 a 142 b".to_string())
    );
    assert_eq!(
        difference_message(b'a', 200, 5, 2, &b, false),
        Some("a.txt b.txt differ: byte 5, line 2 is 141 a  310 M-H".to_string())
    );
    let mut s = params();
    s.silent = true;
    assert_eq!(difference_message(b'a', b'b', 5, 2, &s, false), None);
}

#[test]
fn widths_and_sizes() {
    let mut p = params();
    assert_eq!(offset_width(&p, None), 20);
    assert_eq!(offset_width(&p, Some((0, 5))), 2);
    assert_eq!(offset_width(&p, Some((999, 5000))), 3);
    assert_eq!(offset_width(&p, Some((1000, 5000))), 4);
    p.bytes_limit = Some(42);
    assert_eq!(offset_width(&p, Some((1000, 5000))), 2);
    assert_eq!(offset_width(&p, None), 2);
    assert!(!sizes_decide(&p, Some((1, 2))));
    p.silent = true;
    assert!(sizes_decide(&p, Some((1, 2))));
    assert!(!sizes_decide(&p, Some((2, 2))));
    assert!(!sizes_decide(&p, None));
    // only the bytes that are compared count: after the skips, up to the limit
    p.bytes_limit = Some(1);
    assert!(!sizes_decide(&p, Some((1, 2))));
    assert!(sizes_decide(&p, Some((0, 2))));
    p.bytes_limit = None;
    p.ignore_initial_bytes_from = Some(1);
    assert!(!sizes_decide(&p, Some((3, 2))));
    assert!(sizes_decide(&p, Some((2, 2))));
}

#[test]
fn chunks_of_equal_bytes() {
    let p = params();
    let mut s = CompareState::new();
    let r = compare_chunk(&mut s, b"ab\ncd", b"ab\ncdef", &p, 3);
    assert_eq!(
        r,
        ChunkOutcome::Consumed {
            consumed: 5,
            output: Vec::new()
        }
    );
    assert_eq!(s.at_byte, 6);
    assert_eq!(s.at_line, 2);
    assert!(!s.start_of_line);
    assert_eq!(s.compare, CmpOk::Equal);
    assert_eq!(
        compare_chunk(&mut s, b"", b"ef", &p, 3),
        ChunkOutcome::Eof { on_from: true }
    );
    assert_eq!(compare_chunk(&mut s, b"", b"", &p, 3), ChunkOutcome::Done);
}

#[test]
fn chunk_with_a_difference() {
    let p = params();
    let mut s = CompareState::new();
    let r = compare_chunk(&mut s, b"a\nbXd", b"a\nbYd", &p, 3);
    assert_eq!(
        r,
        ChunkOutcome::Difference {
            from_byte: b'X',
            to_byte: b'Y',
            at_byte: 4,
            at_line: 2
        }
    );
    assert_eq!(s.compare, CmpOk::Different);
}

#[test]
fn verbose_chunk() {
    let mut p = params();
    p.verbose = true;
    let mut s = CompareState::new();
    let r = compare_chunk(&mut s, b"aXcZ", b"aYcW", &p, 2);
    assert_eq!(
        r,
        ChunkOutcome::Consumed {
            consumed: 4,
            output: b" 2 130 131\n 4 132 127\n".to_vec()
        }
    );
    assert_eq!(s.compare, CmpOk::Different);
    assert_eq!(s.at_byte, 5);
}

#[test]
fn chunk_limits() {
    let mut p = params();
    p.bytes_limit = Some(2);
    let mut s = CompareState::new();
    assert_eq!(
        compare_chunk(&mut s, b"abc", b"abc", &p, 2),
        ChunkOutcome::LimitReached { output: Vec::new() }
    );
    assert_eq!(s.compare, CmpOk::Equal);
    // byte by byte the limit ends the comparison; the rest is not compared
    let mut s = CompareState::new();
    p.verbose = true;
    assert_eq!(
        compare_chunk(&mut s, b"aXYZ", b"aQRS", &p, 2),
        ChunkOutcome::LimitReached {
            output: b" 2 130 121\n".to_vec()
        }
    );
    assert_eq!(s.at_byte, 3);
    assert_eq!(s.compare, CmpOk::Different);
    // -n 1 on ab and acd: the first bytes are equal, nothing more is compared
    p.verbose = false;
    p.bytes_limit = Some(1);
    let mut s = CompareState::new();
    assert_eq!(
        compare_chunk(&mut s, b"ab", b"acd", &p, 2),
        ChunkOutcome::LimitReached { output: Vec::new() }
    );
    assert_eq!(s.compare, CmpOk::Equal);
    // -n 0 compares nothing
    p.bytes_limit = Some(0);
    let mut s = CompareState::new();
    assert_eq!(
        compare_chunk(&mut s, b"a", b"b", &p, 2),
        ChunkOutcome::LimitReached { output: Vec::new() }
    );
    assert_eq!(s.compare, CmpOk::Equal);
}

#[test]
fn cmp_error_messages() {
    assert_eq!(
        CmpError::from(ParamsCmpError::ExtraOperand("x".to_string())).message(),
        "cmp: extra operand 'x'\ncmp: Try 'cmp --help' for more information."
    );
    assert_eq!(
        CmpError::ReadFileError("cmp: a: No such file".to_string()).message(),
        "cmp: a: No such file"
    );
}
