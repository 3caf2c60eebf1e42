use minimux::text::{parse_trimmed_u32, split, to_decimal, IntParseError};

#[test]
fn decimal_formatting() {
    assert_eq!(to_decimal(0), "0");
    assert_eq!(to_decimal(7), "7");
    assert_eq!(to_decimal(10), "10");
    assert_eq!(to_decimal(1000), "1000");
    assert_eq!(to_decimal(u64::MAX), u64::MAX.to_string());
}

#[test]
fn pid_roundtrip() {
    for n in [0u32, 1, 42, 4242, 65535, 1_000_000, u32::MAX] {
        assert_eq!(parse_trimmed_u32(&to_decimal(n as u64)), Ok(n));
    }
}

#[test]
fn parse_trims_whitespace() {
    assert_eq!(parse_trimmed_u32("  1234\r\n"), Ok(1234));
    assert_eq!(parse_trimmed_u32("\u{3000}12\u{a0}"), Ok(12));
    assert_eq!(parse_trimmed_u32("+17"), Ok(17));
}

#[test]
fn parse_errors_match_std() {
    for text in ["", "   ", "+", "-", "-5", "12a", "1 2", "4294967296", "99999999999x", "x9999999999", "٣"] {
        let ours = parse_trimmed_u32(text);
        let std = text.trim().parse::<u32>();
        match (ours, std) {
            (Ok(a), Ok(b)) => assert_eq!(a, b),
            (Err(e), Err(s)) => assert_eq!(e.message(), s.to_string(), "text {:?}", text),
            (a, b) => panic!("text {:?}: {:?} vs {:?}", text, a, b),
        }
    }
}

#[test]
fn parse_error_kinds() {
    assert_eq!(parse_trimmed_u32(""), Err(IntParseError::Empty));
    assert_eq!(parse_trimmed_u32("abc"), Err(IntParseError::InvalidDigit));
    assert_eq!(parse_trimmed_u32("4294967296"), Err(IntParseError::PosOverflow));
    assert_eq!(parse_trimmed_u32("4294967295"), Ok(u32::MAX));
}

#[test]
fn split_matches_std() {
    for text in ["", ";", ".EXE;.CMD;.BAT", ";a;;b;", "no separator", "é;ß;"] {
        let ours = split(text, ';');
        let std: Vec<String> = text.split(';').map(|s| s.to_string()).collect();
        assert_eq!(ours, std, "text {:?}", text);
    }
}
