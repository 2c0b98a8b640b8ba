use dpi_core::detect::{
    detect_match_uint, detect_parse_uint, match_opcode, match_rrtypes, parse_opcode,
    DetectDnsOpcode, DetectUintData, DetectUintMode,
};

#[test]
fn parse_opcode_good() {
    assert_eq!(
        parse_opcode("1"),
        Ok(DetectDnsOpcode {
            negate: false,
            opcode: 1
        })
    );
    assert_eq!(
        parse_opcode("123"),
        Ok(DetectDnsOpcode {
            negate: false,
            opcode: 123
        })
    );
    assert_eq!(
        parse_opcode("!123"),
        Ok(DetectDnsOpcode {
            negate: true,
            opcode: 123
        })
    );
    assert_eq!(
        parse_opcode("!123"),
        Ok(DetectDnsOpcode {
            negate: true,
            opcode: 123
        })
    );
    assert_eq!(parse_opcode(""), Err(()));
    assert_eq!(parse_opcode("!"), Err(()));
    assert_eq!(parse_opcode("!   "), Err(()));
    assert_eq!(parse_opcode("!asdf"), Err(()));
}

#[test]
fn test_match_opcode() {
    assert!(match_opcode(
        &DetectDnsOpcode {
            negate: false,
            opcode: 0,
        },
        0b0000_0000_0000_0000,
    ));

    assert!(!match_opcode(
        &DetectDnsOpcode {
            negate: true,
            opcode: 0,
        },
        0b0000_0000_0000_0000,
    ));

    assert!(match_opcode(
        &DetectDnsOpcode {
            negate: false,
            opcode: 4,
        },
        0b0010_0000_0000_0000,
    ));

    assert!(!match_opcode(
        &DetectDnsOpcode {
            negate: true,
            opcode: 4,
        },
        0b0010_0000_0000_0000,
    ));
}

#[test]
fn parse_rrtype_good() {
    assert_eq!(
        detect_parse_uint("1").unwrap().1,
        DetectUintData {
            mode: DetectUintMode::DetectUintModeEqual,
            arg1: 1,
            arg2: 0,
        }
    );
    assert_eq!(
        detect_parse_uint("123").unwrap().1,
        DetectUintData {
            mode: DetectUintMode::DetectUintModeEqual,
            arg1: 123,
            arg2: 0,
        }
    );
    assert_eq!(
        detect_parse_uint("!123").unwrap().1,
        DetectUintData {
            mode: DetectUintMode::DetectUintModeNe,
            arg1: 123,
            arg2: 0,
        }
    );
    assert_eq!(
        detect_parse_uint("7-15").unwrap().1,
        DetectUintData {
            mode: DetectUintMode::DetectUintModeRange,
            arg1: 7,
            arg2: 15,
        }
    );
    assert!(detect_parse_uint("").is_err());
    assert!(detect_parse_uint("!").is_err());
    assert!(detect_parse_uint("!   ").is_err());
    assert!(detect_parse_uint("!asdf").is_err());
}

#[test]
fn test_match_rcode() {
    assert!(detect_match_uint(
        &DetectUintData {
            mode: DetectUintMode::DetectUintModeEqual,
            arg1: 0,
            arg2: 0,
        },
        0b0000_0000_0000_0000,
    ));

    assert!(!detect_match_uint(
        &DetectUintData {
            mode: DetectUintMode::DetectUintModeNe,
            arg1: 0,
            arg2: 0,
        },
        0b0000_0000_0000_0000,
    ));

    assert!(detect_match_uint(
        &DetectUintData {
            mode: DetectUintMode::DetectUintModeEqual,
            arg1: 4,
            arg2: 0,
        },
        4u16,
    ));

    assert!(!detect_match_uint(
        &DetectUintData {
            mode: DetectUintMode::DetectUintModeNe,
            arg1: 4,
            arg2: 0,
        },
        4u16,
    ));
}

#[test]
fn test_criterion_negation() {
    let criterion = parse_opcode("!4").unwrap();
    assert!(!match_opcode(&criterion, 4 << 11));
    assert!(match_opcode(&criterion, 5 << 11));

    let uint_criterion = detect_parse_uint("!4").unwrap().1;
    assert!(!detect_match_uint(&uint_criterion, 4));
    assert!(detect_match_uint(&uint_criterion, 5));
}

#[test]
fn test_range_inclusive_bounds() {
    let criterion = detect_parse_uint("7-15").unwrap().1;
    assert!(detect_match_uint(&criterion, 7));
    assert!(detect_match_uint(&criterion, 15));
    assert!(detect_match_uint(&criterion, 10));
    assert!(!detect_match_uint(&criterion, 6));
    assert!(!detect_match_uint(&criterion, 16));
    assert!(detect_parse_uint("15-7").is_err());
}

#[test]
fn test_parse_uint_bounds() {
    assert_eq!(
        detect_parse_uint("65535").unwrap().1,
        DetectUintData {
            mode: DetectUintMode::DetectUintModeEqual,
            arg1: 65535,
            arg2: 0,
        }
    );
    assert!(detect_parse_uint("65536").is_err());
    assert!(detect_parse_uint("12 3").is_err());
    assert_eq!(
        detect_parse_uint("  !  42").unwrap().1,
        DetectUintData {
            mode: DetectUintMode::DetectUintModeNe,
            arg1: 42,
            arg2: 0,
        }
    );
    assert!(parse_opcode("256").is_err());
    assert_eq!(
        parse_opcode("  ! 3"),
        Ok(DetectDnsOpcode {
            negate: true,
            opcode: 3
        })
    );
}

#[test]
fn test_match_rrtypes_any() {
    let criterion = detect_parse_uint("15").unwrap().1;
    assert_eq!(1, match_rrtypes(&criterion, &vec![1, 2, 15]));
    assert_eq!(0, match_rrtypes(&criterion, &vec![1, 2, 16]));
    assert_eq!(0, match_rrtypes(&criterion, &Vec::new()));
}
