//! Match predicates for the detection layer: small value-comparison engines
//! (equality / inequality / inclusive range, with negation) evaluated against
//! numeric fields decoded from protocol records, plus the parsers that build
//! them from rule text.
//!
//! Rule text grammar: optional whitespace (spaces and tabs), an optional `!`
//! negation marker (whitespace may also follow it), then a decimal number;
//! the range form is `lo-hi` with both bounds inclusive. Parsing fails on an
//! empty value, a bare negation marker, a non-numeric remainder, or a range
//! whose low bound exceeds its high bound.

use vstd::prelude::*;

verus! {

use vstd::string::StringSliceAdditionalSpecFns;

/// A parsed DNS opcode criterion: an opcode value and whether the match is
/// negated.
#[derive(Debug, PartialEq, Eq, Structural, Clone, Copy)]
pub struct DetectDnsOpcode {
    pub negate: bool,
    pub opcode: u8,
}

/// How a parsed unsigned-integer criterion compares against a decoded value.
#[derive(Debug, PartialEq, Eq, Structural, Clone, Copy)]
pub enum DetectUintMode {
    DetectUintModeEqual,
    DetectUintModeNe,
    DetectUintModeRange,
}

/// A parsed unsigned-integer criterion: one or two bounds and a mode.
#[derive(Debug, PartialEq, Eq, Structural, Clone, Copy)]
pub struct DetectUintData<T> {
    pub arg1: T,
    pub arg2: T,
    pub mode: DetectUintMode,
}

/// True of bytes the criterion grammar skips before a value or a negation
/// marker.
pub open spec fn is_blank_byte(b: u8) -> bool {
    b == 32 || b == 9
}

/// True of ASCII decimal digit bytes.
pub open spec fn is_digit_byte(b: u8) -> bool {
    48 <= b <= 57
}

/// The number denoted by a digit sequence, most significant digit first.
pub open spec fn digits_value(s: Seq<u8>) -> int
    decreases s.len(),
{
    if s.len() == 0 {
        0
    } else {
        digits_value(s.drop_last()) * 10 + (s.last() - 48)
    }
}

/// True when `s` is a well-formed decimal number: at least one digit and
/// nothing else.
pub open spec fn is_digit_seq(s: Seq<u8>) -> bool {
    s.len() > 0 && forall|i: int| 0 <= i < s.len() ==> is_digit_byte(#[trigger] s[i])
}

/// The index of the first byte of `s` at or after `i` that the grammar does
/// not skip: neither blank nor `!`.
pub open spec fn first_value_index(s: Seq<u8>, i: int) -> int
    decreases s.len() - i,
{
    if i >= s.len() {
        s.len() as int
    } else if is_blank_byte(s[i]) || s[i] == 33 {
        first_value_index(s, i + 1)
    } else {
        i
    }
}

/// True when some `!` stands among the skipped bytes before the value.
pub open spec fn has_negation(s: Seq<u8>, i: int) -> bool
    decreases s.len() - i,
{
    if i >= s.len() {
        false
    } else if s[i] == 33 {
        true
    } else if is_blank_byte(s[i]) {
        has_negation(s, i + 1)
    } else {
        false
    }
}

/// What `parse_opcode` returns on the byte sequence of its argument: the
/// remainder after skipped bytes must be a decimal number no larger than
/// `u8::MAX`.
pub open spec fn parse_opcode_spec(s: Seq<u8>) -> Option<DetectDnsOpcode> {
    let i = first_value_index(s, 0);
    let rest = s.subrange(i, s.len() as int);
    if is_digit_seq(rest) && digits_value(rest) <= 255 {
        Some(
            DetectDnsOpcode {
                negate: has_negation(s, 0),
                opcode: digits_value(rest) as u8,
            },
        )
    } else {
        None
    }
}

/// Parse the digits of `s` from `from` to the end as a decimal `u32`,
/// failing on a non-digit, an empty sequence, or a value above `max`.
fn parse_decimal(s: &[u8], from: usize, max: u32) -> (r: Option<u32>)
    requires
        from <= s@.len(),
    ensures
        match r {
            Some(v) => {
                &&& is_digit_seq(s@.subrange(from as int, s@.len() as int))
                &&& digits_value(s@.subrange(from as int, s@.len() as int)) == v
                &&& v <= max
            },
            None => !(is_digit_seq(s@.subrange(from as int, s@.len() as int)) && digits_value(
                s@.subrange(from as int, s@.len() as int),
            ) <= max),
        },
{
    if from == s.len() {
        assert(s@.subrange(from as int, s@.len() as int).len() == 0);
        return None;
    }
    let mut acc: u64 = 0;
    let mut i: usize = from;
    while i < s.len()
        invariant
            from <= i <= s@.len(),
            from < s@.len(),
            is_digit_seq(s@.subrange(from as int, i as int)) || i == from,
            acc == digits_value(s@.subrange(from as int, i as int)),
            acc <= max,
        decreases s@.len() - i,
    {
        let b = s[i];
        if b < 48 || b > 57 {
            assert(!is_digit_byte(s@.subrange(from as int, s@.len() as int)[i - from]));
            return None;
        }
        let next: u64 = acc * 10 + ((b - 48) as u64);
        assert(s@.subrange(from as int, i + 1 as int).drop_last() =~= s@.subrange(
            from as int,
            i as int,
        ));
        if next > max as u64 {
            proof {
                let whole = s@.subrange(from as int, s@.len() as int);
                let part = s@.subrange(from as int, i + 1 as int);
                if is_digit_seq(whole) {
                    lemma_digits_value_prefix_monotonic(whole, part.len() as int);
                    assert(whole.subrange(0, part.len() as int) =~= part);
                }
            }
            return None;
        }
        acc = next;
        i = i + 1;
        assert(is_digit_seq(s@.subrange(from as int, i as int)));
    }
    assert(s@.subrange(from as int, i as int) =~= s@.subrange(from as int, s@.len() as int));
    Some(acc as u32)
}

/// A digit sequence's value is at least the value of any of its prefixes
/// (digits only add magnitude).
proof fn lemma_digits_value_prefix_monotonic(s: Seq<u8>, k: int)
    requires
        0 <= k <= s.len(),
        is_digit_seq(s) || s.len() == 0,
    ensures
        digits_value(s) >= digits_value(s.subrange(0, k)),
        digits_value(s) >= 0,
    decreases s.len(),
{
    if s.len() == 0 {
        assert(s.subrange(0, k) =~= s);
    } else {
        lemma_digits_value_prefix_monotonic(s.drop_last(), if k < s.len() {
            k
        } else {
            s.len() - 1
        });
        if k < s.len() {
            assert(s.drop_last().subrange(0, k) =~= s.subrange(0, k));
        } else {
            assert(s.subrange(0, k) =~= s);
        }
    }
}

/// Parse a DNS opcode argument, returning the code and whether the match is
/// to be negated. Fails on an empty value, a bare negation marker, a
/// non-numeric remainder, or a value above 255.
pub fn parse_opcode(opcode: &str) -> (r: Result<DetectDnsOpcode, ()>)
    ensures
        match r {
            Ok(d) => parse_opcode_spec(opcode.spec_bytes()) == Some(d),
            Err(_) => parse_opcode_spec(opcode.spec_bytes()) is None,
        },
{
    let s = opcode.as_bytes();
    let mut negated = false;
    let mut i: usize = 0;
    while i < s.len() && (s[i] == 32 || s[i] == 9 || s[i] == 33)
        invariant
            0 <= i <= s@.len(),
            first_value_index(s@, 0) == first_value_index(s@, i as int),
            has_negation(s@, 0) == (negated || has_negation(s@, i as int)),
        decreases s@.len() - i,
    {
        if s[i] == 33 {
            negated = true;
        }
        i = i + 1;
    }
    assert(first_value_index(s@, i as int) == i);
    assert(!has_negation(s@, i as int));
    match parse_decimal(s, i, 255) {
        Some(v) => Ok(DetectDnsOpcode { negate: negated, opcode: v as u8 }),
        None => Err(()),
    }
}

/// The DNS opcode field of a header flags word: bits 11 to 14.
pub open spec fn opcode_of_flags(flags: u16) -> u8 {
    ((flags >> 11) & 0xf) as u8
}

/// Test a decoded header flags word against an opcode criterion.
pub fn match_opcode(detect: &DetectDnsOpcode, flags: u16) -> (r: bool)
    ensures
        r == if detect.negate {
            detect.opcode != opcode_of_flags(flags)
        } else {
            detect.opcode == opcode_of_flags(flags)
        },
{
    let opcode = ((flags >> 11) & 0xf) as u8;
    if detect.negate {
        detect.opcode != opcode
    } else {
        detect.opcode == opcode
    }
}

/// The index after the leading blanks of `s`.
pub open spec fn first_nonblank_index(s: Seq<u8>, i: int) -> int
    decreases s.len() - i,
{
    if i >= s.len() {
        s.len() as int
    } else if is_blank_byte(s[i]) {
        first_nonblank_index(s, i + 1)
    } else {
        i
    }
}

/// The index of the first `-` at or after `i`, or the length when none
/// remains.
pub open spec fn first_dash_index(s: Seq<u8>, i: int) -> int
    decreases s.len() - i,
{
    if i >= s.len() {
        s.len() as int
    } else if s[i] == 45 {
        i
    } else {
        first_dash_index(s, i + 1)
    }
}

/// What `detect_parse_uint` returns on the byte sequence of its argument.
/// After leading blanks: `!n` yields a not-equal criterion, `lo-hi` an
/// inclusive range (failing when `lo > hi`), and a bare number an equality;
/// numbers must fit in 16 bits.
pub open spec fn parse_uint_spec(s: Seq<u8>) -> Option<DetectUintData<u16>> {
    let i = first_nonblank_index(s, 0);
    if i < s.len() && s[i] == 33 {
        let j = first_nonblank_index(s, i + 1);
        let rest = s.subrange(j, s.len() as int);
        if is_digit_seq(rest) && digits_value(rest) <= 65535 {
            Some(
                DetectUintData {
                    arg1: digits_value(rest) as u16,
                    arg2: 0,
                    mode: DetectUintMode::DetectUintModeNe,
                },
            )
        } else {
            None
        }
    } else {
        let d = first_dash_index(s, i);
        if d < s.len() {
            let lo = s.subrange(i, d);
            let hi = s.subrange(d + 1, s.len() as int);
            if is_digit_seq(lo) && digits_value(lo) <= 65535 && is_digit_seq(hi) && digits_value(
                hi,
            ) <= 65535 && digits_value(lo) <= digits_value(hi) {
                Some(
                    DetectUintData {
                        arg1: digits_value(lo) as u16,
                        arg2: digits_value(hi) as u16,
                        mode: DetectUintMode::DetectUintModeRange,
                    },
                )
            } else {
                None
            }
        } else {
            let rest = s.subrange(i, s.len() as int);
            if is_digit_seq(rest) && digits_value(rest) <= 65535 {
                Some(
                    DetectUintData {
                        arg1: digits_value(rest) as u16,
                        arg2: 0,
                        mode: DetectUintMode::DetectUintModeEqual,
                    },
                )
            } else {
                None
            }
        }
    }
}

/// Skip blanks from `from`, returning the first non-blank index.
fn skip_blanks(s: &[u8], from: usize) -> (r: usize)
    requires
        from <= s@.len(),
    ensures
        r == first_nonblank_index(s@, from as int),
        from <= r <= s@.len(),
{
    let mut i = from;
    while i < s.len() && (s[i] == 32 || s[i] == 9)
        invariant
            from <= i <= s@.len(),
            first_nonblank_index(s@, from as int) == first_nonblank_index(s@, i as int),
        decreases s@.len() - i,
    {
        i = i + 1;
    }
    i
}

/// Parse the digits of `s` from `from` to `to` (exclusive) as a decimal
/// number at most `max`.
fn parse_decimal_range(s: &[u8], from: usize, to: usize, max: u32) -> (r: Option<u32>)
    requires
        from <= to <= s@.len(),
    ensures
        match r {
            Some(v) => {
                &&& is_digit_seq(s@.subrange(from as int, to as int))
                &&& digits_value(s@.subrange(from as int, to as int)) == v
                &&& v <= max
            },
            None => !(is_digit_seq(s@.subrange(from as int, to as int)) && digits_value(
                s@.subrange(from as int, to as int),
            ) <= max),
        },
{
    if from == to {
        assert(s@.subrange(from as int, to as int).len() == 0);
        return None;
    }
    let mut acc: u64 = 0;
    let mut i: usize = from;
    while i < to
        invariant
            from <= i <= to <= s@.len(),
            from < to,
            is_digit_seq(s@.subrange(from as int, i as int)) || i == from,
            acc == digits_value(s@.subrange(from as int, i as int)),
            acc <= max,
        decreases to - i,
    {
        let b = s[i];
        if b < 48 || b > 57 {
            assert(!is_digit_byte(s@.subrange(from as int, to as int)[i - from]));
            return None;
        }
        let next: u64 = acc * 10 + ((b - 48) as u64);
        assert(s@.subrange(from as int, i + 1 as int).drop_last() =~= s@.subrange(
            from as int,
            i as int,
        ));
        if next > max as u64 {
            proof {
                let whole = s@.subrange(from as int, to as int);
                let part = s@.subrange(from as int, i + 1 as int);
                if is_digit_seq(whole) {
                    lemma_digits_value_prefix_monotonic(whole, part.len() as int);
                    assert(whole.subrange(0, part.len() as int) =~= part);
                }
            }
            return None;
        }
        acc = next;
        i = i + 1;
        assert(is_digit_seq(s@.subrange(from as int, i as int)));
    }
    Some(acc as u32)
}

/// Find the first `-` at or after `from`, or the length when none remains.
fn find_dash(s: &[u8], from: usize) -> (r: usize)
    requires
        from <= s@.len(),
    ensures
        r == first_dash_index(s@, from as int),
        from <= r <= s@.len(),
{
    let mut i = from;
    while i < s.len() && s[i] != 45
        invariant
            from <= i <= s@.len(),
            first_dash_index(s@, from as int) == first_dash_index(s@, i as int),
        decreases s@.len() - i,
    {
        i = i + 1;
    }
    i
}

/// Parse a textual unsigned-integer criterion. The unit first component of
/// the `Ok` pair stands where a remainder would: the whole argument is
/// always consumed.
pub fn detect_parse_uint(arg: &str) -> (r: Result<((), DetectUintData<u16>), ()>)
    ensures
        match r {
            Ok(p) => parse_uint_spec(arg.spec_bytes()) == Some(p.1),
            Err(_) => parse_uint_spec(arg.spec_bytes()) is None,
        },
{
    let s = arg.as_bytes();
    let i = skip_blanks(s, 0);
    if i < s.len() && s[i] == 33 {
        let j = skip_blanks(s, i + 1);
        match parse_decimal(s, j, 65535) {
            Some(v) => Ok(
                (
                    (),
                    DetectUintData {
                        arg1: v as u16,
                        arg2: 0,
                        mode: DetectUintMode::DetectUintModeNe,
                    },
                ),
            ),
            None => Err(()),
        }
    } else {
        let d = find_dash(s, i);
        if d < s.len() {
            let lo = match parse_decimal_range(s, i, d, 65535) {
                Some(v) => v,
                None => {
                    return Err(());
                },
            };
            let hi = match parse_decimal_range(s, d + 1, s.len(), 65535) {
                Some(v) => v,
                None => {
                    return Err(());
                },
            };
            assert(s@.subrange(d + 1 as int, s@.len() as int) =~= s@.subrange(
                d + 1,
                s@.len() as int,
            ));
            if lo > hi {
                return Err(());
            }
            Ok(
                (
                    (),
                    DetectUintData {
                        arg1: lo as u16,
                        arg2: hi as u16,
                        mode: DetectUintMode::DetectUintModeRange,
                    },
                ),
            )
        } else {
            match parse_decimal(s, i, 65535) {
                Some(v) => Ok(
                    (
                        (),
                        DetectUintData {
                            arg1: v as u16,
                            arg2: 0,
                            mode: DetectUintMode::DetectUintModeEqual,
                        },
                    ),
                ),
                None => Err(()),
            }
        }
    }
}

/// What `detect_match_uint` decides: equality, inequality, or membership in
/// the inclusive range.
pub open spec fn match_uint_spec(detect: DetectUintData<u16>, val: u16) -> bool {
    match detect.mode {
        DetectUintMode::DetectUintModeEqual => val == detect.arg1,
        DetectUintMode::DetectUintModeNe => val != detect.arg1,
        DetectUintMode::DetectUintModeRange => detect.arg1 <= val && val <= detect.arg2,
    }
}

/// Test a decoded value against an unsigned-integer criterion.
pub fn detect_match_uint(detect: &DetectUintData<u16>, val: u16) -> (r: bool)
    ensures
        r == match_uint_spec(*detect, val),
{
    match detect.mode {
        DetectUintMode::DetectUintModeEqual => val == detect.arg1,
        DetectUintMode::DetectUintModeNe => val != detect.arg1,
        DetectUintMode::DetectUintModeRange => detect.arg1 <= val && val <= detect.arg2,
    }
}

/// True when any decoded record type in the list satisfies the criterion.
pub open spec fn spec_any_rrtype_matches(detect: DetectUintData<u16>, rrtypes: Seq<u16>) -> bool {
    exists|i: int| 0 <= i < rrtypes.len() && match_uint_spec(detect, #[trigger] rrtypes[i])
}

/// Test every decoded record type of one direction against a criterion:
/// one matching entry suffices. Returns one on a match, zero otherwise.
pub fn match_rrtypes(detect: &DetectUintData<u16>, rrtypes: &Vec<u16>) -> (r: u16)
    ensures
        r == if spec_any_rrtype_matches(*detect, rrtypes@) {
            1u16
        } else {
            0u16
        },
{
    let mut i: usize = 0;
    while i < rrtypes.len()
        invariant
            0 <= i <= rrtypes@.len(),
            forall|k: int| 0 <= k < i ==> !match_uint_spec(*detect, #[trigger] rrtypes@[k]),
        decreases rrtypes@.len() - i,
    {
        if detect_match_uint(detect, rrtypes[i]) {
            return 1;
        }
        i = i + 1;
    }
    0
}

} // verus!
