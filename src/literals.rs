use crate::chars::{byte_offset, digit_value, is_alnum};
use crate::interning::InternedStr;
use crate::lexer::{
    base_prefix, location_at, scan, scan_digits, step, valid, Cursor, LexerError, LexerErrorKind,
    Location, Token, TokenKind,
};
use vstd::prelude::*;

verus! {

/// Every character of `ds` is a digit of `base`.
pub open spec fn all_digits(ds: Seq<char>, base: u32) -> bool {
    forall|i: int| 0 <= i < ds.len() ==> digit_value(#[trigger] ds[i], base) is Some
}

/// The value of the digits `ds` in `base`, read on after the value `v`.
pub open spec fn digits_value(v: int, ds: Seq<char>, base: u32) -> int
    decreases ds.len(),
{
    if ds.len() == 0 {
        v
    } else {
        digits_value(v * base + digit_value(ds[0], base).unwrap(), ds.drop_first(), base)
    }
}

proof fn lemma_digits_value_grows(v: int, ds: Seq<char>, base: u32)
    requires
        v >= 0,
        base >= 1,
    ensures
        digits_value(v, ds, base) >= v,
    decreases ds.len(),
{
    if ds.len() > 0 {
        let d = digit_value(ds[0], base).unwrap();
        assert(v * base >= v) by (nonlinear_arith)
            requires
                v >= 0,
                base >= 1,
        ;
        lemma_digits_value_grows(v * base + d, ds.drop_first(), base);
    }
}

/// A digit of a base up to 36 is an ASCII letter or digit.
proof fn lemma_digit_is_alnum(c: char, base: u32)
    requires
        digit_value(c, base) is Some,
        base <= 36,
    ensures
        is_alnum(c),
{
}

/// Reading the digits from `c` up to index `e` gives their value, or fails at
/// `start` where that value passes `u64::MAX`; the character at `e`, if it is
/// alphanumeric, is no digit of `base` and fails where it stands.
proof fn lemma_scan_digits(
    src: Seq<char>,
    c: Cursor,
    e: int,
    base: u32,
    value: u64,
    start: Location,
)
    requires
        valid(src, c),
        c.index <= e <= src.len(),
        2 <= base <= 16,
        all_digits(src.subrange(c.index as int, e), base),
        e == src.len() || !is_alnum(src[e]) || digit_value(src[e], base) is None,
    ensures
        ({
            let total = digits_value(value as int, src.subrange(c.index as int, e), base);
            let r = scan_digits(src, c, base, value, start).0;
            &&& total > u64::MAX ==> r == Err::<u64, LexerError>(
                LexerError { kind: LexerErrorKind::IntegerTooLarge, location: start },
            )
            &&& total <= u64::MAX && (e == src.len() || !is_alnum(src[e])) ==> r == Ok::<
                u64,
                LexerError,
            >(total as u64)
            &&& total <= u64::MAX && e < src.len() && is_alnum(src[e]) ==> r == Err::<
                u64,
                LexerError,
            >(
                LexerError {
                    kind: LexerErrorKind::DigitTooLarge { base: base as u8 },
                    location: location_at(src, c.location.filepath, e),
                },
            )
        }),
    decreases src.len() - c.index,
{
    let ds = src.subrange(c.index as int, e);
    if c.index < e {
        assert(ds[0] == src[c.index as int]);
        lemma_digit_is_alnum(src[c.index as int], base);
        let d = digit_value(src[c.index as int], base).unwrap();
        let v = value * base + d;
        let c1 = step(src, c);
        assert(ds.drop_first() =~= src.subrange(c1.index as int, e));
        lemma_digits_value_grows(v, ds.drop_first(), base);
        if v <= u64::MAX {
            assert(valid(src, c1)) by {
                crate::chars::lemma_byte_offset_mono(src, c.index + 1, src.len() as int);
            }
            assert forall|i: int| 0 <= i < e - c1.index implies digit_value(
                #[trigger] src.subrange(c1.index as int, e)[i],
                base,
            ) is Some by {
                assert(src.subrange(c1.index as int, e)[i] == ds[i + 1]);
            }
            lemma_scan_digits(src, c1, e, base, v as u64, start);
        }
    } else {
        assert(c.location == location_at(src, c.location.filepath, e));
    }
}

/// The cursor at the start of a source.
pub open spec fn start_cursor(filepath: InternedStr) -> Cursor {
    Cursor { index: 0, location: Location { filepath, position: 0, line: 1, column: 1 } }
}

/// An integer literal `prefix + ds`, with no prefix (decimal) or with one of
/// `0x`, `0d`, `0o` and `0b` (bases 16, 10, 8, 2), at the start of a source that
/// goes on with `rest`: it scans to the value of its digits in that base; where
/// that value passes `u64::MAX` it fails with `IntegerTooLarge` at the literal's
/// first character; where `rest` goes on with a letter or digit that is no digit
/// of the base, it fails with `DigitTooLarge` at that character.
pub proof fn lemma_integer_literal(
    filepath: InternedStr,
    names: Seq<Seq<char>>,
    prefix: Seq<char>,
    ds: Seq<char>,
    rest: Seq<char>,
    base: u32,
)
    requires
        (prefix.len() == 0 && base == 10 && ds.len() > 0 && (ds[0] != '0' || ds.len() > 1
            || rest.len() == 0 || base_prefix(rest[0]) is None)) || (prefix.len() == 2 && prefix[0]
            == '0' && base_prefix(prefix[1]) == Some(base)),
        all_digits(ds, base),
        rest.len() == 0 || !is_alnum(rest[0]) || digit_value(rest[0], base) is None,
        (prefix + ds + rest).len() < usize::MAX,
        byte_offset(prefix + ds + rest, (prefix + ds + rest).len() as int) <= usize::MAX,
    ensures
        ({
            let src = prefix + ds + rest;
            let total = digits_value(0, ds, base);
            let r = scan(src, start_cursor(filepath), names).0;
            let at = start_cursor(filepath).location;
            &&& total > u64::MAX ==> r == Err::<Token, LexerError>(
                LexerError { kind: LexerErrorKind::IntegerTooLarge, location: at },
            )
            &&& total <= u64::MAX && (rest.len() == 0 || !is_alnum(rest[0])) ==> r == Ok::<
                Token,
                LexerError,
            >(Token { kind: TokenKind::Integer(total as u64), location: at })
            &&& total <= u64::MAX && rest.len() > 0 && is_alnum(rest[0]) ==> r == Err::<
                Token,
                LexerError,
            >(
                LexerError {
                    kind: LexerErrorKind::DigitTooLarge { base: base as u8 },
                    location: location_at(src, filepath, (prefix.len() + ds.len()) as int),
                },
            )
        }),
{
    let src = prefix + ds + rest;
    let c = start_cursor(filepath);
    let at = c.location;
    let e = (prefix.len() + ds.len()) as int;
    assert(valid(src, c));
    let c1 = step(src, c);
    assert(valid(src, c1)) by {
        crate::chars::lemma_byte_offset_mono(src, 1, src.len() as int);
    }
    assert(e == src.len() || src[e] == rest[0]);
    if prefix.len() == 0 {
        assert(src[0] == ds[0]);
        lemma_digit_is_alnum(ds[0], base);
        let d0 = digit_value(ds[0], 10).unwrap();
        if ds.len() > 1 {
            assert(src[1] == ds[1]);
            lemma_digit_is_alnum(ds[1], base);
        } else if rest.len() > 0 {
            assert(src[1] == rest[0]);
        }
        assert(ds.drop_first() =~= src.subrange(1, e));
        assert(all_digits(src.subrange(1, e), base)) by {
            assert forall|i: int| 0 <= i < e - 1 implies digit_value(
                #[trigger] src.subrange(1, e)[i],
                base,
            ) is Some by {
                assert(src.subrange(1, e)[i] == ds[i + 1]);
            }
        }
        lemma_scan_digits(src, c1, e, base, d0 as u64, at);
    } else {
        assert(src[0] == '0' && src[1] == prefix[1]);
        let c2 = step(src, c1);
        assert(valid(src, c2)) by {
            crate::chars::lemma_byte_offset_mono(src, 2, src.len() as int);
        }
        assert(ds =~= src.subrange(2, e));
        lemma_scan_digits(src, c2, e, base, 0, at);
    }
}

} // verus!
