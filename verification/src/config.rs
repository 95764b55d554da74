use vstd::prelude::*;

verus! {

/// `b` spells a decimal digit.
pub open spec fn is_digit(b: u8) -> bool {
    48 <= b <= 57
}

/// The value a digit byte spells.
pub open spec fn digit_val(b: u8) -> nat {
    if is_digit(b) {
        (b - 48) as nat
    } else {
        0
    }
}

/// Every byte spells a decimal digit.
pub open spec fn all_digits(s: Seq<u8>) -> bool {
    forall|i: int| 0 <= i < s.len() ==> is_digit(s[i])
}

/// The number a digit string spells, most significant digit first.
pub open spec fn spec_digits_value(s: Seq<u8>) -> nat
    recommends
        all_digits(s),
    decreases s.len(),
{
    if s.len() == 0 {
        0
    } else {
        spec_digits_value(s.drop_last()) * 10 + digit_val(s.last())
    }
}

/// A digit string spells at least as much as any of its prefixes.
proof fn lemma_digits_value_prefix(s: Seq<u8>, i: int)
    requires
        0 <= i <= s.len(),
    ensures
        spec_digits_value(s.take(i)) <= spec_digits_value(s),
    decreases s.len() - i,
{
    if i == s.len() {
        assert(s.take(i) =~= s);
    } else {
        assert(s.take(i + 1).drop_last() =~= s.take(i));
        assert(s.take(i + 1).last() == s[i]);
        lemma_digits_value_prefix(s, i + 1);
    }
}

/// What parsing the worker-count text yields: the value it spells
/// when the text is an optional plus sign followed by decimal digits
/// and the value fits sixteen bits; nothing otherwise.
pub open spec fn spec_parse_u16(s: Seq<u8>) -> Option<u16> {
    let digits = if s.len() > 0 && s[0] == 43 {
        s.drop_first()
    } else {
        s
    };
    if digits.len() > 0 && all_digits(digits) && spec_digits_value(digits) <= 65535 {
        Option::Some(spec_digits_value(digits) as u16)
    } else {
        Option::None
    }
}

/// Parses the worker-count text as an unsigned 16-bit decimal number.
pub fn parse_u16(s: &Vec<u8>) -> (r: Option<u16>)
    ensures
        r == spec_parse_u16(s@),
{
    let start: usize = if s.len() > 0 && s[0] == 43 {
        1
    } else {
        0
    };
    let ghost digits = if s@.len() > 0 && s@[0] == 43 {
        s@.drop_first()
    } else {
        s@
    };
    assert(digits =~= s@.skip(start as int));
    if s.len() == start {
        assert(digits.len() == 0);
        return Option::None;
    }
    let mut acc: u32 = 0;
    let mut i: usize = start;
    assert(digits.take(0) =~= Seq::<u8>::empty());
    while i < s.len()
        invariant
            start <= i <= s@.len(),
            start <= 1,
            digits == s@.skip(start as int),
            digits == (if s@.len() > 0 && s@[0] == 43 {
                s@.drop_first()
            } else {
                s@
            }),
            s@.len() > start,
            acc <= 65535,
            forall|j: int| 0 <= j < i - start ==> is_digit(digits[j]),
            acc as nat == spec_digits_value(digits.take(i - start)),
        decreases s@.len() - i,
    {
        let b = s[i];
        if b < 48 || b > 57 {
            assert(!is_digit(digits[i - start]));
            return Option::None;
        }
        let d: u32 = (b - 48) as u32;
        proof {
            assert(digits.take(i - start + 1).drop_last() =~= digits.take(i - start));
            assert(digits.take(i - start + 1).last() == digits[i - start]);
        }
        let new_acc: u32 = acc * 10 + d;
        if new_acc > 65535 {
            proof {
                lemma_digits_value_prefix(digits, i - start + 1);
                assert(spec_digits_value(digits) > 65535);
            }
            return Option::None;
        }
        acc = new_acc;
        i += 1;
    }
    assert(digits.take(i - start) =~= digits);
    Option::Some(acc as u16)
}

/// The worker count the scan runs with: the parsed value, clamped to
/// at least one; absent or unparsable text counts as one.
pub fn worker_count_from_arg(arg: Option<&Vec<u8>>) -> (n: u16)
    ensures
        n >= 1,
        match arg {
            Option::Some(s) => match spec_parse_u16(s@) {
                Option::Some(v) => n == if v == 0 {
                    1u16
                } else {
                    v
                },
                Option::None => n == 1,
            },
            Option::None => n == 1,
        },
{
    match arg {
        Option::None => 1,
        Option::Some(s) => match parse_u16(s) {
            Option::None => 1,
            Option::Some(v) => if v == 0 {
                1
            } else {
                v
            },
        },
    }
}

} // verus!
