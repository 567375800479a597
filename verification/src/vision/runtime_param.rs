//! The runtime parameter of the cross function, read from text.
use vstd::prelude::*;
use vstd::string::*;

use crate::params::ParamError;
use crate::text::{int_decimal, nat_decimal, push_decimal_i64};
use crate::vision::qr::lemma_nat_decimal_reads_back;

verus! {

pub open spec fn is_digit(c: char) -> bool {
    '0' <= c <= '9'
}

/// The value of a string of decimal digits.
pub open spec fn digits_value(s: Seq<char>) -> nat
    decreases s.len(),
{
    if s.len() == 0 {
        0
    } else {
        digits_value(s.drop_last()) * 10 + ((s.last() as int) - ('0' as int)) as nat
    }
}

/// The digits part of a decimal text: the text without one leading `+`.
pub open spec fn digits_part(s: Seq<char>) -> Seq<char> {
    if s.len() > 0 && s[0] == '+' {
        s.drop_first()
    } else {
        s
    }
}

/// A `u8` read from text as std reads it: an optional `+`, then one or more
/// decimal digits whose value is at most 255.
pub open spec fn parse_u8_spec(s: Seq<char>) -> Option<u8> {
    let d = digits_part(s);
    if d.len() == 0 || exists|i: int| 0 <= i < d.len() && !is_digit(d[i]) {
        None
    } else if digits_value(d) > 255 {
        None
    } else {
        Some(digits_value(d) as u8)
    }
}

/// The largest runtime parameter of the cross function.
pub open spec fn max_cross_param() -> nat {
    5
}

/// The refusal of a runtime parameter text, if any.
pub open spec fn cross_param_error(s: Seq<char>) -> Option<Seq<char>> {
    match parse_u8_spec(s) {
        None => Some("runtime_param `"@ + s + "` is not an integer"@),
        Some(v) => if v > 5 {
            Some("runtime_param must be between 0 and 5, got "@ + int_decimal(v as int))
        } else {
            None
        },
    }
}

spec fn start_of(plus: bool) -> int {
    if plus { 1 } else { 0 }
}

pub(crate) proof fn lemma_digits_push(p: Seq<char>, c: char)
    requires
        is_digit(c),
    ensures
        digits_value(p.push(c)) == digits_value(p) * 10 + ((c as int) - ('0' as int)),
        digits_value(p.push(c)) >= digits_value(p),
{
    assert(p.push(c).drop_last() =~= p);
}

/// Reads the runtime parameter of the cross function: an integer from 0 through 5.
pub fn parse_cross_runtime_param(s: &str) -> (r: Result<u8, ParamError>)
    ensures
        match cross_param_error(s@) {
            None => r matches Ok(v) && Some(v) == parse_u8_spec(s@),
            Some(m) => r matches Err(e) && e.message@ == m,
        },
{
    let ghost d = digits_part(s@);
    let mut first = true;
    let mut plus = false;
    let mut digits = false;
    let mut value: u32 = 0;
    let mut over = false;
    let mut bad = false;
    for c in it: s.chars()
        invariant
            it.seq() == s@,
            d == digits_part(s@),
            first <==> it.index() == 0,
            plus <==> (s@.len() > 0 && s@[0] == '+' && it.index() > 0),
            start_of(plus) <= it.index(),
            digits <==> start_of(plus) < it.index(),
            !bad ==> forall|i: int| start_of(plus) <= i < it.index() ==> is_digit(s@[i]),
            bad ==> exists|i: int| start_of(plus) <= i < it.index() && !is_digit(s@[i]),
            !bad && !over ==> value as nat == digits_value(s@.subrange(start_of(plus), it.index() as int))
                && value <= 255,
            !bad && over ==> digits_value(s@.subrange(start_of(plus), it.index() as int)) > 255,
    {
        let ghost pos = it.index();
        let ghost start: int = start_of(plus);
        assert(c == s@[pos]);
        if first && c == '+' {
            plus = true;
            assert(s@.subrange(1, 1) =~= Seq::<char>::empty());
        } else {
            digits = true;
            if !('0' <= c && c <= '9') {
                assert(start <= pos && !is_digit(s@[pos]));
                bad = true;
            } else if !bad && !over {
                proof {
                    assert(s@.subrange(start, pos + 1) =~= s@.subrange(start, pos).push(c));
                    lemma_digits_push(s@.subrange(start, pos), c);
                }
                value = value * 10 + (c as u32 - '0' as u32);
                if value > 255 {
                    over = true;
                }
            } else if !bad {
                proof {
                    assert(s@.subrange(start, pos + 1) =~= s@.subrange(start, pos).push(c));
                    lemma_digits_push(s@.subrange(start, pos), c);
                }
            }
        }
        first = false;
    }
    let ghost start: int = start_of(plus);
    assert(d =~= s@.subrange(start, s@.len() as int));
    if bad || !digits || over {
        proof {
            if bad {
                let i = choose|i: int| start <= i < s@.len() && !is_digit(s@[i]);
                assert(i < s@.len());
                assert(!is_digit(d[i - start]));
            }
        }
        let mut m = String::from_str("runtime_param `");
        m.append(s);
        m.append("` is not an integer");
        return Err(ParamError { message: m });
    }
    if value > 5 {
        let mut m = String::from_str("runtime_param must be between 0 and 5, got ");
        push_decimal_i64(&mut m, value as i64);
        return Err(ParamError { message: m });
    }
    Ok(value as u8)
}

/// The cross runtime parameter accepts exactly 0 through 5: any byte written
/// in decimal reads back as itself, and is accepted exactly when it is at most
/// 5; whatever text is accepted reads as a number from 0 through 5.
pub proof fn lemma_cross_param_range(v: u8, s: Seq<char>)
    ensures
        parse_u8_spec(nat_decimal(v as nat)) == Some(v),
        cross_param_error(nat_decimal(v as nat)) is None <==> v <= 5,
        cross_param_error(s) is None ==> (parse_u8_spec(s) matches Some(x) && x <= 5),
{
    lemma_nat_decimal_reads_back(v as nat);
    let t = nat_decimal(v as nat);
    assert(is_digit(t[0]));
    assert(digits_part(t) == t);
}

} // verus!
