//! The modifier terms of a roll expression: `+12-3+1`.

use crate::text::{all_digits, digits_value, is_digit, lemma_digits_end, scan_digits};
use vstd::prelude::*;
use vstd::slice::slice_subrange;

verus! {

/// The sign that opens a modifier term.
pub open spec fn is_sign(c: char) -> bool {
    c == '+' || c == '-'
}

/// The index of the first sign at or after `from`, or the length of `s`
/// where none follows.
pub open spec fn next_sign(s: Seq<char>, from: int) -> int
    decreases s.len() - from,
{
    if 0 <= from < s.len() && !is_sign(s[from]) {
        next_sign(s, from + 1)
    } else {
        from
    }
}

/// The number that a single term stands for: an optional sign and then
/// digits, read as a machine integer. A term that is no such integer, or
/// does not fit in one, counts as zero.
pub open spec fn term_value(t: Seq<char>) -> int {
    let signed = t.len() > 0 && is_sign(t[0]);
    let digits = if signed {
        t.skip(1)
    } else {
        t
    };
    let magnitude = digits_value(digits) as int;
    let value = if signed && t[0] == '-' {
        -magnitude
    } else {
        magnitude
    };
    if digits.len() > 0 && all_digits(digits) && isize::MIN <= value <= isize::MAX {
        value
    } else {
        0
    }
}

/// The sums of the modifier terms: what is added, and what is taken away.
pub struct Modifiers {
    /// The sum of the terms above zero.
    pub inc: int,
    /// The sum of the other terms: zero or below.
    pub dec: int,
}

/// The sums of the terms of `s` from the term that starts at `from`. A
/// term runs up to the next sign.
pub open spec fn modifiers_from(s: Seq<char>, from: int) -> Modifiers
    decreases s.len() - from,
{
    if 0 <= from < s.len() {
        let end = next_sign(s, from + 1);
        if from < end <= s.len() {
            let value = term_value(s.subrange(from, end));
            let rest = modifiers_from(s, end);
            if value > 0 {
                Modifiers { inc: rest.inc + value, dec: rest.dec }
            } else {
                Modifiers { inc: rest.inc, dec: rest.dec + value }
            }
        } else {
            Modifiers { inc: 0, dec: 0 }
        }
    } else {
        Modifiers { inc: 0, dec: 0 }
    }
}

/// The sums of all the terms of `s`.
pub open spec fn modifiers_of(s: Seq<char>) -> Modifiers {
    modifiers_from(s, 0)
}

/// Both sums fit in a machine integer.
pub open spec fn modifiers_fit(m: Modifiers) -> bool {
    m.inc <= isize::MAX && isize::MIN <= m.dec
}

/// `next_sign` stops inside the sequence and passes over no sign.
pub proof fn lemma_next_sign(s: Seq<char>, from: int)
    requires
        0 <= from <= s.len(),
    ensures
        from <= next_sign(s, from) <= s.len(),
        next_sign(s, from) < s.len() ==> is_sign(s[next_sign(s, from)]),
        forall|i: int| from <= i < next_sign(s, from) ==> !is_sign(#[trigger] s[i]),
    decreases s.len() - from,
{
    if from < s.len() && !is_sign(s[from]) {
        lemma_next_sign(s, from + 1);
    }
}

/// What is added is never below zero, what is taken away never above.
pub proof fn lemma_modifiers_signs(s: Seq<char>, from: int)
    ensures
        modifiers_from(s, from).inc >= 0,
        modifiers_from(s, from).dec <= 0,
    decreases s.len() - from,
{
    if 0 <= from < s.len() {
        lemma_next_sign(s, from + 1);
        lemma_modifiers_signs(s, next_sign(s, from + 1));
    }
}

/// The number that one term stands for.
pub(crate) fn eval_term(term: &[char]) -> (r: isize)
    ensures
        r == term_value(term@),
{
    let n = term.len();
    if n == 0 {
        return 0;
    }
    let signed = term[0] == '+' || term[0] == '-';
    let negative = term[0] == '-';
    let digits = if signed {
        slice_subrange(term, 1, n)
    } else {
        term
    };
    proof {
        if signed {
            assert(digits@ =~= term@.skip(1));
        }
        lemma_digits_end(digits@, 0);
    }
    let run = scan_digits(digits, 0);
    if digits.len() == 0 || run.end != digits.len() {
        proof {
            if digits.len() > 0 {
                assert(!is_digit(digits@[run.end as int]));
            }
        }
        return 0;
    }
    assert(digits@.subrange(0, run.end as int) =~= digits@);
    match run.value {
        None => 0,
        Some(magnitude) => {
            if negative {
                if magnitude <= (isize::MAX as u64) + 1 {
                    (-(magnitude as i128)) as isize
                } else {
                    0
                }
            } else {
                if magnitude <= isize::MAX as u64 {
                    magnitude as isize
                } else {
                    0
                }
            }
        },
    }
}

/// The sums of the modifier terms of `mods`, or `None` where one of the
/// two sums does not fit in a machine integer.
pub fn checked_modifiers(mods: &[char]) -> (r: Option<(isize, isize)>)
    ensures
        match r {
            Some(sums) => modifiers_fit(modifiers_of(mods@)) && sums.0 == modifiers_of(mods@).inc
                && sums.1 == modifiers_of(mods@).dec,
            None => !modifiers_fit(modifiers_of(mods@)),
        },
{
    let n = mods.len();
    let mut inc: isize = 0;
    let mut dec: isize = 0;
    let mut start: usize = 0;
    while start < n
        invariant
            n == mods@.len(),
            start <= n,
            0 <= inc,
            dec <= 0,
            modifiers_of(mods@).inc == inc + modifiers_from(mods@, start as int).inc,
            modifiers_of(mods@).dec == dec + modifiers_from(mods@, start as int).dec,
        decreases n - start,
    {
        let mut end: usize = start + 1;
        while end < n && mods[end] != '+' && mods[end] != '-'
            invariant
                n == mods@.len(),
                start < end <= n,
                next_sign(mods@, start + 1) == next_sign(mods@, end as int),
            decreases n - end,
        {
            end += 1;
        }
        let value = eval_term(slice_subrange(mods, start, end));
        proof {
            lemma_modifiers_signs(mods@, end as int);
        }
        if value > 0 {
            match inc.checked_add(value) {
                Some(sum) => {
                    inc = sum;
                },
                None => {
                    return None;
                },
            }
        } else {
            match dec.checked_add(value) {
                Some(sum) => {
                    dec = sum;
                },
                None => {
                    return None;
                },
            }
        }
        start = end;
    }
    Some((inc, dec))
}

/// The sums of the modifier terms of `mods_str`: first what the terms
/// above zero add up to, then the sum of the others.
pub fn parse_modifiers(mods_str: String) -> (r: (isize, isize))
    requires
        modifiers_fit(modifiers_of(mods_str@)),
    ensures
        r.0 == modifiers_of(mods_str@).inc,
        r.1 == modifiers_of(mods_str@).dec,
{
    let chars = crate::text::chars_of(mods_str.as_str());
    match checked_modifiers(chars.as_slice()) {
        Some(sums) => sums,
        None => (0, 0),
    }
}

} // verus!
