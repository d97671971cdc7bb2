//! The notation of a roll: `XdY`, then modifier terms, then `#` and a
//! target number. `2d20+12-3#10` asks for two dice with twenty faces, adds
//! twelve, takes three away and holds the result against ten.

use crate::dice::{DiceRoll, DiceRollError, DiceRollType, RollView};
use crate::modifiers::{checked_modifiers, is_sign, modifiers_fit, modifiers_of};
use crate::text::{
    all_digits, chars_of, digits_end, digits_value, is_digit, lemma_digits_end, scan_digits,
};
use vstd::prelude::*;
use vstd::slice::slice_subrange;

verus! {

/// The letter between the number of dice and the number of faces.
pub open spec fn is_separator(c: char) -> bool {
    c == 'd' || c == 'D'
}

/// Any number of modifier terms, each a sign and then at least one digit,
/// with nothing between them.
pub open spec fn is_modifier_run(m: Seq<char>) -> bool {
    &&& forall|i: int| 0 <= i < m.len() ==> is_sign(#[trigger] m[i]) || is_digit(m[i])
    &&& m.len() > 0 ==> is_sign(m[0])
    &&& forall|i: int|
        0 <= i < m.len() && is_sign(#[trigger] m[i]) ==> i + 1 < m.len() && is_digit(m[i + 1])
}

/// The parts of a roll expression.
pub struct RollText {
    /// The digits in front of the separator; none where one die is meant.
    pub qty: Seq<char>,
    /// The digits behind the separator.
    pub die: Seq<char>,
    /// The modifier terms.
    pub mods: Seq<char>,
    /// The digits behind `#`, where there is a `#`.
    pub target: Option<Seq<char>>,
}

impl RollText {
    /// Each part is what the notation asks of it.
    pub open spec fn well_formed(self) -> bool {
        &&& all_digits(self.qty)
        &&& self.die.len() > 0
        &&& all_digits(self.die)
        &&& is_modifier_run(self.mods)
        &&& self.target matches Some(t) ==> t.len() > 0 && all_digits(t)
    }

    /// What follows the modifiers: `#` and the target, or nothing.
    pub open spec fn target_text(self) -> Seq<char> {
        match self.target {
            Some(t) => seq!['#'] + t,
            None => Seq::empty(),
        }
    }

    /// The parts written one after the other, with `sep` as the separator.
    pub open spec fn spelled(self, sep: char) -> Seq<char> {
        self.qty + seq![sep] + self.die + self.mods + self.target_text()
    }

    /// The number of dice: one where no number is given.
    pub open spec fn quantity(self) -> int {
        if self.qty.len() == 0 {
            1
        } else {
            digits_value(self.qty) as int
        }
    }

    /// The target number: zero where none is given, and where the one
    /// given does not fit in a machine integer.
    pub open spec fn target_number(self) -> int {
        match self.target {
            Some(t) => if digits_value(t) <= isize::MAX {
                digits_value(t) as int
            } else {
                0
            },
            None => 0,
        }
    }

    /// The roll that the parts ask for: a sum, not yet made. There is
    /// none where there is no die or no face, or where a number does not
    /// fit in a machine integer.
    pub open spec fn request(self) -> Option<RollView> {
        let m = modifiers_of(self.mods);
        if 1 <= self.quantity() <= isize::MAX && 1 <= digits_value(self.die) <= isize::MAX
            && modifiers_fit(m) {
            Some(
                RollView {
                    dice_qty: self.quantity(),
                    dice_type: digits_value(self.die) as int,
                    inc: m.inc,
                    dec: m.dec,
                    tn: self.target_number(),
                    roll_type: DiceRollType::Sum,
                    roll_results: Seq::empty(),
                    final_result: 0,
                },
            )
        } else {
            None
        }
    }
}

/// `s` is the roll expression with the parts `p`.
pub open spec fn spells(s: Seq<char>, p: RollText) -> bool {
    p.well_formed() && (s == p.spelled('d') || s == p.spelled('D'))
}

/// The index of the first character at or after `from` that is neither
/// a sign nor a digit, or the length of `s`.
pub open spec fn run_end(s: Seq<char>, from: int) -> int
    decreases s.len() - from,
{
    if 0 <= from < s.len() && (is_sign(s[from]) || is_digit(s[from])) {
        run_end(s, from + 1)
    } else {
        from
    }
}

/// The parts of `s`, found from left to right: digits, the separator,
/// digits, signs and digits, and what is left. `None` where `s` is no
/// roll expression.
pub open spec fn parts_of(s: Seq<char>) -> Option<RollText> {
    let sep = digits_end(s, 0);
    if 0 <= sep < s.len() && is_separator(s[sep]) {
        let mods_at = digits_end(s, sep + 1);
        let hash = run_end(s, mods_at);
        let p = RollText {
            qty: s.subrange(0, sep),
            die: s.subrange(sep + 1, mods_at),
            mods: s.subrange(mods_at, hash),
            target: if hash < s.len() {
                Some(s.subrange(hash + 1, s.len() as int))
            } else {
                None
            },
        };
        if p.well_formed() && (hash < s.len() ==> s[hash] == '#') {
            Some(p)
        } else {
            None
        }
    } else {
        None
    }
}

/// The roll that `s` asks for, where `s` is a roll expression whose
/// numbers can be held.
pub open spec fn roll_of(s: Seq<char>) -> Option<RollView> {
    match parts_of(s) {
        Some(p) => p.request(),
        None => None,
    }
}

/// `run_end` stops inside the sequence, on a character that is neither
/// sign nor digit, and passes over signs and digits only.
pub proof fn lemma_run_end(s: Seq<char>, from: int)
    requires
        0 <= from <= s.len(),
    ensures
        from <= run_end(s, from) <= s.len(),
        forall|i: int| from <= i < run_end(s, from) ==> is_sign(#[trigger] s[i]) || is_digit(s[i]),
        run_end(s, from) < s.len() ==> !is_sign(s[run_end(s, from)]) && !is_digit(
            s[run_end(s, from)],
        ),
    decreases s.len() - from,
{
    if from < s.len() && (is_sign(s[from]) || is_digit(s[from])) {
        lemma_run_end(s, from + 1);
    }
}

/// Where only digits stand from `from` up to `end`, and no digit stands
/// at `end`, the digits end at `end`.
pub proof fn lemma_digits_end_at(s: Seq<char>, from: int, end: int)
    requires
        0 <= from <= end <= s.len(),
        forall|i: int| from <= i < end ==> is_digit(#[trigger] s[i]),
        end < s.len() ==> !is_digit(s[end]),
    ensures
        digits_end(s, from) == end,
    decreases end - from,
{
    if from < end {
        lemma_digits_end_at(s, from + 1, end);
    }
}

/// Where only signs and digits stand from `from` up to `end`, and
/// neither stands at `end`, the signs and digits end at `end`.
pub proof fn lemma_run_end_at(s: Seq<char>, from: int, end: int)
    requires
        0 <= from <= end <= s.len(),
        forall|i: int| from <= i < end ==> is_sign(#[trigger] s[i]) || is_digit(s[i]),
        end < s.len() ==> !is_sign(s[end]) && !is_digit(s[end]),
    ensures
        run_end(s, from) == end,
    decreases end - from,
{
    if from < end {
        lemma_run_end_at(s, from + 1, end);
    }
}

/// The parts that are found in a text spell that text: what `parts_of`
/// accepts is a roll expression.
pub proof fn lemma_parts_spell(s: Seq<char>)
    requires
        parts_of(s) is Some,
    ensures
        spells(s, parts_of(s).unwrap()),
{
    let sep = digits_end(s, 0);
    lemma_digits_end(s, 0);
    lemma_digits_end(s, sep + 1);
    lemma_run_end(s, digits_end(s, sep + 1));
    let p = parts_of(s).unwrap();
    assert(s =~= p.spelled(s[sep]));
}

/// A roll expression has its parts in one way only, and `parts_of`
/// finds them: every roll expression is accepted.
pub proof fn lemma_spelled_parts(s: Seq<char>, p: RollText)
    requires
        spells(s, p),
    ensures
        parts_of(s) == Some(p),
{
    let c = if s == p.spelled('d') {
        'd'
    } else {
        'D'
    };
    let sep = p.qty.len() as int;
    let mods_at = sep + 1 + p.die.len();
    let hash = mods_at + p.mods.len();
    assert(s.len() == hash + p.target_text().len());
    assert(forall|i: int| 0 <= i < sep ==> s[i] == p.qty[i]);
    assert(s[sep] == c);
    assert(forall|i: int| sep + 1 <= i < mods_at ==> s[i] == p.die[i - (sep + 1)]);
    assert(forall|i: int| mods_at <= i < hash ==> s[i] == p.mods[i - mods_at]);
    assert(hash < s.len() ==> s[hash] == '#');
    if p.mods.len() > 0 {
        assert(s[mods_at] == p.mods[0]);
    }
    lemma_digits_end_at(s, 0, sep);
    lemma_digits_end_at(s, sep + 1, mods_at);
    lemma_run_end_at(s, mods_at, hash);
    assert(s.subrange(0, sep) =~= p.qty);
    assert(s.subrange(sep + 1, mods_at) =~= p.die);
    assert(s.subrange(mods_at, hash) =~= p.mods);
    match p.target {
        Some(t) => {
            assert(s.subrange(hash + 1, s.len() as int) =~= t);
        },
        None => {},
    }
}

/// What a text asks for is settled by the text: two texts that are equal
/// ask for the same, and no fall of the dice changes the request.
pub proof fn lemma_request_is_settled(
    s: Seq<char>,
    default_tn: int,
    is_pool: bool,
    draws: Seq<int>,
)
    requires
        roll_of(s) is Some,
    ensures
        roll_of(s).unwrap().adjusted(default_tn, is_pool).with_draws(draws).same_request(
            roll_of(s).unwrap().adjusted(default_tn, is_pool),
        ),
        roll_of(s).unwrap().valid_request(),
        roll_of(s).unwrap().roll_type == DiceRollType::Sum,
        roll_of(s).unwrap().fresh(),
{
    let p = parts_of(s).unwrap();
    crate::modifiers::lemma_modifiers_signs(p.mods, 0);
}

/// What `scan_modifier_run` found: where the signs and digits end, and
/// whether they are modifier terms.
struct ModifierRun {
    end: usize,
    terms: bool,
}

/// Reads the signs and digits of `v` that start at `from`.
fn scan_modifier_run(v: &[char], from: usize) -> (r: ModifierRun)
    requires
        from <= v@.len(),
    ensures
        r.end == run_end(v@, from as int),
        from <= r.end <= v@.len(),
        r.terms == is_modifier_run(v@.subrange(from as int, r.end as int)),
{
    let n = v.len();
    let mut i: usize = from;
    let mut paired = true;
    proof {
        lemma_run_end(v@, from as int);
    }
    while i < n && (v[i] == '+' || v[i] == '-' || ('0' <= v[i] && v[i] <= '9'))
        invariant
            n == v@.len(),
            from <= i <= n,
            run_end(v@, from as int) == run_end(v@, i as int),
            forall|k: int| from <= k < i ==> is_sign(#[trigger] v@[k]) || is_digit(v@[k]),
            paired == (forall|k: int|
                from <= k < i - 1 && is_sign(#[trigger] v@[k]) ==> is_digit(v@[k + 1])),
        decreases n - i,
    {
        if i > from && (v[i - 1] == '+' || v[i - 1] == '-') && !('0' <= v[i] && v[i] <= '9') {
            paired = false;
        }
        i += 1;
    }
    let terms = paired && (i == from || ((v[from] == '+' || v[from] == '-') && !(v[i - 1] == '+'
        || v[i - 1] == '-')));
    proof {
        let m = v@.subrange(from as int, i as int);
        assert forall|k: int| 0 <= k < m.len() implies is_sign(#[trigger] m[k]) || is_digit(
            m[k],
        ) by {
            assert(m[k] == v@[from + k]);
        }
        if terms {
            assert forall|k: int| 0 <= k < m.len() && is_sign(#[trigger] m[k]) implies k + 1
                < m.len() && is_digit(m[k + 1]) by {
                assert(m[k] == v@[from + k]);
                if k + 1 < m.len() {
                    assert(m[k + 1] == v@[from + k + 1]);
                }
            }
        } else if paired {
            if is_sign(v@[i - 1]) {
                assert(is_sign(m[m.len() - 1]));
            } else {
                assert(!is_sign(m[0]));
            }
        } else {
            let k = choose|k: int|
                from <= k < i - 1 && is_sign(#[trigger] v@[k]) && !is_digit(v@[k + 1]);
            assert(is_sign(m[k - from]));
            assert(m[k - from + 1] == v@[k + 1]);
        }
    }
    ModifierRun { end: i, terms }
}

/// A count read from digits: `None` where it is not between 1 and the
/// largest machine integer.
fn positive(value: Option<u64>) -> (r: Option<isize>)
    ensures
        r == match value {
            Some(n) => if 1 <= n <= isize::MAX {
                Some(n as isize)
            } else {
                None
            },
            None => None,
        },
{
    match value {
        Some(n) => if 1 <= n && n <= isize::MAX as u64 {
            Some(n as isize)
        } else {
            None
        },
        None => None,
    }
}

/// Reads a roll expression from its characters.
fn parse_chars(v: &[char]) -> (r: Option<DiceRoll>)
    ensures
        match r {
            Some(roll) => roll.wf() && roll_of(v@) == Some(roll@),
            None => roll_of(v@) is None,
        },
{
    let n = v.len();
    let quantity = scan_digits(v, 0);
    let sep = quantity.end;
    if sep >= n || !(v[sep] == 'd' || v[sep] == 'D') {
        return None;
    }
    let faces = scan_digits(v, sep + 1);
    let mods_at = faces.end;
    let run = scan_modifier_run(v, mods_at);
    let hash = run.end;
    proof {
        lemma_digits_end(v@, 0);
        lemma_digits_end(v@, sep + 1);
    }
    if mods_at == sep + 1 || !run.terms {
        return None;
    }
    let mut tn: isize = 0;
    if hash < n {
        if v[hash] != '#' {
            return None;
        }
        let target = scan_digits(v, hash + 1);
        proof {
            lemma_digits_end(v@, hash + 1);
        }
        if hash + 1 == n || target.end != n {
            proof {
                if hash + 1 < n {
                    let t = v@.subrange(hash + 1, n as int);
                    assert(t[target.end - (hash + 1)] == v@[target.end as int]);
                }
            }
            return None;
        }
        tn =
        match target.value {
            Some(t) => if t <= isize::MAX as u64 {
                t as isize
            } else {
                0
            },
            None => 0,
        };
    }
    let dice_qty = if sep == 0 {
        Some(1)
    } else {
        positive(quantity.value)
    };
    let dice_type = positive(faces.value);
    let sums = checked_modifiers(slice_subrange(v, mods_at, hash));
    proof {
        crate::modifiers::lemma_modifiers_signs(v@.subrange(mods_at as int, hash as int), 0);
    }
    match (dice_qty, dice_type, sums) {
        (Some(dice_qty), Some(dice_type), Some(sums)) => Some(
            DiceRoll::new(dice_qty, dice_type, sums.0, sums.1, tn, DiceRollType::Sum),
        ),
        _ => None,
    }
}

impl std::str::FromStr for DiceRoll {
    type Err = DiceRollError;

    /// Reads a roll expression. The roll that comes back is a sum, not yet
    /// made. A text that is no roll expression, or whose numbers cannot be
    /// held, comes back in the error.
    fn from_str(s: &str) -> (r: Result<Self, Self::Err>)
        ensures
            match r {
                Ok(roll) => roll.wf() && roll_of(s@) == Some(roll@),
                Err(DiceRollError::RollSyntax(text)) => roll_of(s@) is None && text@ == s@,
                Err(DiceRollError::Undefined(_)) => false,
            },
    {
        let chars = chars_of(s);
        match parse_chars(chars.as_slice()) {
            Some(roll) => Ok(roll),
            None => Err(DiceRollError::RollSyntax(s.to_owned())),
        }
    }
}

} // verus!
