//! A roll of dice: what was asked for, and what came of it.

use crate::random::gen_range;
use vstd::prelude::*;

verus! {

/// Why a roll expression could not be evaluated.
#[derive(Debug)]
pub enum DiceRollError {
    /// The text is no roll expression. Holds the text.
    RollSyntax(String),
    /// The roll cannot be made. Holds the reason.
    Undefined(String),
}

/// How the dice are read.
#[derive(Debug, Clone, Copy, PartialEq, Eq, Structural)]
pub enum DiceRollType {
    /// The dice are added up, and the modifiers are added to the total.
    Sum,
    /// Each die is held against the target number by itself, and the
    /// modifiers change the number of dice.
    Pool,
}

/// A roll: the request, the value of each die, and the final result.
pub struct DiceRoll {
    dice_qty: isize,
    dice_type: isize,
    inc: isize,
    dec: isize,
    tn: isize,
    roll_type: DiceRollType,
    roll_results: Vec<isize>,
    final_result: isize,
}

/// A roll as a mathematical value.
pub struct RollView {
    /// The number of dice asked for.
    pub dice_qty: int,
    /// The number of faces of each die.
    pub dice_type: int,
    /// The sum of the modifiers that add.
    pub inc: int,
    /// The sum of the modifiers that take away: zero or below.
    pub dec: int,
    /// The target number; zero where none is set.
    pub tn: int,
    /// How the dice are read.
    pub roll_type: DiceRollType,
    /// The value of each die, in the order drawn.
    pub roll_results: Seq<int>,
    /// The total with its modifiers, or the number of successes.
    pub final_result: int,
}

/// The integers of `s` as mathematical integers.
pub open spec fn as_ints(s: Seq<isize>) -> Seq<int> {
    Seq::new(s.len(), |i: int| s[i] as int)
}

/// The sum of the entries of `s`.
pub open spec fn sum(s: Seq<int>) -> int
    decreases s.len(),
{
    if s.len() == 0 {
        0
    } else {
        sum(s.drop_last()) + s.last()
    }
}

/// The number of entries of `s` that are `target` or above.
pub open spec fn count_at_least(s: Seq<int>, target: int) -> int
    decreases s.len(),
{
    if s.len() == 0 {
        0
    } else {
        count_at_least(s.drop_last(), target) + if s.last() >= target {
            1int
        } else {
            0int
        }
    }
}

impl RollView {
    /// The request is sound: there is a die, it has a face, and each
    /// modifier sum has its sign.
    pub open spec fn valid_request(self) -> bool {
        &&& self.dice_qty > 0
        &&& self.dice_type > 0
        &&& self.inc >= 0
        &&& self.dec <= 0
    }

    /// The number of dice that a roll draws. In a pool the modifiers
    /// change it.
    pub open spec fn dice_count(self) -> int {
        match self.roll_type {
            DiceRollType::Sum => self.dice_qty,
            DiceRollType::Pool => self.dice_qty + self.inc + self.dec,
        }
    }

    /// The roll can be made: there is at least one die to draw, and
    /// whatever the dice show, every number involved fits in a machine
    /// integer.
    pub open spec fn can_roll(self) -> bool {
        &&& self.dice_type < isize::MAX
        &&& match self.roll_type {
            DiceRollType::Sum => {
                &&& self.dice_qty * self.dice_type <= isize::MAX
                &&& self.dice_qty * self.dice_type + self.inc + self.dec <= isize::MAX
            },
            DiceRollType::Pool => 0 < self.dice_qty + self.inc + self.dec <= isize::MAX,
        }
    }

    /// `draws` could have come out of this roll: one value for each die,
    /// each a face of the die.
    pub open spec fn fair(self, draws: Seq<int>) -> bool {
        &&& draws.len() == self.dice_count()
        &&& forall|i: int| 0 <= i < draws.len() ==> 1 <= #[trigger] draws[i] <= self.dice_type
    }

    /// The final result where the dice show `draws`. In a sum, the total
    /// and the modifiers. In a pool, the number of dice that reach the
    /// target number; nothing is counted where no target is set.
    pub open spec fn outcome(self, draws: Seq<int>) -> int {
        match self.roll_type {
            DiceRollType::Sum => sum(draws) + self.inc + self.dec,
            DiceRollType::Pool => if self.tn == 0 {
                0
            } else {
                count_at_least(draws, self.tn)
            },
        }
    }

    /// This roll after the dice have shown `draws`.
    pub open spec fn with_draws(self, draws: Seq<int>) -> RollView {
        RollView { roll_results: draws, final_result: self.outcome(draws), ..self }
    }

    /// No dice have been drawn yet.
    pub open spec fn fresh(self) -> bool {
        self.roll_results.len() == 0 && self.final_result == 0
    }

    /// The dice have been drawn, and the final result is theirs.
    pub open spec fn rolled(self) -> bool {
        &&& self.can_roll()
        &&& self.fair(self.roll_results)
        &&& self.final_result == self.outcome(self.roll_results)
    }

    /// The request is sound, and the results are either not there yet or
    /// those of a roll.
    pub open spec fn valid(self) -> bool {
        self.valid_request() && (self.fresh() || self.rolled())
    }

    /// The request as a caller wants it rolled, with no results yet. A
    /// pool where `is_pool` says so; the target number `default_tn` where
    /// that is above zero and the request has none of its own.
    pub open spec fn adjusted(self, default_tn: int, is_pool: bool) -> RollView {
        RollView {
            tn: if default_tn > 0 && self.tn == 0 {
                default_tn
            } else {
                self.tn
            },
            roll_type: if is_pool {
                DiceRollType::Pool
            } else {
                self.roll_type
            },
            roll_results: Seq::empty(),
            final_result: 0,
            ..self
        }
    }

    /// Both rolls ask for the same.
    pub open spec fn same_request(self, other: RollView) -> bool {
        &&& self.dice_qty == other.dice_qty
        &&& self.dice_type == other.dice_type
        &&& self.inc == other.inc
        &&& self.dec == other.dec
        &&& self.tn == other.tn
        &&& self.roll_type == other.roll_type
    }
}

impl View for DiceRoll {
    type V = RollView;

    closed spec fn view(&self) -> RollView {
        RollView {
            dice_qty: self.dice_qty as int,
            dice_type: self.dice_type as int,
            inc: self.inc as int,
            dec: self.dec as int,
            tn: self.tn as int,
            roll_type: self.roll_type,
            roll_results: as_ints(self.roll_results@),
            final_result: self.final_result as int,
        }
    }
}

/// Dice that each show between 1 and `faces` add up to at least their
/// number, and to at most `faces` times their number.
pub proof fn lemma_sum_bounds(draws: Seq<int>, faces: int)
    requires
        forall|i: int| 0 <= i < draws.len() ==> 1 <= #[trigger] draws[i] <= faces,
    ensures
        draws.len() <= sum(draws) <= draws.len() * faces,
    decreases draws.len(),
{
    if draws.len() > 0 {
        lemma_sum_bounds(draws.drop_last(), faces);
        assert((draws.len() - 1) * faces + faces == draws.len() * faces) by (nonlinear_arith);
    }
}

/// No more entries reach a target than there are entries.
pub proof fn lemma_count_bounds(draws: Seq<int>, target: int)
    ensures
        0 <= count_at_least(draws, target) <= draws.len(),
    decreases draws.len(),
{
    if draws.len() > 0 {
        lemma_count_bounds(draws.drop_last(), target);
    }
}

/// A sum of at most a hundred dice with at most a hundred faces each can
/// be rolled, as long as its modifiers leave room for the total.
pub proof fn lemma_small_sum_can_roll(roll: RollView)
    requires
        roll.valid_request(),
        roll.roll_type == DiceRollType::Sum,
        roll.dice_qty <= 100,
        roll.dice_type <= 100,
        roll.inc + roll.dec <= isize::MAX - 10000,
    ensures
        roll.can_roll(),
{
    assert(roll.dice_qty * roll.dice_type <= 10000) by (nonlinear_arith)
        requires
            0 < roll.dice_qty <= 100,
            0 < roll.dice_type <= 100,
    ;
}

/// A sum that was rolled shows one value for each die asked for, each of
/// them a face of the die, and its final result is their total with the
/// modifiers added.
pub proof fn lemma_rolled_sum(roll: RollView)
    requires
        roll.rolled(),
        roll.roll_type == DiceRollType::Sum,
    ensures
        roll.roll_results.len() == roll.dice_qty,
        forall|i: int|
            0 <= i < roll.roll_results.len() ==> 1 <= #[trigger] roll.roll_results[i]
                <= roll.dice_type,
        roll.dice_qty <= sum(roll.roll_results) <= roll.dice_qty * roll.dice_type,
        roll.final_result == sum(roll.roll_results) + roll.inc + roll.dec,
{
    lemma_sum_bounds(roll.roll_results, roll.dice_type);
}

/// A pool that was rolled shows as many values as the modifiers leave
/// dice, each of them a face of the die. Its final result is the number
/// of values that reach the target number, and zero where no target is
/// set.
pub proof fn lemma_rolled_pool(roll: RollView)
    requires
        roll.rolled(),
        roll.roll_type == DiceRollType::Pool,
    ensures
        roll.roll_results.len() == roll.dice_qty + roll.inc + roll.dec,
        forall|i: int|
            0 <= i < roll.roll_results.len() ==> 1 <= #[trigger] roll.roll_results[i]
                <= roll.dice_type,
        roll.tn == 0 ==> roll.final_result == 0,
        roll.tn != 0 ==> roll.final_result == count_at_least(roll.roll_results, roll.tn),
        0 <= roll.final_result <= roll.roll_results.len(),
{
    lemma_count_bounds(roll.roll_results, roll.tn);
}

/// Where every value reaches the target, all of them count.
proof fn lemma_count_all(draws: Seq<int>, target: int)
    requires
        forall|i: int| 0 <= i < draws.len() ==> #[trigger] draws[i] >= target,
    ensures
        count_at_least(draws, target) == draws.len(),
    decreases draws.len(),
{
    if draws.len() > 0 {
        lemma_count_all(draws.drop_last(), target);
    }
}

/// Dice with a single face leave nothing to chance: a sum comes to the
/// number of dice with the modifiers added, and in a pool with a target
/// number of one every die is a success.
pub proof fn lemma_one_faced_dice(roll: RollView)
    requires
        roll.rolled(),
        roll.dice_type == 1,
    ensures
        roll.roll_type == DiceRollType::Sum ==> roll.final_result == roll.dice_qty + roll.inc
            + roll.dec,
        roll.roll_type == DiceRollType::Pool && roll.tn == 1 ==> roll.final_result
            == roll.dice_qty + roll.inc + roll.dec,
{
    lemma_sum_bounds(roll.roll_results, 1);
    lemma_count_all(roll.roll_results, 1);
}

/// The sum of `draws`, each of which is a face of a die with `faces` faces.
pub(crate) fn sum_of(draws: &Vec<isize>, faces: isize) -> (total: isize)
    requires
        forall|i: int| 0 <= i < draws@.len() ==> 1 <= #[trigger] as_ints(draws@)[i] <= faces,
        draws@.len() * faces <= isize::MAX,
    ensures
        total == sum(as_ints(draws@)),
{
    let ghost all = as_ints(draws@);
    let mut total: isize = 0;
    let mut i: usize = 0;
    assert(all.take(0) =~= Seq::<int>::empty());
    while i < draws.len()
        invariant
            i <= draws@.len(),
            all == as_ints(draws@),
            total == sum(all.take(i as int)),
            forall|k: int| 0 <= k < all.len() ==> 1 <= #[trigger] all[k] <= faces,
            draws@.len() * faces <= isize::MAX,
        decreases draws@.len() - i,
    {
        proof {
            let next = all.take(i as int + 1);
            assert(next.drop_last() =~= all.take(i as int));
            assert(next.last() == draws@[i as int] as int);
            lemma_sum_bounds(next, faces as int);
            assert((i + 1) * faces <= draws@.len() * faces) by (nonlinear_arith)
                requires
                    i + 1 <= draws@.len(),
                    faces > 0,
            ;
        }
        total = total + draws[i];
        i += 1;
    }
    assert(all.take(i as int) =~= all);
    total
}

/// The number of `draws` that are `target` or above.
fn count_reaching(draws: &Vec<isize>, target: isize) -> (count: isize)
    requires
        draws@.len() <= isize::MAX,
    ensures
        count == count_at_least(as_ints(draws@), target as int),
{
    let ghost all = as_ints(draws@);
    let mut count: isize = 0;
    let mut i: usize = 0;
    assert(all.take(0) =~= Seq::<int>::empty());
    while i < draws.len()
        invariant
            i <= draws@.len() <= isize::MAX,
            all == as_ints(draws@),
            count == count_at_least(all.take(i as int), target as int),
            0 <= count <= i,
        decreases draws@.len() - i,
    {
        proof {
            let next = all.take(i as int + 1);
            assert(next.drop_last() =~= all.take(i as int));
            assert(next.last() == draws@[i as int] as int);
        }
        if draws[i] >= target {
            count = count + 1;
        }
        i += 1;
    }
    assert(all.take(i as int) =~= all);
    count
}

/// Draws `count` dice with `faces` faces each.
fn draw(count: isize, faces: isize) -> (draws: Vec<isize>)
    requires
        0 < count,
        0 < faces < isize::MAX,
    ensures
        draws@.len() == count,
        forall|i: int| 0 <= i < draws@.len() ==> 1 <= #[trigger] as_ints(draws@)[i] <= faces,
{
    let mut draws: Vec<isize> = Vec::new();
    let mut i: isize = 0;
    while i < count
        invariant
            0 <= i <= count,
            0 < faces < isize::MAX,
            draws@.len() == i,
            forall|k: int| 0 <= k < draws@.len() ==> 1 <= #[trigger] draws@[k] <= faces,
        decreases count - i,
    {
        let value = gen_range(1, faces + 1);
        draws.push(value);
        i += 1;
    }
    draws
}

impl DiceRoll {
    /// The request is sound and the results belong to it.
    pub open spec fn wf(&self) -> bool {
        self@.valid()
    }

    /// A roll of `dice_qty` dice with `dice_type` faces each, not yet made.
    pub fn new(
        dice_qty: isize,
        dice_type: isize,
        inc: isize,
        dec: isize,
        tn: isize,
        roll_type: DiceRollType,
    ) -> (r: DiceRoll)
        requires
            dice_qty > 0,
            dice_type > 0,
            inc >= 0,
            dec <= 0,
        ensures
            r.wf(),
            r@ == (RollView {
                dice_qty: dice_qty as int,
                dice_type: dice_type as int,
                inc: inc as int,
                dec: dec as int,
                tn: tn as int,
                roll_type,
                roll_results: Seq::<int>::empty(),
                final_result: 0,
            }),
    {
        let r = DiceRoll {
            dice_qty,
            dice_type,
            inc,
            dec,
            tn,
            roll_type,
            roll_results: Vec::new(),
            final_result: 0,
        };
        assert(r@.roll_results =~= Seq::<int>::empty());
        r
    }

    /// Whether the roll can be made: whether there is a die to draw and
    /// every number that may come up fits in a machine integer.
    pub fn can_roll(&self) -> (b: bool)
        requires
            self.wf(),
        ensures
            b == self@.can_roll(),
    {
        if self.dice_type == isize::MAX {
            return false;
        }
        let modifiers: i128 = self.inc as i128 + self.dec as i128;
        match self.roll_type {
            DiceRollType::Sum => match self.dice_qty.checked_mul(self.dice_type) {
                Some(most) => most as i128 + modifiers <= isize::MAX as i128,
                None => false,
            },
            DiceRollType::Pool => {
                let count: i128 = self.dice_qty as i128 + modifiers;
                0 < count && count <= isize::MAX as i128
            },
        }
    }

    /// Takes `draws` as the values that the dice show, and works out the
    /// final result from them.
    pub fn score(&mut self, draws: Vec<isize>)
        requires
            old(self).wf(),
            old(self)@.can_roll(),
            old(self)@.fair(as_ints(draws@)),
        ensures
            final(self).wf(),
            final(self)@ == old(self)@.with_draws(as_ints(draws@)),
    {
        let value = match self.roll_type {
            DiceRollType::Sum => {
                let total = sum_of(&draws, self.dice_type);
                proof {
                    lemma_sum_bounds(as_ints(draws@), self.dice_type as int);
                }
                total + (self.inc + self.dec)
            },
            DiceRollType::Pool => {
                if self.tn == 0 {
                    0
                } else {
                    count_reaching(&draws, self.tn)
                }
            },
        };
        self.roll_results = draws;
        self.final_result = value;
    }

    /// Rolls the dice: draws each die at random and works out the final
    /// result. Earlier results are dropped.
    pub fn roll_dice(&mut self)
        requires
            old(self).wf(),
            old(self)@.can_roll(),
        ensures
            final(self).wf(),
            final(self)@.same_request(old(self)@),
            final(self)@.rolled(),
            final(self)@.roll_results.len() == old(self)@.dice_count(),
            forall|i: int|
                0 <= i < final(self)@.roll_results.len() ==> 1 <= #[trigger] final(self)@.roll_results[i]
                    <= old(self)@.dice_type,
            final(self)@.final_result == old(self)@.outcome(final(self)@.roll_results),
    {
        match self.roll_type {
            DiceRollType::Sum => self.roll_sum(),
            DiceRollType::Pool => self.roll_pool(),
        }
    }

    /// Draws one die for each die asked for, and adds them up.
    fn roll_sum(&mut self)
        requires
            old(self).wf(),
            old(self)@.can_roll(),
            old(self)@.roll_type == DiceRollType::Sum,
        ensures
            final(self).wf(),
            final(self)@.same_request(old(self)@),
            final(self)@.rolled(),
    {
        let draws = draw(self.dice_qty, self.dice_type);
        self.score(draws);
    }

    /// Draws as many dice as the modifiers leave, and counts those that
    /// reach the target number.
    fn roll_pool(&mut self)
        requires
            old(self).wf(),
            old(self)@.can_roll(),
            old(self)@.roll_type == DiceRollType::Pool,
        ensures
            final(self).wf(),
            final(self)@.same_request(old(self)@),
            final(self)@.rolled(),
    {
        let draws = draw(self.dice_qty + (self.inc + self.dec), self.dice_type);
        self.score(draws);
    }

    /// The number of dice asked for.
    pub fn dice_qty(&self) -> (n: isize)
        ensures
            n == self@.dice_qty,
    {
        self.dice_qty
    }

    /// The number of faces of each die.
    pub fn dice_type(&self) -> (n: isize)
        ensures
            n == self@.dice_type,
    {
        self.dice_type
    }

    /// The sum of the modifiers that add.
    pub fn inc(&self) -> (n: isize)
        ensures
            n == self@.inc,
    {
        self.inc
    }

    /// The sum of the modifiers that take away.
    pub fn dec(&self) -> (n: isize)
        ensures
            n == self@.dec,
    {
        self.dec
    }

    /// The target number; zero where none is set.
    pub fn tn(&self) -> (n: isize)
        ensures
            n == self@.tn,
    {
        self.tn
    }

    /// How the dice are read.
    pub fn roll_type(&self) -> (t: DiceRollType)
        ensures
            t == self@.roll_type,
    {
        self.roll_type
    }

    /// The value of each die, in the order drawn.
    pub fn roll_results(&self) -> (values: &Vec<isize>)
        ensures
            as_ints(values@) == self@.roll_results,
    {
        &self.roll_results
    }

    /// The total with its modifiers, or the number of successes.
    pub fn final_result(&self) -> (n: isize)
        ensures
            n == self@.final_result,
    {
        self.final_result
    }

    /// The same request as a caller wants it rolled, not yet made: a
    /// pool where `is_pool` says so, and with the target number
    /// `default_tn` where that is above zero and the request has none of
    /// its own.
    pub fn adjusted(&self, default_tn: isize, is_pool: bool) -> (r: DiceRoll)
        requires
            self.wf(),
        ensures
            r.wf(),
            r@ == self@.adjusted(default_tn as int, is_pool),
    {
        let tn = if default_tn > 0 && self.tn == 0 {
            default_tn
        } else {
            self.tn
        };
        let roll_type = if is_pool {
            DiceRollType::Pool
        } else {
            self.roll_type
        };
        DiceRoll::new(self.dice_qty, self.dice_type, self.inc, self.dec, tn, roll_type)
    }
}

} // verus!
