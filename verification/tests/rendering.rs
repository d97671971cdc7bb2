use roll::{run, DiceRoll, DiceRollError, DiceRollType};

fn sum_text(inc: isize, dec: isize, tn: isize, draws: Vec<isize>) -> String {
    let mut x = DiceRoll::new(draws.len() as isize, 20, inc, dec, tn, DiceRollType::Sum);
    x.score(draws);
    x.to_string()
}

fn pool_text(tn: isize, draws: Vec<isize>) -> String {
    let mut x = DiceRoll::new(draws.len() as isize, 20, 0, 0, tn, DiceRollType::Pool);
    x.score(draws);
    x.to_string()
}

#[test]
fn plain_sum() {
    assert_eq!(sum_text(0, 0, 0, vec![3, 4]), "[7]");
    assert_eq!(sum_text(0, 0, 0, vec![20, 20, 20]), "[60]");
}

#[test]
fn sum_with_modifiers_shows_the_final_result() {
    assert_eq!(sum_text(17, -6, 0, vec![3, 4]), "[7 ➔ 18]");
    assert_eq!(sum_text(2, 0, 0, vec![1]), "[1 ➔ 3]");
    assert_eq!(sum_text(0, -9, 0, vec![1]), "[1 ➔ -8]");
    assert_eq!(sum_text(1, -1, 0, vec![5]), "[5 ➔ 5]");
}

#[test]
fn sum_equal_to_target_succeeds() {
    assert_eq!(sum_text(17, -6, 18, vec![3, 4]), "[7 ➔ 18 ✔ ]");
    assert_eq!(sum_text(0, 0, 7, vec![3, 4]), "[7 ✔ ]");
}

#[test]
fn sum_above_target_succeeds() {
    assert_eq!(sum_text(17, -6, 10, vec![3, 4]), "[7 ➔ 18 ✔ ]");
}

#[test]
fn sum_below_target_fails() {
    assert_eq!(sum_text(17, -6, 19, vec![3, 4]), "[7 ➔ 18 ✗ ]");
    assert_eq!(sum_text(0, 0, 8, vec![3, 4]), "[7 ✗ ]");
}

#[test]
fn pool_lists_each_die() {
    assert_eq!(pool_text(5, vec![5, 1, 6]), "[5,1,6| 2 Successes]");
    assert_eq!(pool_text(6, vec![5, 1, 6]), "[5,1,6| 1 Success]");
    assert_eq!(pool_text(7, vec![5, 1, 6]), "[5,1,6| 0 Successes]");
    assert_eq!(pool_text(1, vec![12]), "[12| 1 Success]");
}

#[test]
fn pool_without_target_has_no_tally() {
    assert_eq!(pool_text(0, vec![5, 1, 6]), "[5,1,6]");
    assert_eq!(pool_text(0, vec![10]), "[10]");
}

#[test]
fn roll_not_yet_made() {
    assert_eq!(DiceRoll::new(2, 6, 0, 0, 0, DiceRollType::Sum).to_string(), "[0]");
    assert_eq!(DiceRoll::new(2, 6, 1, 0, 3, DiceRollType::Sum).to_string(), "[0 ➔ 0 ✗ ]");
    assert_eq!(DiceRoll::new(2, 6, 0, 0, 0, DiceRollType::Pool).to_string(), "[]");
    assert_eq!(DiceRoll::new(2, 6, 0, 0, 3, DiceRollType::Pool).to_string(), "[| 0 Successes]");
}

#[test]
fn large_numbers_in_full() {
    let mut x = DiceRoll::new(1, isize::MAX - 1, 0, isize::MIN, 0, DiceRollType::Sum);
    assert!(x.can_roll());
    x.score(vec![isize::MAX - 1]);
    assert_eq!(x.final_result(), -2);
    assert_eq!(x.to_string(), format!("[{} ➔ -2]", isize::MAX - 1));
    let y = DiceRoll::new(1, 6, 0, isize::MIN, 0, DiceRollType::Sum);
    assert!(y.verbose().contains(&format!("Decrement: {},", isize::MIN)));
}

#[test]
fn verbose_sum() {
    let mut x = DiceRoll::new(2, 20, 17, -6, 10, DiceRollType::Sum);
    x.score(vec![3, 4]);
    let expected = "Dice Roll {\n    Dice quantity: 2,\n    Dice type: 20,\n    Increment: 17,\n    Decrement: -6,\n    Target number: 10,\n    Type: Sum,\n    Results: [3, 4],\n    Final Result: 18,\n    Bottomline: \"[7 ➔ 18 ✔ ]\",\n}";
    assert_eq!(x.verbose(), expected);
}

#[test]
fn verbose_pool() {
    let mut x = DiceRoll::new(3, 6, 0, 0, 5, DiceRollType::Pool);
    x.score(vec![5, 1, 6]);
    let expected = "Dice Roll {\n    Dice quantity: 3,\n    Dice type: 6,\n    Increment: 0,\n    Decrement: 0,\n    Target number: 5,\n    Type: Pool,\n    Results: [5, 1, 6],\n    Final Result: 2,\n    Bottomline: \"[5,1,6| 2 Successes]\",\n}";
    assert_eq!(x.verbose(), expected);
}

#[test]
fn verbose_before_the_roll() {
    let x = "d8+5".parse::<DiceRoll>().unwrap();
    let expected = "Dice Roll {\n    Dice quantity: 1,\n    Dice type: 8,\n    Increment: 5,\n    Decrement: 0,\n    Target number: 0,\n    Type: Sum,\n    Results: [],\n    Final Result: 0,\n    Bottomline: \"[0 ➔ 0]\",\n}";
    assert_eq!(x.verbose(), expected);
}

#[test]
fn syntax_error_text() {
    let e = DiceRollError::RollSyntax("2d20+0.4".to_string());
    assert_eq!(
        e.to_string(),
        "Syntax Error on 2d20+0.4: your roll must follow the following pattern: XdY[+i-d][#target]\nRun roll --help to learn more"
    );
}

#[test]
fn undefined_error_text() {
    let e = DiceRollError::Undefined("no dice".to_string());
    assert_eq!(e.to_string(), "Undefined Error: no dice");
}

#[test]
fn run_gives_the_short_form() {
    assert_eq!(run("1d1+2", 0, false, false).unwrap(), "[1 ➔ 3]");
    assert_eq!(run("3d1", 0, false, false).unwrap(), "[3]");
    assert_eq!(run("3D1-1", 0, false, false).unwrap(), "[3 ➔ 2]");
}

#[test]
fn run_holds_against_the_default_target() {
    assert_eq!(run("1d1+2", 3, false, false).unwrap(), "[1 ➔ 3 ✔ ]");
    assert_eq!(run("1d1+2", 4, false, false).unwrap(), "[1 ➔ 3 ✗ ]");
    assert_eq!(run("1d1+2", -4, false, false).unwrap(), "[1 ➔ 3]");
}

#[test]
fn run_prefers_the_target_of_the_text() {
    assert_eq!(run("1d1+2#3", 9, false, false).unwrap(), "[1 ➔ 3 ✔ ]");
    assert_eq!(run("1d1+2#4", 1, false, false).unwrap(), "[1 ➔ 3 ✗ ]");
}

#[test]
fn run_rolls_a_pool_on_demand() {
    assert_eq!(run("2d1-1#1", 0, true, false).unwrap(), "[1| 1 Success]");
    assert_eq!(run("2d1+1", 1, true, false).unwrap(), "[1,1,1| 3 Successes]");
    assert_eq!(run("2d1+1", 0, true, false).unwrap(), "[1,1,1]");
    assert_eq!(run("2d1+1#2", 0, true, false).unwrap(), "[1,1,1| 0 Successes]");
}

#[test]
fn run_gives_the_full_form() {
    let expected = "Dice Roll {\n    Dice quantity: 2,\n    Dice type: 1,\n    Increment: 3,\n    Decrement: -1,\n    Target number: 4,\n    Type: Sum,\n    Results: [1, 1],\n    Final Result: 4,\n    Bottomline: \"[2 ➔ 4 ✔ ]\",\n}";
    assert_eq!(run("2d1+3-1", 4, false, true).unwrap(), expected);
}

#[test]
fn run_refuses_what_is_no_roll() {
    for text in ["2d20+0.4", "Ad10-4", "", "0d6", "2d0"] {
        match run(text, 0, false, false) {
            Err(DiceRollError::RollSyntax(held)) => assert_eq!(held, text),
            _ => panic!("expected a syntax error for {:?}", text),
        }
    }
}

#[test]
fn run_refuses_a_pool_without_dice() {
    for text in ["1d6-1", "1d6-5", "2d6+1-3"] {
        match run(text, 0, true, false) {
            Err(DiceRollError::Undefined(reason)) => {
                assert_eq!(reason, "Invalid dice pool - must hold at least one die")
            }
            _ => panic!("expected a refusal for {:?}", text),
        }
    }
    assert!(run("1d6-5", 0, false, false).is_ok());
}

#[test]
fn run_refuses_numbers_that_do_not_fit() {
    let text = format!("{}d6", isize::MAX);
    match run(&text, 0, false, false) {
        Err(DiceRollError::Undefined(reason)) => {
            assert_eq!(reason, "Invalid roll - the numbers are too large")
        }
        _ => panic!("expected a refusal"),
    }
    let text = format!("1d{}", isize::MAX);
    match run(&text, 0, true, false) {
        Err(DiceRollError::Undefined(reason)) => {
            assert_eq!(reason, "Invalid roll - the numbers are too large")
        }
        _ => panic!("expected a refusal"),
    }
}

#[test]
fn run_stays_in_range() {
    for _ in 0..50 {
        let text = run("4d6+2", 0, false, false).unwrap();
        let inner = text.trim_start_matches('[').trim_end_matches(']');
        let mut parts = inner.split(" ➔ ");
        let raw: isize = parts.next().unwrap().parse().unwrap();
        let fin: isize = parts.next().unwrap().parse().unwrap();
        assert!(4 <= raw && raw <= 24);
        assert_eq!(fin, raw + 2);
    }
}

struct Plain(String);

impl std::fmt::Debug for Plain {
    fn fmt(&self, f: &mut std::fmt::Formatter<'_>) -> std::fmt::Result {
        f.write_str(&self.0)
    }
}

struct Dump<'a>(&'a DiceRoll);

impl std::fmt::Debug for Dump<'_> {
    fn fmt(&self, f: &mut std::fmt::Formatter<'_>) -> std::fmt::Result {
        f.debug_struct("Dice Roll")
            .field("Dice quantity", &self.0.dice_qty())
            .field("Dice type", &self.0.dice_type())
            .field("Increment", &self.0.inc())
            .field("Decrement", &self.0.dec())
            .field("Target number", &self.0.tn())
            .field("Type", &self.0.roll_type())
            .field("Results", &Plain(format!("{:?}", self.0.roll_results())))
            .field("Final Result", &self.0.final_result())
            .field("Bottomline", &self.0.to_string())
            .finish()
    }
}

#[test]
fn verbose_is_the_pretty_debug_form() {
    let mut sum = DiceRoll::new(3, 12, 4, -9, 7, DiceRollType::Sum);
    assert_eq!(sum.verbose(), format!("{:#?}", Dump(&sum)));
    sum.score(vec![12, 1, 7]);
    assert_eq!(sum.verbose(), format!("{:#?}", Dump(&sum)));
    let mut pool = DiceRoll::new(3, 12, 4, -5, 7, DiceRollType::Pool);
    pool.score(vec![12, 7]);
    assert_eq!(pool.verbose(), format!("{:#?}", Dump(&pool)));
    for _ in 0..20 {
        pool.roll_dice();
        assert_eq!(pool.verbose(), format!("{:#?}", Dump(&pool)));
    }
}

#[test]
fn numbers_are_written_as_std_writes_them() {
    for n in [0isize, 1, 9, 10, 11, 99, 100, 101, 12345, isize::MAX - 1] {
        let mut x = DiceRoll::new(1, isize::MAX - 1, 0, 0, 0, DiceRollType::Sum);
        if n >= 1 {
            x.score(vec![n]);
        }
        assert_eq!(x.to_string(), format!("[{}]", n));
    }
    for n in [-1isize, -9, -10, -12345, isize::MIN + 1, isize::MIN] {
        let x = DiceRoll::new(1, 6, 0, n, 0, DiceRollType::Sum);
        assert!(x.verbose().contains(&format!("    Decrement: {},\n", n)));
    }
}
