use roll::{DiceRoll, DiceRollType};

#[test]
fn force_one_sum() {
    let mut x = DiceRoll::new(1, 1, 2, 0, 0, DiceRollType::Sum);
    x.roll_dice();
    assert_eq!(x.final_result(), 3)
}

#[test]
fn force_one_pool() {
    let mut x = DiceRoll::new(2, 1, 0, -1, 1, DiceRollType::Pool);
    x.roll_dice();
    assert_eq!(x.final_result(), 1)
}

#[test]
fn valid_roll_from_str() {
    let x = "2d20+12-3+1-1-2+4#10".parse::<DiceRoll>();
    assert_eq!(true, x.is_ok());
    let d = x.unwrap();
    assert_eq!(d.dice_qty(), 2);
    assert_eq!(d.dice_type(), 20);
    assert_eq!(d.inc(), 17);
    assert_eq!(d.dec(), -6);
    assert_eq!(d.tn(), 10);
    println!("{}", d.verbose());
}

#[test]
fn valid_roll_without_qty() {
    let roll = "d8+5".parse::<DiceRoll>().expect("dice roll failed to parse");
    assert_eq!(roll.dice_qty(), 1);
    assert_eq!(roll.dice_type(), 8);
    assert_eq!(roll.inc(), 5);
    assert_eq!(roll.dec(), 0);
    assert_eq!(roll.tn(), 0);
}

#[test]
fn invalid_roll_from_str() {
    let x = "2d20+0.4".parse::<DiceRoll>();
    assert_eq!(true, x.is_err());
    println!("{}", x.err().unwrap().to_string());

    let x = "Ad10-4".parse::<DiceRoll>();
    assert_eq!(true, x.is_err());
    println!("{}", x.err().unwrap().to_string());
}
