use yakshop::yak::{DAYS_IN_YAK_YEAR, DRY_AGE, MAX_YAK_AGE};
use yakshop::{yak_can_produce_wool, yak_milk_production, InvalidAge, Products, Yak};

fn yak_of_age(age: u32) -> Yak {
    Yak::new("Yak".to_string(), age)
}

/// A yak taken through its days one by one, by the rules of a single day.
fn by_the_day(age: u32, age_last_shaved: u32, days: u32) -> (u32, u32, u64, u64) {
    let (mut age, mut age_last_shaved) = (age, age_last_shaved);
    let (mut milk, mut wool): (u64, u64) = (0, 0);
    for _ in 0..days {
        milk += u64::from(yak_milk_production(age));
        if yak_can_produce_wool(age, age_last_shaved) {
            age_last_shaved = age;
            wool += 1;
        }
        age += 1;
    }
    (age, age_last_shaved, milk, wool)
}

fn amounts(products: Option<Products>) -> (u32, u32) {
    match products {
        Some(products) => (products.milk_hundredths(), products.wool()),
        None => (0, 0),
    }
}

#[test]
fn constants_of_a_yak_life() {
    assert_eq!(MAX_YAK_AGE, 1_000);
    assert_eq!(DAYS_IN_YAK_YEAR, 100);
    assert_eq!(DRY_AGE, 1_667);
}

#[test]
fn a_new_yak_was_never_shaved() {
    let yak = Yak::new("Betty-1".to_string(), 400);
    assert_eq!(yak.name(), "Betty-1");
    assert_eq!(yak.age(), 400);
    assert_eq!(yak.age_last_shaved(), 0);
    assert!(yak.is_alive());
}

#[test]
fn a_clone_is_a_yak_of_its_own() {
    let mut yak = Yak::new("Betty-2".to_string(), 100);
    let copy = yak.clone();
    let _ = yak.step_days(3);
    assert_eq!(yak.age(), 103);
    assert_eq!(yak.age_last_shaved(), 100);
    assert_eq!(copy.name(), "Betty-2");
    assert_eq!(copy.age(), 100);
    assert_eq!(copy.age_last_shaved(), 0);
}

#[test]
fn alive_until_the_greatest_age() {
    assert!(yak_of_age(0).is_alive());
    assert!(yak_of_age(999).is_alive());
    assert!(!yak_of_age(1_000).is_alive());
    assert!(!yak_of_age(1_001).is_alive());
    assert!(!yak_of_age(u32::MAX).is_alive());
}

#[test]
fn a_dead_yak_is_inert() {
    for age in [1_000, 1_001, 1_666, 1_667, 5_000, u32::MAX] {
        for days in [0, 1, 2, 13, 1_000, u32::MAX] {
            let mut yak = yak_of_age(age);
            assert!(!yak.is_alive());
            assert!(yak.step_days(days).is_none());
            assert_eq!(yak.age(), age);
            assert_eq!(yak.age_last_shaved(), 0);
            assert_eq!(yak.name(), "Yak");
        }
    }
}

#[test]
fn no_days_give_nothing_but_not_none() {
    let mut yak = yak_of_age(400);
    let products = yak.step_days(0).unwrap();
    assert_eq!(products.milk_hundredths(), 0);
    assert_eq!(products.wool(), 0);
    assert_eq!(yak.age(), 400);
    assert_eq!(yak.age_last_shaved(), 0);
}

#[test]
fn one_day_of_a_newborn() {
    let mut yak = yak_of_age(0);
    let products = yak.step_days(1).unwrap();
    assert_eq!(products.milk_hundredths(), 5_000);
    assert_eq!(products.wool(), 0);
    assert_eq!(yak.age(), 1);
    assert_eq!(yak.age_last_shaved(), 0);
}

#[test]
fn one_day_at_the_shave_age() {
    let mut yak = yak_of_age(100);
    let products = yak.step_days(1).unwrap();
    assert_eq!(products.milk_hundredths(), 4_700);
    assert_eq!(products.wool(), 1);
    assert_eq!(yak.age(), 101);
    assert_eq!(yak.age_last_shaved(), 100);
}

#[test]
fn eleven_days_from_the_shave_age() {
    let mut yak = yak_of_age(100);
    let products = yak.step_days(11).unwrap();
    assert_eq!(products.wool(), 2);
    assert_eq!(yak.age(), 111);
    assert_eq!(yak.age_last_shaved(), 110);
    // 4700 + 4697 + ... + 4670
    assert_eq!(products.milk_hundredths(), 11 * 4_700 - 3 * 55);
}

#[test]
fn ten_days_from_the_shave_age_give_one_skin() {
    let mut yak = yak_of_age(100);
    let products = yak.step_days(10).unwrap();
    assert_eq!(products.wool(), 1);
    assert_eq!(yak.age_last_shaved(), 100);
}

#[test]
fn the_day_before_the_shave_age_gives_no_wool() {
    let mut yak = yak_of_age(0);
    let products = yak.step_days(100).unwrap();
    assert_eq!(products.wool(), 0);
    assert_eq!(yak.age(), 100);
    assert_eq!(yak.age_last_shaved(), 0);

    let mut yak = yak_of_age(0);
    let products = yak.step_days(101).unwrap();
    assert_eq!(products.wool(), 1);
    assert_eq!(yak.age_last_shaved(), 100);

    let mut yak = yak_of_age(99);
    let products = yak.step_days(1).unwrap();
    assert_eq!(products.wool(), 0);
    assert_eq!(yak.age_last_shaved(), 0);
}

#[test]
fn a_step_goes_on_past_the_greatest_age() {
    let mut yak = yak_of_age(998);
    let products = yak.step_days(10).unwrap();
    assert_eq!(yak.age(), 1_008);
    assert!(!yak.is_alive());
    // 2006 + 2003 + ... + 1979
    assert_eq!(products.milk_hundredths(), 10 * 2_006 - 3 * 45);
    assert_eq!(products.wool(), 1);
    assert_eq!(yak.age_last_shaved(), 998);
    assert!(yak.step_days(10).is_none());
    assert_eq!(yak.age(), 1_008);
}

#[test]
fn a_whole_life_gives_all_the_milk_there_is() {
    let mut yak = yak_of_age(0);
    let products = yak.step_days(1_667).unwrap();
    assert_eq!(products.milk_hundredths(), 4_169_167);
    assert_eq!(yak.age(), 1_667);

    let mut yak = yak_of_age(0);
    let products = yak.step_days(100_000).unwrap();
    assert_eq!(products.milk_hundredths(), 4_169_167);
    assert_eq!(yak.age(), 100_000);
    assert!(yak.age_last_shaved() <= yak.age());
    assert!(products.wool() <= 100_000);
}

#[test]
fn milk_is_the_sum_of_an_arithmetic_series() {
    for (age, days) in [(0u32, 13u32), (400, 13), (800, 14), (950, 14), (999, 667), (999, 668)] {
        let mut yak = yak_of_age(age);
        let products = yak.step_days(days).unwrap();
        let until = (age + days).min(1_667);
        let count = u64::from(until - age);
        let twice = count * (2 * 5_000 - 3 * u64::from(age + until - 1));
        assert_eq!(u64::from(products.milk_hundredths()), twice / 2);
    }
}

#[test]
fn steps_agree_with_the_rules_of_a_day() {
    for age in [0u32, 1, 50, 99, 100, 101, 400, 800, 950, 990, 999] {
        for days in [0u32, 1, 2, 9, 10, 11, 13, 14, 100, 365, 1_000, 3_000] {
            let mut yak = yak_of_age(age);
            let (milk, wool) = amounts(yak.step_days(days));
            let (end_age, end_shaved, end_milk, end_wool) = by_the_day(age, 0, days);
            assert_eq!(yak.age(), end_age);
            assert_eq!(yak.age_last_shaved(), end_shaved);
            assert_eq!(u64::from(milk), end_milk);
            assert_eq!(u64::from(wool), end_wool);
        }
    }
}

#[test]
fn two_steps_are_one_step_of_both() {
    for age in [0u32, 50, 99, 100, 400, 800, 950] {
        for first in [0u32, 1, 7, 13, 40] {
            for then in [0u32, 1, 7, 14, 9] {
                let mut twice = yak_of_age(age);
                let (milk_1, wool_1) = amounts(twice.step_days(first));
                let (milk_2, wool_2) = amounts(twice.step_days(then));
                let mut once = yak_of_age(age);
                let (milk, wool) = amounts(once.step_days(first + then));
                assert_eq!(twice.age(), once.age());
                assert_eq!(twice.age_last_shaved(), once.age_last_shaved());
                assert_eq!(milk_1 + milk_2, milk);
                assert_eq!(wool_1 + wool_2, wool);
            }
        }
    }
}

#[test]
fn two_steps_of_a_dead_yak_are_both_nothing() {
    let mut twice = yak_of_age(1_200);
    assert!(twice.step_days(5).is_none());
    assert!(twice.step_days(6).is_none());
    let mut once = yak_of_age(1_200);
    assert!(once.step_days(11).is_none());
    assert_eq!(twice.age(), once.age());
}

#[test]
fn a_yak_that_dies_in_the_first_step_takes_no_second() {
    let mut twice = yak_of_age(999);
    let first = twice.step_days(1).unwrap();
    assert!(twice.step_days(1).is_none());
    assert_eq!(twice.age(), 1_000);
    let mut once = yak_of_age(999);
    let both = once.step_days(2).unwrap();
    assert_eq!(once.age(), 1_001);
    assert_eq!(first.milk_hundredths(), 2_003);
    assert_eq!(both.milk_hundredths(), 2_003 + 2_000);

    // With no days in the second step the two ways agree again.
    let mut twice = yak_of_age(999);
    let first = twice.step_days(4).unwrap();
    assert!(twice.step_days(0).is_none());
    let mut once = yak_of_age(999);
    let both = once.step_days(4).unwrap();
    assert_eq!(twice.age(), once.age());
    assert_eq!(twice.age_last_shaved(), once.age_last_shaved());
    assert_eq!(first.milk_hundredths(), both.milk_hundredths());
    assert_eq!(first.wool(), both.wool());
}

#[test]
fn the_rules_of_today() {
    let yak = yak_of_age(100);
    assert_eq!(yak.produce_milk(), 4_700);
    assert!(yak.can_produce_wool());
    let yak = yak_of_age(99);
    assert_eq!(yak.produce_milk(), 4_703);
    assert!(!yak.can_produce_wool());
    let mut yak = yak_of_age(100);
    let _ = yak.step_days(1);
    assert!(!yak.can_produce_wool());
    let _ = yak.step_days(9);
    assert!(yak.can_produce_wool());
}

#[test]
fn lines_of_yaks() {
    assert_eq!(Yak::new("Betty-1".to_string(), 413).render(), "Betty-1 4.13 years old");
    assert_eq!(Yak::new("Betty-2".to_string(), 813).render(), "Betty-2 8.13 years old");
    assert_eq!(Yak::new("Betty-3".to_string(), 963).render(), "Betty-3 9.63 years old");
    assert_eq!(Yak::new("Betty-3".to_string(), 950).render(), "Betty-3 9.5 years old");
    assert_eq!(Yak::new("".to_string(), 999).render(), " 9.99 years old");
    assert_eq!(Yak::new("Old".to_string(), 1_001).render(), "Old 10.01 years old (dead)");
    assert_eq!(
        Yak::new("Oldest".to_string(), u32::MAX).render(),
        "Oldest 42949672.95 years old (dead)"
    );
}

#[test]
fn a_line_is_written_after_what_is_there() {
    let mut out = String::from("    ");
    Yak::new("Betty-1".to_string(), 400).write_line(&mut out);
    assert_eq!(out, "    Betty-1 4 years old");
}

#[test]
fn lines_agree_with_floating_point() {
    let mut age: u32 = 0;
    while age < 30_000 {
        let years = f64::from(age) / 100.0;
        let dead = if age >= 1_000 { " (dead)" } else { "" };
        assert_eq!(yak_of_age(age).render(), format!("Yak {years} years old{dead}"));
        age += 1;
    }
    let mut age: u32 = 30_000;
    while age < u32::MAX - 7_919 {
        let years = f64::from(age) / 100.0;
        assert_eq!(yak_of_age(age).render(), format!("Yak {years} years old (dead)"));
        age += 7_919;
    }
}

#[test]
fn a_yak_from_a_floating_point_age() {
    let yak = Yak::from_float_years("Betty-1".to_string(), 4.0f64.to_bits()).unwrap();
    assert_eq!(yak.name(), "Betty-1");
    assert_eq!(yak.age(), 400);
    assert_eq!(yak.age_last_shaved(), 0);
    let yak = Yak::from_float_years("Betty-3".to_string(), 9.5f64.to_bits()).unwrap();
    assert_eq!(yak.age(), 950);
    let yak = Yak::from_float_years("x".to_string(), 0.999f64.to_bits()).unwrap();
    assert_eq!(yak.age(), 99);
    let yak = Yak::from_float_years("x".to_string(), 10.0f64.to_bits()).unwrap();
    assert_eq!(yak.age(), 1_000);
    assert!(!yak.is_alive());
}

#[test]
fn no_yak_from_an_age_that_is_refused() {
    let name = || "Betty-1".to_string();
    assert_eq!(
        Yak::from_float_years(name(), f64::NAN.to_bits()).err(),
        Some(InvalidAge::NotANumber)
    );
    assert_eq!(
        Yak::from_float_years(name(), f64::INFINITY.to_bits()).err(),
        Some(InvalidAge::Infinite)
    );
    assert_eq!(Yak::from_float_years(name(), (-1.0f64).to_bits()).err(), Some(InvalidAge::Negative));
    assert_eq!(Yak::from_float_years(name(), 1e9f64.to_bits()).err(), Some(InvalidAge::TooLarge));
}
