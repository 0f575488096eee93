use cedar_agent::lcg::{Lcg, LCG_INCREMENT, LCG_MULTIPLIER, SEED_MASK, UNIT};
use cedar_agent::names::{clearance_str, dept_name, team_name, Action};
use cedar_agent::text::{decimal_len, push_decimal, push_padded};

fn step(s: u64) -> u64 {
    ((s as u128 * 6364136223846793005u128 + 1442695040888963407u128) % (1u128 << 64)) as u64
}

#[test]
fn lcg_constants_are_the_documented_ones() {
    assert_eq!(LCG_MULTIPLIER, 6364136223846793005);
    assert_eq!(LCG_INCREMENT, 1442695040888963407);
    assert_eq!(SEED_MASK, 0xdead_beef_cafe_babe);
    assert_eq!(UNIT, 1u64 << 53);
}

#[test]
fn lcg_next_follows_the_recurrence() {
    let mut rng = Lcg::new(42);
    let mut s = 42u64 ^ 0xdead_beef_cafe_babe;
    for _ in 0..100 {
        s = step(s);
        assert_eq!(rng.next(), s);
    }
}

#[test]
fn lcg_range_stays_in_bounds() {
    let mut rng = Lcg::new(7);
    for _ in 0..1000 {
        let v = rng.range(3, 17);
        assert!(3 <= v && v < 17);
    }
}

#[test]
fn lcg_range_on_empty_interval_returns_lo_without_drawing() {
    let mut a = Lcg::new(9);
    let mut b = Lcg::new(9);
    assert_eq!(a.range(5, 5), 5);
    assert_eq!(a.range(6, 2), 6);
    assert_eq!(a.next(), b.next());
}

#[test]
fn lcg_range_exact_value() {
    let mut rng = Lcg::new(0);
    let s = step(0xdead_beef_cafe_babe);
    assert_eq!(rng.range(10, 20), 10 + (s as usize) % 10);
}

#[test]
fn lcg_frac_bits_are_the_high_53_bits() {
    let mut rng = Lcg::new(1);
    let s = step(1 ^ 0xdead_beef_cafe_babe);
    let bits = rng.frac_bits();
    assert_eq!(bits, s >> 11);
    assert!(bits < (1u64 << 53));
}

#[test]
fn lcg_biased_respects_the_cutoff() {
    for seed in 0..50u64 {
        let mut hot = Lcg::new(seed);
        let v = hot.biased(100, 5, UNIT);
        assert!(v < 5);
        let mut cold = Lcg::new(seed);
        let v = cold.biased(100, 5, 0);
        assert!(5 <= v && v < 100);
    }
}

#[test]
fn dept_names_in_order_then_other() {
    let expected = ["engineering", "finance", "legal", "hr", "sales", "ops", "research", "security"];
    for (i, name) in expected.iter().enumerate() {
        assert_eq!(dept_name(i), *name);
    }
    assert_eq!(dept_name(8), "dept_other");
    assert_eq!(dept_name(1000), "dept_other");
}

#[test]
fn team_names_join_department_and_index() {
    assert_eq!(team_name(0, 3), "engineering_3");
    assert_eq!(team_name(9, 12), "dept_other_12");
}

#[test]
fn clearance_names() {
    assert_eq!(clearance_str(0), "public");
    assert_eq!(clearance_str(1), "internal");
    assert_eq!(clearance_str(2), "confidential");
    assert_eq!(clearance_str(3), "secret");
    assert_eq!(clearance_str(77), "secret");
}

#[test]
fn action_names() {
    assert_eq!(Action::Read.name(), "read");
    assert_eq!(Action::Update.name(), "update");
    assert_eq!(Action::Delete.name(), "delete");
    assert_eq!(Action::Admin.name(), "admin");
}

#[test]
fn decimal_rendering_matches_format() {
    for n in [0usize, 1, 9, 10, 99, 100, 12345, 999_999, 1_000_000, usize::MAX] {
        let mut s = String::from("x");
        push_decimal(&mut s, n);
        assert_eq!(s, format!("x{n}"));
        assert_eq!(decimal_len(n), format!("{n}").len());
    }
}

#[test]
fn padded_rendering_matches_format() {
    for n in [0usize, 7, 42, 123456, 1234567, 99_999_999] {
        let mut s = String::new();
        push_padded(&mut s, n, 6);
        assert_eq!(s, format!("{n:06}"));
        let mut t = String::new();
        push_padded(&mut t, n, 7);
        assert_eq!(t, format!("{n:07}"));
    }
}
