use cookie_market::Cookies;

#[test]
fn add_is_exact_below_the_cap() {
    assert_eq!(Cookies(10).add(Cookies(20)).0, 30);
    assert_eq!(Cookies(0).add(Cookies(0)).0, 0);
    assert_eq!(Cookies(254).add(Cookies(1)).0, 255);
}

#[test]
fn add_saturates_at_255() {
    assert_eq!(Cookies(200).add(Cookies(100)).0, 255);
    assert_eq!(Cookies(255).add(Cookies(255)).0, 255);
    assert_eq!(Cookies(0).add(Cookies(255)).0, 255);
    assert_eq!(Cookies(255).add(Cookies(1)).0, 255);
}

#[test]
fn subtract_floors_at_zero() {
    assert_eq!(Cookies(9).subtract(Cookies(5)).0, 4);
    assert_eq!(Cookies(5).subtract(Cookies(9)).0, 0);
    assert_eq!(Cookies(0).subtract(Cookies(255)).0, 0);
    assert_eq!(Cookies(255).subtract(Cookies(255)).0, 0);
    assert_eq!(Cookies(255).subtract(Cookies(0)).0, 255);
}

#[test]
fn saturation_holds_for_every_byte_pair() {
    for a in 0..=255u8 {
        for b in 0..=255u8 {
            let sum = Cookies(a).add(Cookies(b)).0;
            let diff = Cookies(a).subtract(Cookies(b)).0;
            assert_eq!(sum as u32, std::cmp::min(a as u32 + b as u32, 255));
            assert_eq!(diff as i32, std::cmp::max(a as i32 - b as i32, 0));
        }
    }
}

#[test]
fn half_rounds_down_and_ignores_crumbs() {
    assert_eq!(Cookies(0).half(), Cookies(0));
    assert_eq!(Cookies(1).half(), Cookies(0));
    assert_eq!(Cookies(2).half(), Cookies(1));
    assert_eq!(Cookies(3).half(), Cookies(1));
    assert_eq!(Cookies(255).half(), Cookies(127));
}

#[test]
fn assigning_forms_saturate_too() {
    let mut c = Cookies(250);
    c.add_assign(Cookies(3));
    assert_eq!(c.0, 253);
    c.add_assign(Cookies(3));
    assert_eq!(c.0, 255);
    c.sub_assign(Cookies(55));
    assert_eq!(c.0, 200);
    c.sub_assign(Cookies(201));
    assert_eq!(c.0, 0);
}

#[test]
fn balances_compare_by_amount() {
    assert!(Cookies(3) < Cookies(4));
    assert!(Cookies(4) > Cookies(3));
    assert!(Cookies(4) <= Cookies(4));
    assert!(Cookies(4) >= Cookies(4));
    assert!(Cookies(7) == Cookies(7));
    assert!(Cookies(7) != Cookies(8));
    assert_eq!(Cookies(1).partial_cmp(&Cookies(2)), Some(std::cmp::Ordering::Less));
    assert_eq!(Cookies(2).partial_cmp(&Cookies(2)), Some(std::cmp::Ordering::Equal));
    assert_eq!(Cookies::default().0, 0);
}
