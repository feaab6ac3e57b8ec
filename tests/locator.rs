use phase1_coordinator::errors::CoordinatorError;
use phase1_coordinator::locator::{push_decimal, Locator};

#[test]
fn keys_have_the_documented_shapes() {
    assert_eq!(Locator::RoundHeight.to_key(), "round_height");
    assert_eq!(Locator::RoundState(3).to_key(), "round_3/state.json");
    assert_eq!(Locator::RoundFile(12).to_key(), "round_12/round_12.verified");
    assert_eq!(
        Locator::ContributionFile(1, 2, 3, true).to_key(),
        "round_1/chunk_2/contribution_3.verified"
    );
    assert_eq!(
        Locator::ContributionFile(1, 2, 3, false).to_key(),
        "round_1/chunk_2/contribution_3.unverified"
    );
    assert_eq!(
        Locator::ContributionFile(1, 2, 0, false).to_key(),
        "round_1/chunk_2/contribution_0.verified"
    );
    assert_eq!(
        Locator::RoundState(7).to_path("/tmp/base"),
        "/tmp/base/round_7/state.json"
    );
}

#[test]
fn keys_parse_back() {
    let locators = [
        Locator::RoundHeight,
        Locator::RoundState(0),
        Locator::RoundState(18446744073709551615),
        Locator::RoundFile(40),
        Locator::ContributionFile(0, 0, 0, true),
        Locator::ContributionFile(9, 10, 11, true),
        Locator::ContributionFile(9, 10, 11, false),
        Locator::ContributionFile(123456789, 0, 1, false),
    ];
    for l in locators.iter() {
        assert_eq!(Locator::from_key(&l.to_key()), Ok(*l));
        assert_eq!(Locator::from_path("base/dir", &l.to_path("base/dir")), Ok(*l));
    }
}

#[test]
fn malformed_keys_are_refused() {
    let bad = [
        "",
        "round_heights",
        "round_",
        "round_01/state.json",
        "round_1/state.jsonx",
        "round_1/round_2.verified",
        "round_1/chunk_1/contribution_0.unverified",
        "round_1/chunk_1/contribution_2",
        "round_1/chunk_x/contribution_2.verified",
        "round_18446744073709551616/state.json",
        "round_1/chunk_1/contribution_2.verifiedx",
        "Round_1/state.json",
    ];
    for k in bad.iter() {
        assert_eq!(Locator::from_key(k), Err(CoordinatorError::LocatorFormatIncorrect), "{}", k);
    }
    assert_eq!(
        Locator::from_path("base", "other/round_height"),
        Err(CoordinatorError::LocatorFormatIncorrect)
    );
    assert_eq!(Locator::from_path("base", "base/"), Err(CoordinatorError::LocatorFormatIncorrect));
}

#[test]
fn decimals_have_no_leading_zeros() {
    let mut s = String::from("n=");
    push_decimal(&mut s, 0);
    assert_eq!(s, "n=0");
    let mut s = String::new();
    push_decimal(&mut s, 1090);
    assert_eq!(s, "1090");
}
