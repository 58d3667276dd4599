use fbar::data::{AccountDefinition, Date};

fn account_opened(opening: Date, closing: Option<Date>) -> AccountDefinition {
    AccountDefinition {
        handle: "test".to_string(),
        provider_handle: "test_provider".to_string(),
        provider: None,
        currency_code: "USD".to_string(),
        identifier1: "123".to_string(),
        identifier1_name: "account".to_string(),
        identifier2: None,
        identifier2_name: None,
        joint_holder_names: vec![],
        opening_date: opening,
        closing_date: closing,
    }
}

#[test]
fn test_is_joint() {
    let mut account = AccountDefinition {
        handle: "test".to_string(),
        provider_handle: "test_provider".to_string(),
        provider: None,
        currency_code: "USD".to_string(),
        identifier1: "123".to_string(),
        identifier1_name: "account".to_string(),
        identifier2: None,
        identifier2_name: None,
        joint_holder_names: vec![],
        opening_date: Date::from_ymd_opt(2023, 1, 1).unwrap(),
        closing_date: None,
    };

    // Test single account
    assert!(!account.is_joint());

    // Test joint account
    account.joint_holder_names = vec!["Jane Doe".to_string()];
    assert!(account.is_joint());
}

#[test]
fn test_open_during() {
    let mut account = AccountDefinition {
        handle: "test".to_string(),
        provider_handle: "test_provider".to_string(),
        provider: None,
        currency_code: "USD".to_string(),
        identifier1: "123".to_string(),
        identifier1_name: "account".to_string(),
        identifier2: None,
        identifier2_name: None,
        joint_holder_names: vec![],
        opening_date: Date::from_ymd_opt(2023, 1, 1).unwrap(),
        closing_date: None,
    };

    // Test still open account
    assert!(account.open_during(2023));
    assert!(account.open_during(2024));
    assert!(!account.open_during(2022));

    // Test closed account
    account.closing_date = Some(Date::from_ymd_opt(2024, 6, 30).unwrap());
    assert!(account.open_during(2023));
    assert!(account.open_during(2024));
    assert!(!account.open_during(2025));
    assert!(!account.open_during(2022));
}

#[test]
fn test_open_on() {
    let mut account = AccountDefinition {
        handle: "test".to_string(),
        provider_handle: "test_provider".to_string(),
        provider: None,
        currency_code: "USD".to_string(),
        identifier1: "123".to_string(),
        identifier1_name: "account".to_string(),
        identifier2: None,
        identifier2_name: None,
        joint_holder_names: vec![],
        opening_date: Date::from_ymd_opt(2023, 1, 1).unwrap(),
        closing_date: None,
    };

    // Test still open account
    assert!(account.open_on(Date::from_ymd_opt(2023, 1, 1).unwrap())); // Opening date
    assert!(account.open_on(Date::from_ymd_opt(2024, 6, 30).unwrap())); // Future date
    assert!(!account.open_on(Date::from_ymd_opt(2022, 12, 31).unwrap())); // Before opening

    // Test closed account
    account.closing_date = Some(Date::from_ymd_opt(2024, 6, 30).unwrap());
    assert!(account.open_on(Date::from_ymd_opt(2023, 1, 1).unwrap())); // Opening date
    assert!(account.open_on(Date::from_ymd_opt(2024, 6, 30).unwrap())); // Closing date
    assert!(account.open_on(Date::from_ymd_opt(2024, 1, 1).unwrap())); // During open period
    assert!(!account.open_on(Date::from_ymd_opt(2024, 7, 1).unwrap())); // After closing
    assert!(!account.open_on(Date::from_ymd_opt(2022, 12, 31).unwrap()));
    // Before opening
}

#[test]
fn joint_with_several_holders() {
    let mut account = account_opened(Date::from_ymd_opt(2020, 5, 17).unwrap(), None);
    account.joint_holder_names = vec!["John Doe".to_string(), "Jane Doe".to_string()];
    assert!(account.is_joint());
}

#[test]
fn open_on_compares_month_before_day() {
    let account = account_opened(
        Date::from_ymd_opt(2023, 3, 31).unwrap(),
        Some(Date::from_ymd_opt(2023, 11, 2).unwrap()),
    );
    // a later month with an earlier day of the month
    assert!(account.open_on(Date::from_ymd_opt(2023, 4, 1).unwrap()));
    assert!(account.open_on(Date::from_ymd_opt(2023, 10, 30).unwrap()));
    // an earlier month with a later day of the month
    assert!(!account.open_on(Date::from_ymd_opt(2023, 2, 28).unwrap()));
    assert!(!account.open_on(Date::from_ymd_opt(2023, 3, 30).unwrap()));
    assert!(!account.open_on(Date::from_ymd_opt(2023, 11, 3).unwrap()));
    assert!(!account.open_on(Date::from_ymd_opt(2023, 12, 1).unwrap()));
}

#[test]
fn open_one_day_only() {
    let day = Date::from_ymd_opt(2024, 2, 29).unwrap();
    let account = account_opened(day, Some(day));
    assert!(account.open_on(day));
    assert!(!account.open_on(Date::from_ymd_opt(2024, 2, 28).unwrap()));
    assert!(!account.open_on(Date::from_ymd_opt(2024, 3, 1).unwrap()));
    assert!(account.open_during(2024));
    assert!(!account.open_during(2023));
    assert!(!account.open_during(2025));
}

#[test]
fn open_during_at_the_edges_of_a_year() {
    // opened on the last day of a year
    let account = account_opened(Date::from_ymd_opt(2021, 12, 31).unwrap(), None);
    assert!(account.open_during(2021));
    assert!(!account.open_during(2020));
    // closed on the first day of a year
    let account = account_opened(
        Date::from_ymd_opt(2019, 7, 1).unwrap(),
        Some(Date::from_ymd_opt(2022, 1, 1).unwrap()),
    );
    assert!(account.open_during(2022));
    assert!(!account.open_during(2023));
    assert!(account.open_during(2019));
    assert!(!account.open_during(2018));
}

#[test]
fn open_during_any_year_an_i32_can_hold() {
    let account = account_opened(Date::from_ymd_opt(2023, 1, 1).unwrap(), None);
    assert!(account.open_during(i32::MAX));
    assert!(!account.open_during(i32::MIN));
    let closed = account_opened(
        Date::from_ymd_opt(2023, 1, 1).unwrap(),
        Some(Date::from_ymd_opt(2024, 6, 30).unwrap()),
    );
    assert!(!closed.open_during(i32::MAX));
    assert!(!closed.open_during(i32::MIN));
}

#[test]
fn open_during_agrees_with_open_on_some_day() {
    let account = account_opened(
        Date::from_ymd_opt(2023, 1, 1).unwrap(),
        Some(Date::from_ymd_opt(2024, 6, 30).unwrap()),
    );
    for year in 2021..2027 {
        let mut some_day = false;
        for month in 1..13 {
            for day in 1..32 {
                if let Some(date) = Date::from_ymd_opt(year, month, day) {
                    some_day = some_day || account.open_on(date);
                }
            }
        }
        assert_eq!(account.open_during(year), some_day);
    }
}
