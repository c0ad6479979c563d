use decision_engine::datasource::DecisionDataset;
use decision_engine::nodes::NodeResult;
use decision_engine::records::{
    ApplicationDataV1, ExperianV1_0, ExperianV1_1, MockedExperianV1_0Fetcher,
    MockedExperianV1_1Fetcher,
};
use decision_engine::rules::parse_i32;

fn applicant(age: i32) -> ApplicationDataV1 {
    ApplicationDataV1::new("Ada".to_string(), "Lovelace".to_string(), age)
}

#[test]
fn repeated_gets_fetch_once() {
    let mut d = DecisionDataset::with_fetchers(
        Some(applicant(30)),
        Some(MockedExperianV1_0Fetcher::new(ExperianV1_0 { score: 640 })),
        None,
    );
    for _ in 0..3 {
        assert_eq!(d.get_experian_v1_0(), Some(ExperianV1_0 { score: 640 }));
    }
    assert_eq!(d.experian_v1_0_fetcher.unwrap().calls(), 1);
}

#[test]
fn get_without_fetcher_gives_nothing() {
    let mut d = DecisionDataset::get_empty();
    assert_eq!(d.get_experian_v1_0(), None);
    assert_eq!(d.get_experian_v1_1(), None);
    assert!(d.get_application_data_v1().is_none());
}

#[test]
fn new_dataset_uses_default_fetchers() {
    let mut d = DecisionDataset::new(applicant(40));
    assert_eq!(d.get_experian_v1_1(), Some(ExperianV1_1 { score: 1000, debt: 0 }));
    assert_eq!(d.get_experian_v1_1(), Some(ExperianV1_1 { score: 1000, debt: 0 }));
    assert_eq!(d.experian_v1_1_fetcher.unwrap().calls(), 1);
    assert_eq!(d.get_application_data_v1().unwrap().age(), 40);
}

#[test]
fn variables_shadow_older_bindings() {
    let mut d = DecisionDataset::get_empty();
    let name = "limit".to_string();
    assert!(d.get_variable(&name).is_none());
    d.set_variable(name.clone(), NodeResult::Numeric(1));
    d.set_variable(name.clone(), NodeResult::Numeric(2));
    assert_eq!(d.get_variable(&name), Some(NodeResult::Numeric(2)));
}

#[test]
fn record_accessors() {
    let a = applicant(21);
    assert_eq!(a.first_name(), "Ada");
    assert_eq!(a.last_name(), "Lovelace");
    assert_eq!(ApplicationDataV1::decision_data_type(), "ApplicationData");
    assert_eq!(ExperianV1_1::decision_data_type(), "Experian V1.1");
    let r = ExperianV1_1 { score: 700, debt: 12 };
    assert_eq!((r.score(), r.debt()), (700, 12));
    assert_eq!(ExperianV1_0 { score: 5 }.score(), 5);
    assert_eq!(MockedExperianV1_0Fetcher::test().data, ExperianV1_0 { score: 1000 });
    assert_eq!(MockedExperianV1_1Fetcher::test().calls(), 0);
}

#[test]
fn parses_decimal_ids() {
    assert_eq!(parse_i32("42"), Some(42));
    assert_eq!(parse_i32("-7"), Some(-7));
    assert_eq!(parse_i32("+3"), Some(3));
    assert_eq!(parse_i32("007"), Some(7));
    assert_eq!(parse_i32("-2147483648"), Some(i32::MIN));
    assert_eq!(parse_i32("2147483647"), Some(i32::MAX));
    assert_eq!(parse_i32("2147483648"), None);
    assert_eq!(parse_i32("99999999999999"), None);
    assert_eq!(parse_i32(""), None);
    assert_eq!(parse_i32("-"), None);
    assert_eq!(parse_i32("12a"), None);
}
