use qamydata::report::{Locator, LocatorSet, Report, Status, Summary};

fn locator(name: &str, variable_index: i32, value_index: i32, reason: Option<&str>) -> Locator {
    Locator {
        variable_name: name.to_string(),
        variable_index,
        value_index,
        reason: reason.map(|r| r.to_string()),
    }
}

#[test]
fn same_locator_twice_gives_a_set_of_one() {
    let mut status = Status::new("desc");
    status.add_locator(locator("age", 2, -1, Some("why")));
    status.add_locator(locator("age", 2, -1, Some("why")));
    assert_eq!(status.locator.as_ref().unwrap().len(), 1);
}

#[test]
fn locators_that_differ_in_one_field_are_apart() {
    let mut set = LocatorSet::new();
    assert!(set.insert(locator("age", 2, -1, Some("why"))));
    assert!(set.insert(locator("agE", 2, -1, Some("why"))));
    assert!(set.insert(locator("age", 3, -1, Some("why"))));
    assert!(set.insert(locator("age", 2, 7, Some("why"))));
    assert!(set.insert(locator("age", 2, -1, Some("why not"))));
    assert!(set.insert(locator("age", 2, -1, None)));
    assert_eq!(set.len(), 6);
    assert!(!set.insert(locator("age", 2, -1, None)));
    assert!(!set.insert(locator("age", 2, 7, Some("why"))));
    assert_eq!(set.len(), 6);
}

#[test]
fn locator_set_keeps_insertion_order() {
    let mut set = LocatorSet::new();
    set.insert(locator("c", 3, -1, None));
    set.insert(locator("a", 1, -1, None));
    set.insert(locator("c", 3, -1, None));
    set.insert(locator("b", 2, -1, None));
    assert_eq!(set.len(), 3);
    assert_eq!(set.get(0).variable_name, "c");
    assert_eq!(set.get(1).variable_name, "a");
    assert_eq!(set.get(2).variable_name, "b");
}

#[test]
fn locator_set_contains_what_was_inserted() {
    let mut set = LocatorSet::new();
    assert!(!set.contains(&locator("a", 1, -1, None)));
    set.insert(locator("a", 1, -1, None));
    assert!(set.contains(&locator("a", 1, -1, None)));
    assert!(!set.contains(&locator("a", 1, 1, None)));
}

#[test]
fn same_as_compares_all_four_fields() {
    let a = locator("a", 1, -1, Some("r"));
    assert!(a.same_as(&locator("a", 1, -1, Some("r"))));
    assert!(!a.same_as(&locator("b", 1, -1, Some("r"))));
    assert!(!a.same_as(&locator("a", 2, -1, Some("r"))));
    assert!(!a.same_as(&locator("a", 1, 0, Some("r"))));
    assert!(!a.same_as(&locator("a", 1, -1, Some("s"))));
    assert!(!a.same_as(&locator("a", 1, -1, None)));
}

#[test]
fn new_status_is_empty() {
    let status = Status::new("what it looks for");
    assert_eq!(status.pass, 0);
    assert_eq!(status.fail, 0);
    assert_eq!(status.desc, "what it looks for");
    assert!(status.locator.is_none());
}

#[test]
fn record_pass_counts_one() {
    let mut status = Status::new("d");
    status.record_pass();
    status.record_pass();
    assert_eq!(status.pass, 2);
    assert_eq!(status.fail, 0);
    assert!(status.locator.is_none());
}

#[test]
fn record_fail_counts_one_and_keeps_the_locator() {
    let mut status = Status::new("d");
    status.record_fail(locator("a", 1, -1, Some("r")));
    assert_eq!(status.pass, 0);
    assert_eq!(status.fail, 1);
    let set = status.locator.as_ref().unwrap();
    assert_eq!(set.len(), 1);
    assert_eq!(set.get(0), &locator("a", 1, -1, Some("r")));
}

#[test]
fn new_report_is_empty() {
    let report = Report::new("survey.dta");
    assert_eq!(report.metadata.file_name, "survey.dta");
    assert_eq!(report.metadata.raw_case_count, 0);
    assert_eq!(report.metadata.variable_count, 0);
    assert_eq!(report.metadata.case_count, None);
    assert_eq!(report.metadata.file_encoding, None);
    assert_eq!(report.summary.len(), 0);
}

#[test]
fn entry_creates_a_fresh_status() {
    let mut summary = Summary::new();
    {
        let status = summary.entry("check_a", "looks for a");
        assert_eq!(status.pass, 0);
        assert_eq!(status.fail, 0);
        assert_eq!(status.desc, "looks for a");
        assert!(status.locator.is_none());
    }
    assert_eq!(summary.len(), 1);
    assert_eq!(summary.name_at(0), "check_a");
}

#[test]
fn entry_is_idempotent() {
    let mut summary = Summary::new();
    summary.entry("check_a", "looks for a").fail = 4;
    summary.entry("check_a", "another description").pass = 6;
    assert_eq!(summary.len(), 1);
    let status = summary.get("check_a").unwrap();
    assert_eq!(status.fail, 4);
    assert_eq!(status.pass, 6);
    assert_eq!(status.desc, "looks for a");
}

#[test]
fn summary_keeps_the_order_of_entry() {
    let mut summary = Summary::new();
    summary.entry("zeta", "z");
    summary.entry("alpha", "a");
    summary.entry("zeta", "z");
    summary.entry("mid", "m");
    assert_eq!(summary.len(), 3);
    assert_eq!(summary.name_at(0), "zeta");
    assert_eq!(summary.name_at(1), "alpha");
    assert_eq!(summary.name_at(2), "mid");
    assert_eq!(summary.status_at(1).desc, "a");
    assert_eq!(summary.find("mid"), Some(2));
    assert_eq!(summary.find("none"), None);
}

#[test]
fn check_that_never_ran_is_absent() {
    let mut summary = Summary::new();
    summary.entry("ran", "r");
    assert!(summary.get("ran").is_some());
    assert!(summary.get("never").is_none());
}
