use qamydata::render::{
    locator_row, locator_rows, value_if_positive, value_if_present, LocatorRow,
};
use qamydata::report::{Locator, LocatorSet};

#[test]
fn present_value_is_shown() {
    assert_eq!(value_if_present(&Some("why".to_string()), "-".to_string()), "why");
}

#[test]
fn absent_value_shows_the_default() {
    assert_eq!(value_if_present(&None, "-".to_string()), "-");
}

#[test]
fn negative_index_shows_the_default() {
    assert_eq!(value_if_positive(-1, "-"), "-");
    assert_eq!(value_if_positive(i32::MIN, "none"), "none");
}

#[test]
fn index_from_zero_up_is_shown_in_decimal() {
    assert_eq!(value_if_positive(0, "-"), "0");
    assert_eq!(value_if_positive(17, "-"), "17");
    assert_eq!(value_if_positive(i32::MAX, "-"), "2147483647");
}

#[test]
fn rows_show_the_locators_in_order() {
    let mut set = LocatorSet::new();
    set.insert(Locator {
        variable_name: "dob".to_string(),
        variable_index: 12,
        value_index: -1,
        reason: Some("date format is too precise".to_string()),
    });
    set.insert(Locator {
        variable_name: "pay".to_string(),
        variable_index: 3,
        value_index: 40,
        reason: None,
    });
    assert_eq!(
        locator_rows(&set),
        vec![
            LocatorRow {
                number: 1,
                variable: "dob (12)".to_string(),
                row: "-".to_string(),
                reason: "date format is too precise".to_string(),
            },
            LocatorRow {
                number: 2,
                variable: "pay (3)".to_string(),
                row: "40".to_string(),
                reason: "-".to_string(),
            },
        ]
    );
}

#[test]
fn no_locators_no_rows() {
    assert_eq!(locator_rows(&LocatorSet::new()), Vec::new());
}

#[test]
fn rows_are_cut_after_a_thousand() {
    let mut set = LocatorSet::new();
    for i in 0..1005 {
        set.insert(Locator {
            variable_name: "v".to_string(),
            variable_index: 1,
            value_index: i,
            reason: None,
        });
    }
    assert_eq!(set.len(), 1005);
    let rows = locator_rows(&set);
    assert_eq!(rows.len(), 1000);
    assert_eq!(rows[0].number, 1);
    assert_eq!(rows[0].row, "0");
    assert_eq!(rows[999].number, 1000);
    assert_eq!(rows[999].row, "999");
}

#[test]
fn a_row_can_stand_beyond_the_limit_of_a_table() {
    let locator = Locator {
        variable_name: "v".to_string(),
        variable_index: 9,
        value_index: 4,
        reason: Some("why".to_string()),
    };
    assert_eq!(
        locator_row(&locator, 5000),
        LocatorRow {
            number: 5001,
            variable: "v (9)".to_string(),
            row: "4".to_string(),
            reason: "why".to_string(),
        }
    );
    assert_eq!(locator_row(&locator, 0).number, 1);
}
