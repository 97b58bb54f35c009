use team_dashboard::aggregate::aggregate;
use team_dashboard::formatting::{chart_or_placeholder, decimal_string, format_total_cost, widget_values};
use team_dashboard::header::{get_style_from_url, NavState};
use team_dashboard::models::Person;
use team_dashboard::person_errors::{create_myerror_message, MyError};

const INPUT_STYLE: &str = "border-b-0 border-[#7734e7] h-8 text-white ml-4 mr-4 hover:border-b-2";
const INPUT_STYLE_SELECTED: &str =
    "border-b-2 border-[#9734e7] h-8 text-white ml-4 mr-4 hover:border-b-2";

#[test]
fn decimal_strings() {
    assert_eq!(decimal_string(0), "0");
    assert_eq!(decimal_string(7), "7");
    assert_eq!(decimal_string(42), "42");
    assert_eq!(decimal_string(1000), "1000");
    assert_eq!(decimal_string(987654321), "987654321");
}

#[test]
fn total_cost_grouping() {
    assert_eq!(format_total_cost(0), "$0");
    assert_eq!(format_total_cost(999), "$999");
    assert_eq!(format_total_cost(1000), "$1,000");
    assert_eq!(format_total_cost(15000), "$15,000");
    assert_eq!(format_total_cost(1234567), "$1,234,567");
    assert_eq!(format_total_cost(1000000), "$1,000,000");
    assert_eq!(format_total_cost(-1234567), "$-1,234,567");
    assert_eq!(format_total_cost(200), "$200");
}

#[test]
fn widget_value_strings() {
    let roster = vec![
        Person { name: "Ana".to_owned(), title: "Eng".to_owned(), compensation: 700000 },
        Person { name: "Bo".to_owned(), title: "PM".to_owned(), compensation: 534567 },
    ];
    let result = aggregate(&roster);
    let (headcount, cost, latest) = widget_values(&result);
    assert_eq!(headcount, "2");
    assert_eq!(cost, "$1,234,567");
    assert_eq!(latest, "Ana");
}

#[test]
fn widget_values_empty_roster() {
    let result = aggregate(&Vec::new());
    let (headcount, cost, latest) = widget_values(&result);
    assert_eq!(headcount, "0");
    assert_eq!(cost, "$0");
    assert_eq!(latest, "");
}

#[test]
fn chart_failure_degrades_to_placeholder() {
    assert_eq!(
        chart_or_placeholder(Some("<svg></svg>".to_owned())),
        "<svg></svg>"
    );
    assert_eq!(
        chart_or_placeholder(None),
        "<p>Error generating chart</p>"
    );
}

#[test]
fn error_messages() {
    assert_eq!(create_myerror_message(MyError::PersonNotFound), "member not found");
    assert_eq!(create_myerror_message(MyError::ConnectionTimeout), "connection timeout");
    assert_eq!(create_myerror_message(MyError::PersonsFetchFailure), "failed to fetch members");
    assert_eq!(create_myerror_message(MyError::PersonUpdateFailure), "failed to update member");
    assert_eq!(create_myerror_message(MyError::PersonCreationFailure), "failed to create member");
    assert_eq!(create_myerror_message(MyError::PersonDeleteFailure), "failed to delete member");
}

#[test]
fn navigation_styles() {
    let current = "/team".to_owned();
    assert_eq!(get_style_from_url(&current, &"/team".to_owned()), INPUT_STYLE_SELECTED);
    assert_eq!(get_style_from_url(&current, &"/".to_owned()), INPUT_STYLE);
}

#[test]
fn nav_state_setter() {
    let mut nav = NavState::new();
    assert_eq!(nav.style_for(&"/".to_owned()), INPUT_STYLE);
    nav.set_current_path("/".to_owned());
    assert_eq!(nav.style_for(&"/".to_owned()), INPUT_STYLE_SELECTED);
    nav.set_current_path("/team".to_owned());
    assert_eq!(nav.style_for(&"/".to_owned()), INPUT_STYLE);
    assert_eq!(nav.style_for(&"/team".to_owned()), INPUT_STYLE_SELECTED);
}
