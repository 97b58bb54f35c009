use team_dashboard::aggregate::{aggregate, AggregationResult};
use team_dashboard::models::Person;

fn person(name: &str, title: &str, compensation: i32) -> Person {
    Person { name: name.to_owned(), title: title.to_owned(), compensation }
}

fn histogram(result: &AggregationResult) -> Vec<(String, usize)> {
    result
        .titles
        .iter()
        .cloned()
        .zip(result.counts.iter().cloned())
        .collect()
}

#[test]
fn empty_roster() {
    let result = aggregate(&Vec::new());
    assert_eq!(result.headcount, 0);
    assert_eq!(result.total_cost, 0);
    assert_eq!(result.latest_member, "");
    assert!(result.titles.is_empty());
    assert!(result.counts.is_empty());
}

#[test]
fn single_record() {
    let result = aggregate(&vec![person("Ana", "Eng", 5000)]);
    assert_eq!(result.headcount, 1);
    assert_eq!(result.total_cost, 5000);
    assert_eq!(result.latest_member, "Ana");
    assert_eq!(histogram(&result), vec![("Eng".to_owned(), 1)]);
}

#[test]
fn three_records_first_seen_order() {
    let roster = vec![
        person("Ana", "Eng", 5000),
        person("Bo", "PM", 6000),
        person("Cy", "Eng", 4000),
    ];
    let result = aggregate(&roster);
    assert_eq!(result.headcount, 3);
    assert_eq!(result.total_cost, 15000);
    assert_eq!(result.latest_member, "Ana");
    // "Eng" keeps the front position it got when first seen, although
    // "PM" was inserted between the two "Eng" records.
    assert_eq!(
        histogram(&result),
        vec![("Eng".to_owned(), 2), ("PM".to_owned(), 1)]
    );
}

#[test]
fn shared_title() {
    let roster = vec![
        person("Ana", "Eng", 100),
        person("Bo", "Eng", 200),
        person("Cy", "Eng", 300),
    ];
    let result = aggregate(&roster);
    assert_eq!(result.headcount, 3);
    assert_eq!(histogram(&result), vec![("Eng".to_owned(), 3)]);
}

#[test]
fn negative_compensation() {
    let roster = vec![person("A", "X", -100), person("B", "X", 300)];
    let result = aggregate(&roster);
    assert_eq!(result.total_cost, 200);
    assert_eq!(histogram(&result), vec![("X".to_owned(), 2)]);
}

#[test]
fn counts_add_up_to_headcount() {
    let roster = vec![
        person("A", "Eng", 1),
        person("B", "PM", 2),
        person("C", "Eng", 3),
        person("D", "Design", 4),
        person("E", "PM", 5),
        person("F", "Eng", 6),
    ];
    let result = aggregate(&roster);
    let total: usize = result.counts.iter().sum();
    assert_eq!(total, result.headcount);
    assert_eq!(result.headcount, 6);
}

#[test]
fn latest_member_is_first_record() {
    let roster = vec![person("Newest", "Eng", 1), person("Older", "Eng", 2)];
    let result = aggregate(&roster);
    assert_eq!(result.latest_member, "Newest");
}

#[test]
fn aggregation_is_idempotent() {
    let roster = vec![
        person("Ana", "Eng", 5000),
        person("Bo", "PM", 6000),
        person("Cy", "Eng", 4000),
    ];
    let first = aggregate(&roster);
    let second = aggregate(&roster);
    assert_eq!(first.headcount, second.headcount);
    assert_eq!(first.total_cost, second.total_cost);
    assert_eq!(first.latest_member, second.latest_member);
    assert_eq!(first.titles, second.titles);
    assert_eq!(first.counts, second.counts);
}

#[test]
fn titles_compared_exactly() {
    // Grouping is case- and whitespace-sensitive.
    let roster = vec![
        person("A", "Eng", 1),
        person("B", "eng", 1),
        person("C", "Eng ", 1),
    ];
    let result = aggregate(&roster);
    assert_eq!(
        histogram(&result),
        vec![
            ("Eng".to_owned(), 1),
            ("eng".to_owned(), 1),
            ("Eng ".to_owned(), 1)
        ]
    );
}
