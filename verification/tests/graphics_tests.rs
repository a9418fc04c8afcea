use tanker::graphics::{client_label, Materialized};

#[test]
fn label_names_the_client() {
    assert_eq!(client_label(0), "Client: 0");
    assert_eq!(client_label(7), "Client: 7");
    assert_eq!(client_label(10), "Client: 10");
    assert_eq!(client_label(1_700_000_000_123), "Client: 1700000000123");
    assert_eq!(client_label(u64::MAX), "Client: 18446744073709551615");
}

#[test]
fn first_look_reports_everything() {
    let mut shown = Materialized::new();
    assert_eq!(shown.observe(vec![3, 1, 2]), vec![3, 1, 2]);
    assert_eq!(shown.entities, vec![3, 1, 2]);
}

#[test]
fn second_look_reports_nothing() {
    let mut shown = Materialized::new();
    shown.observe(vec![3, 1, 2]);
    assert!(shown.observe(vec![3, 1, 2]).is_empty());
    assert!(shown.observe(vec![2, 3, 1]).is_empty());
}

#[test]
fn only_newcomers_are_reported() {
    let mut shown = Materialized::new();
    shown.observe(vec![1, 2]);
    assert_eq!(shown.observe(vec![1, 2, 5, 4]), vec![5, 4]);
    assert!(shown.observe(vec![1, 2, 5, 4]).is_empty());
}

#[test]
fn an_entity_that_left_and_came_back_is_new_again() {
    let mut shown = Materialized::new();
    shown.observe(vec![1, 2]);
    assert!(shown.observe(vec![2]).is_empty());
    assert_eq!(shown.observe(vec![1, 2]), vec![1]);
}

#[test]
fn empty_frames_report_nothing() {
    let mut shown = Materialized::new();
    assert!(shown.observe(Vec::new()).is_empty());
    shown.observe(vec![9]);
    assert!(shown.observe(Vec::new()).is_empty());
    assert!(shown.entities.is_empty());
}
