use blippy::linked::{dedupe_numbers, linked_picker_label, push_unique};
use blippy::metadata::parse_csv_values;

#[test]
fn parse_csv_values_trims_dedupes_and_strips_at() {
    let values = parse_csv_values(" @alex,alex, sam , ,@Sam", true);
    assert_eq!(values, vec!["alex".to_string(), "sam".to_string()]);
}

#[test]
fn parse_csv_values_keeps_label_case() {
    let values = parse_csv_values("bug,needs-triage,BUG", false);
    assert_eq!(values, vec!["bug".to_string(), "needs-triage".to_string()]);
}

#[test]
fn parse_csv_values_keeps_at_signs_unless_asked() {
    assert_eq!(parse_csv_values("@@team, x", false), vec!["@@team".to_string(), "x".to_string()]);
    assert_eq!(parse_csv_values("@@team, @", true), vec!["team".to_string()]);
    assert!(parse_csv_values("", true).is_empty());
}

#[test]
fn dedupe_numbers_keeps_first_occurrences_in_order() {
    assert_eq!(dedupe_numbers(vec![3, 1, 3, 2, 1]), vec![3, 1, 2]);
    assert_eq!(dedupe_numbers(dedupe_numbers(vec![5, 5, 4])), vec![5, 4]);
    assert!(dedupe_numbers(Vec::new()).is_empty());
}

#[test]
fn push_unique_adds_only_new_numbers() {
    let mut values = vec![4, 9];
    push_unique(&mut values, 9);
    assert_eq!(values, vec![4, 9]);
    push_unique(&mut values, 2);
    assert_eq!(values, vec![4, 9, 2]);
}

#[test]
fn linked_picker_label_shows_trimmed_title() {
    assert_eq!(linked_picker_label(12, Some("  Fix crash ")), "#12  Fix crash");
    assert_eq!(linked_picker_label(12, Some("   ")), "#12");
    assert_eq!(linked_picker_label(-3, None), "#-3");
}

#[test]
fn stripped_values_never_start_with_at() {
    let values = parse_csv_values("@@alex, @, @@, sam", true);
    assert_eq!(values, vec!["alex".to_string(), "sam".to_string()]);
    assert!(values.iter().all(|v| !v.starts_with('@')));
}
