use ipcc_installer::status::StatusValue;

fn text(s: &str) -> StatusValue {
    StatusValue::Text(s.to_string())
}

fn dict(entries: Vec<(&str, StatusValue)>) -> StatusValue {
    StatusValue::Dictionary(entries.into_iter().map(|(k, v)| (k.to_string(), v)).collect())
}

#[test]
fn top_level_status_complete_is_found() {
    let update = dict(vec![("Status", text("Complete"))]);
    assert!(update.signals_completion());
}

#[test]
fn nested_status_complete_is_found() {
    let update = dict(vec![
        ("Command", text("Install")),
        (
            "Progress",
            StatusValue::Array(vec![
                StatusValue::Other,
                dict(vec![("Detail", dict(vec![("Status", text("Complete"))]))]),
            ]),
        ),
    ]);
    assert!(update.signals_completion());
}

#[test]
fn progress_update_is_not_completion() {
    let update = dict(vec![
        ("Status", text("CopyingApplication")),
        ("PercentComplete", StatusValue::Other),
    ]);
    assert!(!update.signals_completion());
}

#[test]
fn completion_below_a_progress_status_is_found() {
    let update = dict(vec![
        ("Status", text("Installing")),
        ("Inner", dict(vec![("Status", text("Complete"))])),
    ]);
    assert!(update.signals_completion());
}

#[test]
fn status_match_is_exact() {
    assert!(!dict(vec![("Status", text("complete"))]).signals_completion());
    assert!(!dict(vec![("Status", text("Complete "))]).signals_completion());
    assert!(!dict(vec![("status", text("Complete"))]).signals_completion());
    assert!(!dict(vec![("Status", text("Completed"))]).signals_completion());
}

#[test]
fn status_that_is_not_text_is_not_completion() {
    assert!(!dict(vec![("Status", StatusValue::Other)]).signals_completion());
    assert!(!dict(vec![("Status", StatusValue::Array(vec![text("Complete")]))])
        .signals_completion());
}

#[test]
fn values_without_dictionaries_never_complete() {
    assert!(!text("Complete").signals_completion());
    assert!(!StatusValue::Other.signals_completion());
    assert!(!StatusValue::Array(vec![text("Status"), text("Complete")]).signals_completion());
    assert!(!StatusValue::Array(vec![]).signals_completion());
    assert!(!StatusValue::Dictionary(vec![]).signals_completion());
}

#[test]
fn contains_entry_looks_for_the_given_key_and_value() {
    let update = dict(vec![("Outer", dict(vec![("Error", text("DeviceLocked"))]))]);
    let key = "Error".to_string();
    assert!(update.contains_entry(&key, &"DeviceLocked".to_string()));
    assert!(!update.contains_entry(&key, &"Complete".to_string()));
    assert!(!update.contains_entry(&"Outer".to_string(), &"DeviceLocked".to_string()));
}

#[test]
fn text_equals_compares_text_leaves_only() {
    let wanted = "Complete".to_string();
    assert!(text("Complete").text_equals(&wanted));
    assert!(!text("Incomplete").text_equals(&wanted));
    assert!(!StatusValue::Other.text_equals(&wanted));
    assert!(!dict(vec![]).text_equals(&wanted));
}
