use sysprobe::error::SysProbeError;
use sysprobe::field_map::FieldMap;
use sysprobe::query::{query_text, FieldFailurePolicy, FieldValue, QueryAction, QueryEvent, QueryPhase, QueryRun};

fn names(list: &[&str]) -> Vec<String> {
    list.iter().map(|s| s.to_string()).collect()
}

fn fetch_field(a: QueryAction) -> String {
    match a {
        QueryAction::FetchField(n) => n,
        other => panic!("expected a field fetch, got {:?}", other),
    }
}

#[test]
fn query_text_selects_fields_from_class() {
    assert_eq!(query_text("Win32_Processor", "Name, ThreadCount"), "SELECT Name, ThreadCount FROM Win32_Processor");
}

#[test]
fn one_row_with_a_null_field() {
    let mut run = QueryRun::new(FieldFailurePolicy::RecordEmpty);
    assert_eq!(fetch_field(run.step(QueryEvent::RowArrived(names(&["A", "B"])))), "A");
    assert_eq!(fetch_field(run.step(QueryEvent::FieldFetched(FieldValue::Text("value".to_string())))), "B");
    assert!(matches!(run.step(QueryEvent::FieldFetched(FieldValue::Null)), QueryAction::FetchRow));
    assert!(matches!(run.step(QueryEvent::RowsEnded), QueryAction::Finished));
    assert_eq!(run.phase(), QueryPhase::Finished);
    let rows = run.into_rows();
    assert_eq!(rows.len(), 1);
    assert_eq!(rows[0].get("A").map(|s| s.as_str()), Some("value"));
    assert_eq!(rows[0].get("B").map(|s| s.as_str()), Some(""));
    assert_eq!(rows[0].get("C"), None);
}

#[test]
fn zero_rows_is_an_empty_result() {
    let mut run = QueryRun::new(FieldFailurePolicy::RecordEmpty);
    assert!(matches!(run.step(QueryEvent::RowsEnded), QueryAction::Finished));
    assert!(run.into_rows().is_empty());
}

#[test]
fn row_without_fields_is_an_empty_map() {
    let mut run = QueryRun::new(FieldFailurePolicy::RecordEmpty);
    assert!(matches!(run.step(QueryEvent::RowArrived(Vec::new())), QueryAction::FetchRow));
    assert!(matches!(run.step(QueryEvent::RowsEnded), QueryAction::Finished));
    let rows = run.into_rows();
    assert_eq!(rows.len(), 1);
    assert_eq!(rows[0].get("A"), None);
}

#[test]
fn failed_field_under_each_policy() {
    let mut run = QueryRun::new(FieldFailurePolicy::RecordEmpty);
    run.step(QueryEvent::RowArrived(names(&["A"])));
    run.step(QueryEvent::FieldFetched(FieldValue::Failed));
    run.step(QueryEvent::RowsEnded);
    assert_eq!(run.into_rows()[0].get("A").map(|s| s.as_str()), Some(""));

    let mut run = QueryRun::new(FieldFailurePolicy::Omit);
    run.step(QueryEvent::RowArrived(names(&["A", "B"])));
    run.step(QueryEvent::FieldFetched(FieldValue::Failed));
    run.step(QueryEvent::FieldFetched(FieldValue::Text("b".to_string())));
    run.step(QueryEvent::RowsEnded);
    let rows = run.into_rows();
    assert_eq!(rows[0].get("A"), None);
    assert_eq!(rows[0].get("B").map(|s| s.as_str()), Some("b"));

    let mut run = QueryRun::new(FieldFailurePolicy::Abort);
    run.step(QueryEvent::RowArrived(names(&["A", "B"])));
    match run.step(QueryEvent::FieldFetched(FieldValue::Failed)) {
        QueryAction::Abort(e) => assert_eq!(e, SysProbeError::FieldFetchError("A".to_string())),
        other => panic!("expected abort, got {:?}", other),
    }
    assert_eq!(run.phase(), QueryPhase::Aborted);
}

#[test]
fn two_rows_keep_their_order() {
    let mut run = QueryRun::new(FieldFailurePolicy::RecordEmpty);
    run.step(QueryEvent::RowArrived(names(&["Name"])));
    assert!(matches!(run.step(QueryEvent::FieldFetched(FieldValue::Text("first".to_string()))), QueryAction::FetchRow));
    run.step(QueryEvent::RowArrived(names(&["Name"])));
    run.step(QueryEvent::FieldFetched(FieldValue::Text("second".to_string())));
    run.step(QueryEvent::RowsEnded);
    let rows = run.into_rows();
    assert_eq!(rows.len(), 2);
    assert_eq!(rows[0].get("Name").map(|s| s.as_str()), Some("first"));
    assert_eq!(rows[1].get("Name").map(|s| s.as_str()), Some("second"));
}

#[test]
fn unexpected_event_stops_the_run() {
    let mut run = QueryRun::new(FieldFailurePolicy::RecordEmpty);
    match run.step(QueryEvent::FieldFetched(FieldValue::Null)) {
        QueryAction::Abort(e) => assert_eq!(e, SysProbeError::UnexpectedQueryEvent),
        other => panic!("expected abort, got {:?}", other),
    }
    assert_eq!(run.phase(), QueryPhase::Aborted);
}

#[test]
fn field_map_insert_replaces_and_require_names_missing_field() {
    let mut m = FieldMap::new();
    m.insert("A".to_string(), "1".to_string());
    m.insert("B".to_string(), "2".to_string());
    m.insert("A".to_string(), "3".to_string());
    assert_eq!(m.get("A").map(|s| s.as_str()), Some("3"));
    assert_eq!(m.require("B").map(|s| s.as_str()), Ok("2"));
    assert_eq!(m.require("Z"), Err(SysProbeError::MissingField("Z".to_string())));
}
