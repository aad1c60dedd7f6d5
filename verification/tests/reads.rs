use vicia_browser::browser::db::ValidAt;
use vicia_browser::browser::projected_query::{
    rows_since, select_base_rows, ProjectedQuery, ProjectionAction, ProjectionEvent, Watermark,
};
use vicia_browser::browser::read_loop::{
    current_valid_time, fault_step, label_values, repeated_page_message, stall_message, CurrentRead,
    CurrentReadBounds, CurrentReadError, CurrentReadKind, CurrentReadStep, CurrentValidTime,
    CursorWalk, FaultStep, QueryLoop, ReadEvent, ReadStep,
};
use vicia_browser::browser::read_view::{
    check_query_limit, check_refs_request, current_facts_to_rows, finish_query, parse_entity_ids,
    query_result_to_json, render_refs, rendered_facts_to_rows, EntityRow, QueryResult, ReadError, RefsRequest,
};

const ID: &str = "67e55044-10b1-426f-9247-bb680e5fe0c8";

fn table() -> QueryResult {
    QueryResult::QueryResults {
        vars: vec!["?e".to_owned(), "?v".to_owned()],
        results: vec![
            vec![serde_json::Value::from("a"), serde_json::Value::from(1)],
            vec![serde_json::Value::Null, serde_json::Value::from(true)],
        ],
    }
}

#[test]
fn query_results_are_rendered() {
    assert_eq!(
        query_result_to_json(table()),
        r#"{"results":[["a",1],[null,true]],"variables":["?e","?v"]}"#
    );
    assert_eq!(query_result_to_json(QueryResult::Transacted(5)), r#"{"transacted":5}"#);
    assert_eq!(query_result_to_json(QueryResult::Retracted(6)), r#"{"retracted":6}"#);
    assert_eq!(
        query_result_to_json(QueryResult::Forgotten { tx_id: Some(7), count: 2 }),
        r#"{"forgotten":2,"tx_id":7}"#
    );
    assert_eq!(
        query_result_to_json(QueryResult::Forgotten { tx_id: None, count: 0 }),
        r#"{"forgotten":0,"tx_id":null}"#
    );
    assert_eq!(query_result_to_json(QueryResult::Accepted), r#"{"ok":true}"#);
}

#[test]
fn oversized_results_are_rejected_whole() {
    let size = query_result_to_json(table()).len();
    assert!(finish_query(table(), 2, size).is_ok());
    assert_eq!(
        finish_query(table(), 1, size).unwrap_err().message(),
        "read-view result has 2 rows, exceeding max_rows 1; result was rejected without truncation"
    );
    assert_eq!(
        finish_query(table(), 2, size - 1).unwrap_err().message(),
        format!(
            "read-view result has {size} bytes, exceeding max_bytes {}; result was rejected \
             without truncation",
            size - 1
        )
    );
    assert!(check_query_limit(1).is_ok() && check_query_limit(8 * 1024 * 1024).is_ok());
    assert_eq!(
        check_query_limit(0).unwrap_err().message(),
        "read-view max_bytes must be in 1..=8388608; got 0"
    );
    assert!(check_query_limit(8 * 1024 * 1024 + 1).is_err());
}

#[test]
fn entity_ids_are_parsed_and_rendered() {
    let id = 0x67e55044_10b1_426f_9247_bb680e5fe0c8_u128;
    assert_eq!(parse_entity_ids(&vec![ID.to_owned()]).unwrap(), vec![id]);
    let message = parse_entity_ids(&vec![ID.to_owned(), "nope".to_owned()])
        .unwrap_err()
        .message();
    assert!(message.starts_with("current_entities invalid entity id nope: "));
    assert_eq!(render_refs(&vec![id]).unwrap(), vec![ID.to_owned()]);
    assert!(matches!(
        render_refs(&vec![0; 8 * 1024 * 1024 / 36 + 1]),
        Err(ReadError::RefsTooLarge)
    ));
    let attribute = ":a/b".to_owned();
    let value = serde_json::Value::from(vec!["x y", "z"]);
    let rows = current_facts_to_rows(label_values(id, &attribute, vec![value]));
    assert_eq!(
        rows.unwrap(),
        vec![EntityRow {
            entity: ID.to_owned(),
            attribute: ":a/b".to_owned(),
            value: r#"["x y","z"]"#.to_owned()
        }]
    );
    let longest = 8 * 1024 * 1024 - 36 - 4;
    let facts = |bytes: usize| label_values(id, &attribute, vec!["1".repeat(bytes)]);
    assert_eq!(rendered_facts_to_rows(facts(longest)).unwrap().len(), 1);
    let value = serde_json::Value::from("1".repeat(longest - 1));
    assert!(current_facts_to_rows(label_values(id, &attribute, vec![value])).is_err());
    assert_eq!(
        rendered_facts_to_rows(facts(longest + 1)).unwrap_err().message(),
        "current_entities result exceeds 8388608 bytes; result was rejected without truncation"
    );
}

#[test]
fn reference_requests_are_checked() {
    let check = |attribute: &str, value: &str, limit: usize| {
        check_refs_request(&attribute.to_owned(), &value.to_owned(), limit, 100)
    };
    assert_eq!(
        check(":a/b", ID, 7).unwrap(),
        RefsRequest { target: 0x67e55044_10b1_426f_9247_bb680e5fe0c8, limit: 7 }
    );
    for attribute in ["a/b", ":ab", ":a/b\0"] {
        assert!(matches!(
            check(attribute, ID, 7),
            Err(ReadError::UnqualifiedAttribute { .. })
        ));
    }
    assert_eq!(
        check(":a/b", ID, 0).unwrap_err().message(),
        "current_refs limit must be in 1..=100; got 0"
    );
    assert!(check(":a/b", ID, 101).is_err());
    assert!(matches!(
        check(":a/b", "nope", 7),
        Err(ReadError::InvalidTargetId { .. })
    ));
}

#[test]
fn restarted_query_fetches_each_page_once() {
    let mut state = QueryLoop::new(false, 8);
    let missing = ReadEvent::PageMissing { page_id: 3 };
    assert_eq!(
        state.next_step(missing),
        ReadStep::Fetch { page_id: 3, batch_pages: 8, reduce_residency: false }
    );
    assert_eq!(
        state.next_step(missing),
        ReadStep::ReportRepeatedPage { page_id: 3 }
    );
    assert_eq!(state.next_step(ReadEvent::Complete), ReadStep::Finish);
    assert_eq!(state.next_step(ReadEvent::Failed), ReadStep::ReportFailure);
    assert_eq!(
        repeated_page_message(3),
        "paged query requested page 3 again after it was staged"
    );
}

#[test]
fn aggregate_session_may_ask_again() {
    let mut state = QueryLoop::new(true, 8);
    let missing = ReadEvent::PageMissing { page_id: 3 };
    let fetch = ReadStep::Fetch { page_id: 3, batch_pages: 8, reduce_residency: true };
    assert_eq!(state.next_step(missing), fetch);
    assert_eq!(state.next_step(missing), fetch);
    assert_eq!(state.next_step(ReadEvent::Yielded { entries: 5 }), ReadStep::Yield);
    assert_eq!(
        state.next_step(ReadEvent::Yielded { entries: 0 }),
        ReadStep::ReportStall
    );
    assert_eq!(
        fault_step(Some(4), true),
        FaultStep::Fetch { page_id: 4, reduce_residency: true }
    );
    assert_eq!(fault_step(None, true), FaultStep::Report);
    assert_eq!(stall_message(), "aggregate cursor yielded without advancing");
}

fn bounds(limit: usize) -> CurrentReadBounds {
    CurrentReadBounds {
        kind: CurrentReadKind::Entities,
        max_history_entries: 10,
        step_entries: 4,
        limit,
    }
}

#[test]
fn structured_reads_stay_bounded() {
    let mut read = CurrentRead::new(bounds(3));
    assert_eq!(read.next_budget(), Ok(4));
    assert_eq!(read.accept_step(vec!['a'], 4, false), Ok(CurrentReadStep::Yield));
    assert_eq!(read.accept_step(vec!['b'], 4, false), Ok(CurrentReadStep::Yield));
    assert_eq!(read.next_budget(), Ok(2));
    assert_eq!(read.accept_step(vec!['c'], 2, true), Ok(CurrentReadStep::CursorDone));
    assert_eq!(
        read.next_budget().unwrap_err().message(),
        "current_entities history work exceeds 10 entries; use raw Datalog or maintenance context"
    );
    assert_eq!(read.into_rows(), vec!['a', 'b', 'c']);

    let mut read = CurrentRead::new(bounds(1));
    assert_eq!(
        read.accept_step(vec!['a', 'b'], 2, true).unwrap_err().message(),
        "current_entities result exceeds limit 1; result was rejected without truncation"
    );
    assert_eq!(read.next_budget(), Ok(4));
    assert!(read.into_rows().is_empty());
}

#[test]
fn cursors_walk_entities_then_attributes() {
    let mut walk = CursorWalk::new(2, 2);
    let mut seen = Vec::new();
    while let Some(cursor) = walk.next_cursor() {
        seen.push(cursor);
    }
    assert_eq!(seen, vec![(0, 0), (0, 1), (1, 0), (1, 1)]);
    assert_eq!(CursorWalk::new(2, 0).next_cursor(), None);
    let rows = label_values(7, &":a/b".to_owned(), vec!['x', 'y']);
    assert_eq!((rows[1].entity, rows[1].attribute.as_str(), rows[1].value), (7, ":a/b", 'y'));
    assert_eq!(current_valid_time(ValidAt::Timestamp(4)), Ok(CurrentValidTime::At(4)));
    assert_eq!(current_valid_time(ValidAt::AnyValidTime), Ok(CurrentValidTime::Any));
    assert_eq!(
        current_valid_time(ValidAt::Slot),
        Err(CurrentReadError::OpenValidTime)
    );
}

fn ledger() -> Watermark {
    Watermark { generation: 1, tx_count: 9 }
}

#[test]
fn projected_query_answers_from_a_fresh_image() {
    let (mut query, action) = ProjectedQuery::new(ledger(), Some(9), vec![9]);
    assert_eq!(action, ProjectionAction::OpenSession);
    assert_eq!(
        query.next_action(ProjectionEvent::SessionOpened),
        ProjectionAction::OpenScan { descriptor: 0 }
    );
    assert_eq!(query.next_action(ProjectionEvent::ScanOpened), ProjectionAction::AskBudget);
    assert_eq!(
        query.next_action(ProjectionEvent::Budget { remaining: 100 }),
        ProjectionAction::StepScan { rows: 100 }
    );
    assert_eq!(
        query.next_action(ProjectionEvent::ScanComplete { rows: 60 }),
        ProjectionAction::Charge { rows: 60 }
    );
    assert_eq!(query.next_action(ProjectionEvent::Charged), ProjectionAction::ReadWatermark);
    assert_eq!(
        query.next_action(ProjectionEvent::Observed { watermark: ledger() }),
        ProjectionAction::Finish
    );
    assert_eq!(select_base_rows(vec!['a', 'b', 'c'], &vec![false, true, false]), vec!['a', 'c']);
    assert_eq!(select_base_rows(vec!['a', 'b'], &vec![true, true]), Vec::<char>::new());
    assert_eq!((rows_since(3, 10), rows_since(10, 3)), (7, 0));
}

#[test]
fn projected_query_falls_back_when_no_image_serves() {
    let (_, action) = ProjectedQuery::new(ledger(), None, vec![9]);
    assert_eq!(action, ProjectionAction::FallBack);
    let (_, action) = ProjectedQuery::new(ledger(), Some(9), vec![]);
    assert_eq!(action, ProjectionAction::FallBack);
    let (mut query, _) = ProjectedQuery::new(ledger(), Some(9), vec![9, 8]);
    assert_eq!(
        query.next_action(ProjectionEvent::SessionOpened),
        ProjectionAction::OpenScan { descriptor: 0 }
    );
    assert_eq!(query.next_action(ProjectionEvent::Unusable), ProjectionAction::OpenSession);
    assert_eq!(
        query.next_action(ProjectionEvent::SessionOpened),
        ProjectionAction::PrepareTail { descriptor: 1 }
    );
    assert_eq!(query.next_action(ProjectionEvent::TailOverBudget), ProjectionAction::FallBack);
}
