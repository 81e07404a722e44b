use escli::decode::decode_search_body;
use escli::export::{Action, Dump, Exporter, Phase};
use escli::model::{Hit, OpenOutcome, SearchOutcome, SearchPage};

fn page(pit_id: &str, sorts: &[u64]) -> SearchPage {
    SearchPage {
        pit_id: pit_id.to_string(),
        hits: sorts
            .iter()
            .map(|s| Hit {
                source: format!("{{\"n\":{}}}", s),
                sort: vec![*s],
            })
            .collect(),
    }
}

fn expect_open(e: &Exporter) -> (String, String) {
    match e.next_action() {
        Action::Open { index, keep_alive } => (index, keep_alive),
        _ => panic!("expected an open action"),
    }
}

fn expect_fetch(e: &Exporter) -> (String, String) {
    match e.next_action() {
        Action::Fetch { index, body } => (index, body),
        _ => panic!("expected a fetch action"),
    }
}

#[test]
fn empty_first_page_terminates_index_with_no_output() {
    let mut e = Exporter::new(vec!["only".to_string()], 500, "1m".to_string());
    let (index, keep_alive) = expect_open(&e);
    assert_eq!(index, "only");
    assert_eq!(keep_alive, "1m");
    assert!(e.on_open_outcome(OpenOutcome::Opened("t1".to_string())).is_none());
    let (_, body) = expect_fetch(&e);
    assert!(!body.contains("search_after"));
    let report = e.on_page_outcome(SearchOutcome::Page(page("t2", &[])));
    assert_eq!(report.output, "");
    assert!(report.diagnostic.is_none());
    assert!(matches!(e.next_action(), Action::Finished));
}

#[test]
fn cursor_from_page_ending_in_42_is_passed_back() {
    let mut e = Exporter::new(vec!["idx".to_string()], 10, "1m".to_string());
    e.on_open_outcome(OpenOutcome::Opened("t1".to_string()));
    e.on_page_outcome(SearchOutcome::Page(page("t2", &[41, 42])));
    let (_, body) = expect_fetch(&e);
    assert!(body.contains("\"search_after\":[42]"));
    assert_eq!(
        body,
        "{\"size\":10,\"pit\":{\"id\":\"t2\",\"keep_alive\":\"1m\"},\"query\":{\"match_all\":{}},\"sort\":[{\"_shard_doc\":{\"order\":\"asc\"}}],\"search_after\":[42]}"
    );
}

#[test]
fn failed_open_skips_index_but_run_continues() {
    let mut e = Exporter::new(vec!["first".to_string(), "second".to_string()], 500, "1m".to_string());
    let mut emitted = String::new();
    let mut diagnostics: Vec<String> = Vec::new();

    let (index, _) = expect_open(&e);
    assert_eq!(index, "first");
    let diag = e.on_open_outcome(OpenOutcome::Http {
        status: 500,
        body: "boom".to_string(),
    });
    diagnostics.extend(diag);

    let (index, _) = expect_open(&e);
    assert_eq!(index, "second");
    assert!(e.on_open_outcome(OpenOutcome::Opened("t1".to_string())).is_none());
    let report = e.on_page_outcome(SearchOutcome::Page(page("t2", &[1, 2])));
    emitted.push_str(report.output.as_str());
    let report = e.on_page_outcome(SearchOutcome::Page(page("t3", &[])));
    emitted.push_str(report.output.as_str());
    assert!(matches!(e.next_action(), Action::Finished));

    assert_eq!(emitted.lines().count(), 4);
    assert_eq!(
        emitted,
        "{\"index\":{\"_index\":\"second\"}}\n{\"n\":1}\n{\"index\":{\"_index\":\"second\"}}\n{\"n\":2}\n"
    );
    assert_eq!(diagnostics.len(), 1);
    assert!(diagnostics[0].contains("first"));
    assert_eq!(
        diagnostics[0],
        "failed to open snapshot for index 'first': status 500 - boom"
    );
}

#[test]
fn three_page_run_requests_the_cursor_sequence_none_2_3() {
    let mut e = Exporter::new(vec!["a".to_string()], 2, "1m".to_string());
    let mut emitted = String::new();

    let (index, _) = expect_open(&e);
    assert_eq!(index, "a");
    e.on_open_outcome(OpenOutcome::Opened("t1".to_string()));

    let (_, body1) = expect_fetch(&e);
    assert_eq!(
        body1,
        "{\"size\":2,\"pit\":{\"id\":\"t1\",\"keep_alive\":\"1m\"},\"query\":{\"match_all\":{}},\"sort\":[{\"_shard_doc\":{\"order\":\"asc\"}}]}"
    );
    let report = e.on_page_outcome(SearchOutcome::Page(page("t2", &[1, 2])));
    emitted.push_str(report.output.as_str());

    let (_, body2) = expect_fetch(&e);
    assert_eq!(
        body2,
        "{\"size\":2,\"pit\":{\"id\":\"t2\",\"keep_alive\":\"1m\"},\"query\":{\"match_all\":{}},\"sort\":[{\"_shard_doc\":{\"order\":\"asc\"}}],\"search_after\":[2]}"
    );
    let report = e.on_page_outcome(SearchOutcome::Page(page("t3", &[3])));
    emitted.push_str(report.output.as_str());

    let (_, body3) = expect_fetch(&e);
    assert_eq!(
        body3,
        "{\"size\":2,\"pit\":{\"id\":\"t3\",\"keep_alive\":\"1m\"},\"query\":{\"match_all\":{}},\"sort\":[{\"_shard_doc\":{\"order\":\"asc\"}}],\"search_after\":[3]}"
    );
    let report = e.on_page_outcome(SearchOutcome::Page(page("t4", &[])));
    emitted.push_str(report.output.as_str());

    assert!(matches!(e.next_action(), Action::Finished));
    assert_eq!(emitted.lines().count(), 6);
}

#[test]
fn fetch_error_keeps_partial_output_and_moves_to_next_index() {
    let mut e = Exporter::new(vec!["a".to_string(), "b".to_string()], 500, "1m".to_string());
    let mut emitted = String::new();

    e.on_open_outcome(OpenOutcome::Opened("t1".to_string()));
    let report = e.on_page_outcome(SearchOutcome::Page(page("t2", &[1])));
    emitted.push_str(report.output.as_str());
    let report = e.on_page_outcome(SearchOutcome::AppError(
        "search_phase_execution_exception: all shards failed".to_string(),
    ));
    assert_eq!(report.output, "");
    let diag = report.diagnostic.expect("an index-level diagnostic");
    assert_eq!(
        diag,
        "error fetching page for index 'a': search_phase_execution_exception: all shards failed"
    );

    let (index, _) = expect_open(&e);
    assert_eq!(index, "b");
    e.on_open_outcome(OpenOutcome::Opened("t5".to_string()));
    let report = e.on_page_outcome(SearchOutcome::Page(page("t6", &[9])));
    emitted.push_str(report.output.as_str());
    let report = e.on_page_outcome(SearchOutcome::Page(page("t7", &[])));
    emitted.push_str(report.output.as_str());
    assert!(matches!(e.next_action(), Action::Finished));

    assert_eq!(
        emitted,
        "{\"index\":{\"_index\":\"a\"}}\n{\"n\":1}\n{\"index\":{\"_index\":\"b\"}}\n{\"n\":9}\n"
    );
}

#[test]
fn malformed_page_body_is_an_index_level_failure() {
    let mut e = Exporter::new(vec!["a".to_string()], 500, "1m".to_string());
    e.on_open_outcome(OpenOutcome::Opened("t1".to_string()));
    let report = e.on_page_outcome(SearchOutcome::Malformed("not json".to_string()));
    assert_eq!(report.output, "");
    assert_eq!(
        report.diagnostic.expect("a diagnostic"),
        "malformed search response for index 'a': not json"
    );
    assert!(matches!(e.next_action(), Action::Finished));
}

#[test]
fn page_without_sort_key_raises_a_data_anomaly_and_continues() {
    let mut e = Exporter::new(vec!["a".to_string()], 500, "1m".to_string());
    e.on_open_outcome(OpenOutcome::Opened("t1".to_string()));
    let report = e.on_page_outcome(SearchOutcome::Page(SearchPage {
        pit_id: "t2".to_string(),
        hits: vec![Hit {
            source: "{\"n\":1}".to_string(),
            sort: vec![],
        }],
    }));
    assert_eq!(report.output, "{\"index\":{\"_index\":\"a\"}}\n{\"n\":1}\n");
    let diag = report.diagnostic.expect("a data-anomaly diagnostic");
    assert_eq!(
        diag,
        "data anomaly: page without usable sort key for index 'a': continuing without a cursor"
    );
    let (_, body) = expect_fetch(&e);
    assert!(!body.contains("search_after"));
}

#[test]
fn rotated_token_is_used_for_the_next_request() {
    let mut e = Exporter::new(vec!["a".to_string()], 500, "1m".to_string());
    e.on_open_outcome(OpenOutcome::Opened("first-token".to_string()));
    let (_, body) = expect_fetch(&e);
    assert!(body.contains("\"id\":\"first-token\""));
    e.on_page_outcome(SearchOutcome::Page(page("rotated-token", &[1])));
    let (_, body) = expect_fetch(&e);
    assert!(body.contains("\"id\":\"rotated-token\""));
    assert!(!body.contains("first-token"));
    match &e.phase {
        Phase::Fetching { token, cursor } => {
            assert_eq!(token, "rotated-token");
            assert_eq!(*cursor, Some(1));
        }
        _ => panic!("expected to be fetching"),
    }
}

#[test]
fn open_application_error_skips_index_with_diagnostic() {
    let mut e = Exporter::new(vec!["x".to_string()], 500, "1m".to_string());
    let diag = e.on_open_outcome(OpenOutcome::AppError(
        "index_not_found_exception: no such index".to_string(),
    ));
    assert_eq!(
        diag.expect("a diagnostic"),
        "error opening snapshot for index 'x': index_not_found_exception: no such index"
    );
    assert!(matches!(e.next_action(), Action::Finished));

    let mut e = Exporter::new(vec!["x".to_string()], 500, "1m".to_string());
    let diag = e.on_open_outcome(OpenOutcome::Malformed("???".to_string()));
    assert_eq!(
        diag.expect("a diagnostic"),
        "malformed snapshot-open response for index 'x': ???"
    );
    assert!(matches!(e.next_action(), Action::Finished));
}

#[test]
fn decoded_page_flows_into_the_exporter() {
    let mut e = Exporter::new(vec!["a".to_string()], 500, "1m".to_string());
    e.on_open_outcome(OpenOutcome::Opened("t1".to_string()));
    let outcome =
        decode_search_body("{\"pit_id\":\"t2\",\"hits\":{\"hits\":[{\"_source\":{\"k\":\"v\"},\"sort\":[5]}]}}");
    let report = e.on_page_outcome(outcome);
    assert_eq!(report.output, "{\"index\":{\"_index\":\"a\"}}\n{\"k\":\"v\"}\n");
    assert!(report.diagnostic.is_none());
    let (_, body) = expect_fetch(&e);
    assert!(body.contains("\"id\":\"t2\""));
    assert!(body.contains("\"search_after\":[5]"));
}

#[test]
fn dump_holds_the_run_configuration() {
    let dump = Dump::new(
        vec!["a".to_string(), "b".to_string()],
        500,
        "1m".to_string(),
        Some("out.ndjson".to_string()),
    );
    assert_eq!(dump.indices, vec!["a".to_string(), "b".to_string()]);
    assert_eq!(dump.size, 500);
    assert_eq!(dump.keep_alive, "1m");
    assert_eq!(dump.output, Some("out.ndjson".to_string()));
}
