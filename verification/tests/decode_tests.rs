use escli::decode::{classify_open_response, decode_open_body, decode_search_body};
use escli::model::{OpenOutcome, SearchOutcome};

#[test]
fn search_success_body_decodes_to_a_page() {
    let body = "{\"pit_id\":\"t2\",\"hits\":{\"hits\":[{\"_source\":{\"b\":[1,2],\"a\":1},\"sort\":[7]},{\"_source\":\"plain\",\"sort\":[8,9]}]}}";
    match decode_search_body(body) {
        SearchOutcome::Page(p) => {
            assert_eq!(p.pit_id, "t2");
            assert_eq!(p.hits.len(), 2);
            assert_eq!(p.hits[0].source, "{\"a\":1,\"b\":[1,2]}");
            assert_eq!(p.hits[0].sort, vec![7]);
            assert_eq!(p.hits[1].source, "\"plain\"");
            assert_eq!(p.hits[1].sort, vec![8, 9]);
        }
        _ => panic!("expected a page"),
    }
}

#[test]
fn search_success_reserializes_the_source_compactly() {
    let body = "{\"pit_id\":\"t\",\"hits\":{\"hits\":[{\"_source\":{ \"b\" : 1 ,\n \"a\" : [ 1 , 2 ] },\"sort\":[1]}]}}";
    match decode_search_body(body) {
        SearchOutcome::Page(p) => {
            assert_eq!(p.hits[0].source, "{\"a\":[1,2],\"b\":1}");
        }
        _ => panic!("expected a page"),
    }
}

#[test]
fn search_error_envelope_decodes_to_an_application_error() {
    let body = "{\"error\":{\"root_cause\":[],\"type\":\"search_phase_execution_exception\",\"reason\":\"all shards failed\",\"phase\":\"query\",\"grouped\":true,\"failed_shards\":[]},\"status\":503}";
    match decode_search_body(body) {
        SearchOutcome::AppError(d) => {
            assert_eq!(d, "search_phase_execution_exception: all shards failed");
        }
        _ => panic!("expected an application error"),
    }
}

#[test]
fn search_body_matching_neither_shape_is_malformed() {
    match decode_search_body("not json at all") {
        SearchOutcome::Malformed(m) => assert_eq!(m, "not json at all"),
        _ => panic!("expected malformed"),
    }
    match decode_search_body("{\"unexpected\":true}") {
        SearchOutcome::Malformed(m) => assert_eq!(m, "{\"unexpected\":true}"),
        _ => panic!("expected malformed"),
    }
}

#[test]
fn search_hit_with_fractional_sort_key_is_not_a_page() {
    let body = "{\"pit_id\":\"t\",\"hits\":{\"hits\":[{\"_source\":{},\"sort\":[1.5]}]}}";
    assert!(matches!(
        decode_search_body(body),
        SearchOutcome::Malformed(_)
    ));
}

#[test]
fn search_source_numbers_keep_their_canonical_text() {
    let body = "{\"pit_id\":\"t\",\"hits\":{\"hits\":[{\"_source\":{\"f\":1.5,\"n\":-3,\"u\":7},\"sort\":[1]}]}}";
    match decode_search_body(body) {
        SearchOutcome::Page(p) => {
            assert_eq!(p.hits[0].source, "{\"f\":1.5,\"n\":-3,\"u\":7}");
        }
        _ => panic!("expected a page"),
    }
}

#[test]
fn search_hit_with_empty_sort_array_still_forms_a_page() {
    let body = "{\"pit_id\":\"t\",\"hits\":{\"hits\":[{\"_source\":{\"k\":1},\"sort\":[]}]}}";
    match decode_search_body(body) {
        SearchOutcome::Page(p) => {
            assert_eq!(p.hits.len(), 1);
            assert!(p.hits[0].sort.is_empty());
        }
        _ => panic!("expected a page"),
    }
}

#[test]
fn search_hit_without_source_is_not_a_page() {
    let body = "{\"pit_id\":\"t\",\"hits\":{\"hits\":[{\"sort\":[1]}]}}";
    assert!(matches!(
        decode_search_body(body),
        SearchOutcome::Malformed(_)
    ));
}

#[test]
fn open_body_with_id_is_the_issued_token() {
    match decode_open_body("{\"id\":\"snapshot-token\"}") {
        OpenOutcome::Opened(t) => assert_eq!(t, "snapshot-token"),
        _ => panic!("expected an opened snapshot"),
    }
}

#[test]
fn open_error_envelope_is_an_application_error() {
    let body = "{\"error\":{\"type\":\"index_not_found_exception\",\"reason\":\"no such index\"},\"status\":404}";
    match decode_open_body(body) {
        OpenOutcome::AppError(d) => assert_eq!(d, "index_not_found_exception: no such index"),
        _ => panic!("expected an application error"),
    }
}

#[test]
fn open_with_non_success_status_is_an_http_failure() {
    match classify_open_response(404, "missing".to_string()) {
        OpenOutcome::Http { status, body } => {
            assert_eq!(status, 404);
            assert_eq!(body, "missing");
        }
        _ => panic!("expected an http failure"),
    }
}

#[test]
fn open_with_success_status_decodes_the_body() {
    match classify_open_response(200, "{\"id\":\"tok\"}".to_string()) {
        OpenOutcome::Opened(t) => assert_eq!(t, "tok"),
        _ => panic!("expected an opened snapshot"),
    }
    match classify_open_response(200, "garbage".to_string()) {
        OpenOutcome::Malformed(m) => assert_eq!(m, "garbage"),
        _ => panic!("expected malformed"),
    }
}
