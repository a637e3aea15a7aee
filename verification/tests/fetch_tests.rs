use mod_counter::fetch::interpret_response;
use mod_counter::fetch::FetchOutcome;

#[test]
fn success_passes_the_count_through() {
    let body = "{\"pagination\": {\"totalCount\": 150}}";
    assert_eq!(interpret_response(200, body), FetchOutcome::Count(150));
    assert_eq!(interpret_response(226, body), FetchOutcome::Count(150));
}

#[test]
fn success_with_zero_count() {
    let body = "{\"pagination\": {\"totalCount\": 0}}";
    assert_eq!(interpret_response(204, body), FetchOutcome::Count(0));
}

#[test]
fn error_statuses_yield_no_result() {
    let body = "{\"error\": \"denied\"}";
    assert_eq!(interpret_response(400, body), FetchOutcome::NoResult);
    assert_eq!(interpret_response(403, body), FetchOutcome::NoResult);
    assert_eq!(interpret_response(500, body), FetchOutcome::NoResult);
    assert_eq!(interpret_response(599, body), FetchOutcome::NoResult);
}

#[test]
fn other_statuses_yield_no_result() {
    let body = "{\"pagination\": {\"totalCount\": 150}}";
    assert_eq!(interpret_response(100, body), FetchOutcome::NoResult);
    assert_eq!(interpret_response(301, body), FetchOutcome::NoResult);
    assert_eq!(interpret_response(600, body), FetchOutcome::NoResult);
}

#[test]
fn unreadable_success_bodies_are_malformed() {
    assert_eq!(interpret_response(200, "not json"), FetchOutcome::Malformed);
    assert_eq!(interpret_response(200, "{}"), FetchOutcome::Malformed);
    assert_eq!(
        interpret_response(200, "{\"pagination\": {}}"),
        FetchOutcome::Malformed
    );
    assert_eq!(
        interpret_response(200, "{\"pagination\": {\"totalCount\": \"many\"}}"),
        FetchOutcome::Malformed
    );
}
