use mod_counter::fetch::interpret_response;
use mod_counter::fetch::FetchOutcome;
use mod_counter::input::normalize_list;
use mod_counter::input::parse_save_choice;
use mod_counter::input::SaveChoice;
use mod_counter::session::RecordOutcome;
use mod_counter::session::Session;
use mod_counter::table::Aggregate;

#[test]
fn two_versions_two_loaders_fill_the_aggregate() {
    let versions: Vec<String> = normalize_list("1.20.1,1.19.2\n");
    let modloaders: Vec<String> = normalize_list("0,4\n");
    assert_eq!(parse_save_choice("y"), SaveChoice::Save);

    let bodies: Vec<&str> = vec![
        "{\"pagination\": {\"totalCount\": 150}}",
        "{\"pagination\": {\"totalCount\": 87}}",
        "{\"pagination\": {\"totalCount\": 200}}",
        "{\"pagination\": {\"totalCount\": 10}}",
    ];
    let mut sess: Session = Session::new(versions, modloaders);
    let mut lines: Vec<(String, i64)> = Vec::new();
    let mut fetches: usize = 0;
    while let Some((version, modloader)) = sess.pending_request() {
        assert!(fetches < bodies.len());
        assert!(!version.is_empty());
        assert!(!modloader.is_empty());
        let outcome: FetchOutcome = interpret_response(200, bodies[fetches]);
        fetches += 1;
        match outcome {
            FetchOutcome::Count(count) => match sess.record_count(count) {
                RecordOutcome::Recorded { name, count } => lines.push((name, count)),
                RecordOutcome::NotNumeric => panic!("numeric tokens were supplied"),
            },
            _ => panic!("all four responses succeed in this scenario"),
        }
    }
    assert_eq!(fetches, 4);
    assert_eq!(
        lines,
        vec![
            ("Any".to_string(), 150),
            ("Fabric".to_string(), 87),
            ("Any".to_string(), 200),
            ("Fabric".to_string(), 10),
        ]
    );

    let agg: Aggregate = sess.into_result();
    assert_eq!(agg.len(), 2);
    assert_eq!(agg.key_at(0), "1.20.1");
    assert_eq!(agg.key_at(1), "1.19.2");
    assert_eq!(agg.value_at(0).len(), 2);
    assert_eq!(agg.value_at(0).key_at(0), "0");
    assert_eq!(agg.value_at(0).count_at(0), 150);
    assert_eq!(agg.value_at(0).key_at(1), "4");
    assert_eq!(agg.value_at(0).count_at(1), 87);
    assert_eq!(agg.value_at(1).len(), 2);
    assert_eq!(agg.value_at(1).key_at(0), "0");
    assert_eq!(agg.value_at(1).count_at(0), 200);
    assert_eq!(agg.value_at(1).key_at(1), "4");
    assert_eq!(agg.value_at(1).count_at(1), 10);
}

#[test]
fn a_failed_fetch_aborts_the_run_before_any_save() {
    let versions: Vec<String> = normalize_list("1.20.1,1.19.2\n");
    let modloaders: Vec<String> = normalize_list("0,4\n");
    let mut sess: Session = Session::new(versions, modloaders);
    let mut fetches: usize = 0;
    let mut aborted: bool = false;
    let mut saved: bool = false;
    while let Some(_request) = sess.pending_request() {
        let status: u16 = if fetches == 1 { 403 } else { 200 };
        let outcome: FetchOutcome =
            interpret_response(status, "{\"pagination\": {\"totalCount\": 5}}");
        fetches += 1;
        match outcome {
            FetchOutcome::Count(count) => {
                sess.record_count(count);
            }
            _ => {
                aborted = true;
                break;
            }
        }
    }
    if !aborted {
        saved = true;
    }
    assert_eq!(fetches, 2);
    assert!(aborted);
    assert!(!saved);
}

#[test]
fn non_numeric_tokens_are_reported_and_dropped() {
    let versions: Vec<String> = normalize_list("1.20.1\n");
    let modloaders: Vec<String> = normalize_list("0,abc\n");
    let mut sess: Session = Session::new(versions, modloaders);

    assert!(matches!(sess.record_count(7), RecordOutcome::Recorded { .. }));
    assert!(matches!(sess.record_count(9), RecordOutcome::NotNumeric));
    assert!(sess.pending_request().is_none());

    let agg: Aggregate = sess.into_result();
    assert_eq!(agg.len(), 1);
    assert_eq!(agg.key_at(0), "1.20.1");
    assert_eq!(agg.value_at(0).len(), 1);
    assert_eq!(agg.value_at(0).key_at(0), "0");
    assert_eq!(agg.value_at(0).count_at(0), 7);
}

#[test]
fn an_out_of_catalog_token_is_recorded_as_unknown() {
    let versions: Vec<String> = normalize_list("1.20.1\n");
    let modloaders: Vec<String> = normalize_list("9\n");
    let mut sess: Session = Session::new(versions, modloaders);
    match sess.record_count(12) {
        RecordOutcome::Recorded { name, count } => {
            assert_eq!(name, "Unknown mod loader");
            assert_eq!(count, 12);
        }
        RecordOutcome::NotNumeric => panic!("the token 9 is numeric"),
    }
    let agg: Aggregate = sess.into_result();
    assert_eq!(agg.value_at(0).key_at(0), "9");
    assert_eq!(agg.value_at(0).count_at(0), 12);
}

#[test]
fn an_empty_token_leaves_the_version_with_an_empty_table() {
    let versions: Vec<String> = normalize_list("1.20.1\n");
    let modloaders: Vec<String> = normalize_list("\n");
    assert_eq!(modloaders, vec!["".to_string()]);
    let mut sess: Session = Session::new(versions, modloaders);
    assert!(matches!(sess.record_count(5), RecordOutcome::NotNumeric));
    assert!(sess.pending_request().is_none());
    let agg: Aggregate = sess.into_result();
    assert_eq!(agg.len(), 1);
    assert_eq!(agg.value_at(0).len(), 0);
}
