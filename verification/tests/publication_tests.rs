use tda_controller::controller::Controller;
use tda_controller::directory::LocationCache;
use tda_controller::error::ControllerError;
use tda_controller::publication::{
    begin, collect_receipts, endpoints, join_all, step, Action, Event, Publication, RespondData,
};
use tda_controller::witness::WitnessConfig;

fn ids(names: &[&str]) -> Vec<String> {
    names.iter().map(|n| n.to_string()).collect()
}

fn text(s: &str) -> String {
    s.to_string()
}

fn response(receipts: &[&str]) -> Option<RespondData> {
    Some(RespondData { parsed: 1, not_parsed: String::new(), receipts: ids(receipts), errors: vec![] })
}

fn cache(entries: &[(&str, &str)]) -> LocationCache {
    let mut cache = LocationCache::new();
    for (id, location) in entries {
        cache.insert(text(id), text(location));
    }
    cache
}

#[test]
fn join_all_joins_in_order() {
    assert_eq!(join_all(&ids(&["ab", "", "c"])), text("abc"));
    assert_eq!(join_all(&vec![]), text(""));
}

#[test]
fn endpoints_append_publish() {
    assert_eq!(endpoints(&ids(&["http://a/", "http://b:1/"])), ids(&["http://a/publish", "http://b:1/publish"]));
    assert!(endpoints(&vec![]).is_empty());
}

#[test]
fn receipts_are_gathered_from_the_responses_that_arrived() {
    let responses = vec![response(&["r1", "r2"]), None, response(&[]), response(&["r3"])];
    let (receipts, answered) = collect_receipts(&responses);
    assert_eq!(receipts, ids(&["r1", "r2", "r3"]));
    assert!(answered);
    let (receipts, answered) = collect_receipts(&vec![None, None]);
    assert!(receipts.is_empty());
    assert!(!answered);
    let (receipts, answered) = collect_receipts(&vec![response(&[])]);
    assert!(receipts.is_empty());
    assert!(answered);
    let (receipts, answered) = collect_receipts(&vec![]);
    assert!(receipts.is_empty());
    assert!(!answered);
}

#[test]
fn publication_with_cached_witnesses_runs_to_the_end() {
    let cache = cache(&[("W1", "http://w1/"), ("W2", "http://w2/")]);
    let (state, action) = begin(&cache, &ids(&["W1", "W2"]));
    assert_eq!(state, Publication::Sending { targets: ids(&["http://w1/", "http://w2/"]), unresolved: vec![] });
    assert_eq!(action, Action::Send(ids(&["http://w1/publish", "http://w2/publish"])));

    let (state, action) = step(state, Event::Responded(vec![response(&["r1"]), response(&["r2"])]));
    assert_eq!(
        state,
        Publication::Applying { targets: ids(&["http://w1/", "http://w2/"]), receipts: ids(&["r1", "r2"]), applied: 0 }
    );
    assert_eq!(action, Action::Apply(text("r1")));

    let (state, action) = step(state, Event::Applied(true));
    assert_eq!(action, Action::Apply(text("r2")));
    let (state, action) = step(state, Event::Applied(true));
    assert_eq!(
        action,
        Action::Rebroadcast { endpoints: ids(&["http://w1/publish", "http://w2/publish"]), body: text("r1r2") }
    );
    let (state, action) = step(state, Event::Delivered);
    assert_eq!(state, Publication::Done);
    assert_eq!(action, Action::Finish);
}

#[test]
fn witness_without_location_is_passed_over() {
    let cache = cache(&[("W1", "http://w1/")]);
    let (state, action) = begin(&cache, &ids(&["W1", "W2", "W3"]));
    assert_eq!(
        state,
        Publication::Locating { found: ids(&["http://w1/"]), missing: ids(&["W2", "W3"]) }
    );
    assert_eq!(action, Action::AskDirectories(ids(&["W2", "W3"])));

    let answers = vec![vec![None, None], vec![Some(text("10.0.0.3:3232"))]];
    let (state, action) = step(state, Event::Located(answers));
    assert_eq!(
        state,
        Publication::Sending {
            targets: ids(&["http://w1/", "http://10.0.0.3:3232/"]),
            unresolved: ids(&["W2"]),
        }
    );
    assert_eq!(action, Action::Send(ids(&["http://w1/publish", "http://10.0.0.3:3232/publish"])));

    let (state, action) = step(state, Event::Responded(vec![None, response(&["r3"])]));
    assert_eq!(action, Action::Apply(text("r3")));
    let (state, action) = step(state, Event::Applied(true));
    assert_eq!(
        action,
        Action::Rebroadcast {
            endpoints: ids(&["http://w1/publish", "http://10.0.0.3:3232/publish"]),
            body: text("r3"),
        }
    );
    let (state, action) = step(state, Event::Delivered);
    assert_eq!(state, Publication::Done);
    assert_eq!(action, Action::Finish);
}

#[test]
fn publication_fails_where_no_witness_answers() {
    let cache = cache(&[("W1", "http://w1/"), ("W2", "http://w2/")]);
    let (state, _) = begin(&cache, &ids(&["W1", "W2"]));
    let (state, action) = step(state, Event::Responded(vec![None, None]));
    assert_eq!(state, Publication::Failed(ControllerError::PeerUnavailable));
    assert_eq!(action, Action::Fail(ControllerError::PeerUnavailable));
}

#[test]
fn publication_fails_where_no_witness_can_be_located() {
    let cache = LocationCache::new();
    let (state, action) = begin(&cache, &ids(&["W1"]));
    assert_eq!(action, Action::AskDirectories(ids(&["W1"])));
    let (state, action) = step(state, Event::Located(vec![vec![None]]));
    assert_eq!(state, Publication::Failed(ControllerError::PeerUnavailable));
    assert_eq!(action, Action::Fail(ControllerError::PeerUnavailable));
}

#[test]
fn publication_to_no_witness_is_done_at_once() {
    let cache = LocationCache::new();
    let (state, action) = begin(&cache, &vec![]);
    assert_eq!(state, Publication::Done);
    assert_eq!(action, Action::Finish);
    let (state, action) = step(state, Event::Delivered);
    assert_eq!(state, Publication::Done);
    assert_eq!(action, Action::Finish);
}

#[test]
fn response_without_receipts_goes_straight_to_the_rebroadcast() {
    let cache = cache(&[("W1", "http://w1/")]);
    let (state, _) = begin(&cache, &ids(&["W1"]));
    let (state, action) = step(state, Event::Responded(vec![response(&[])]));
    assert_eq!(action, Action::Rebroadcast { endpoints: ids(&["http://w1/publish"]), body: text("") });
    let (state, action) = step(state, Event::Applied(true));
    assert_eq!(action, Action::Rebroadcast { endpoints: ids(&["http://w1/publish"]), body: text("") });
    let (_, action) = step(state, Event::Delivered);
    assert_eq!(action, Action::Finish);
}

#[test]
fn refused_receipt_ends_the_publication() {
    let cache = cache(&[("W1", "http://w1/")]);
    let (state, _) = begin(&cache, &ids(&["W1"]));
    let (state, _) = step(state, Event::Responded(vec![response(&["r1", "r2"])]));
    let (state, action) = step(state, Event::Applied(false));
    assert_eq!(state, Publication::Failed(ControllerError::ReceiptRejected));
    assert_eq!(action, Action::Fail(ControllerError::ReceiptRejected));
    let (state, action) = step(state, Event::Applied(true));
    assert_eq!(state, Publication::Failed(ControllerError::ReceiptRejected));
    assert_eq!(action, Action::Fail(ControllerError::ReceiptRejected));
}

#[test]
fn unexpected_event_changes_nothing() {
    let cache = cache(&[("W1", "http://w1/")]);
    let (state, first) = begin(&cache, &ids(&["W1"]));
    let (state, action) = step(state, Event::Delivered);
    assert_eq!(action, first);
    let (state, action) = step(state, Event::Applied(true));
    assert_eq!(action, first);
    let (state, action) = step(state, Event::Located(vec![]));
    assert_eq!(action, first);
    assert_eq!(state, Publication::Sending { targets: ids(&["http://w1/"]), unresolved: vec![] });

    let (state, _) = step(state, Event::Responded(vec![response(&["r1"])]));
    let (state, action) = step(state, Event::Delivered);
    assert_eq!(action, Action::Apply(text("r1")));
    let (_, action) = step(state, Event::Responded(vec![None]));
    assert_eq!(action, Action::Apply(text("r1")));
}

#[test]
fn pending_repeats_the_action_of_a_state() {
    let state = Publication::Applying { targets: ids(&["http://w1/"]), receipts: ids(&["a", "b"]), applied: 1 };
    assert_eq!(state.pending(), Action::Apply(text("b")));
    let state = Publication::Applying { targets: ids(&["http://w1/"]), receipts: ids(&["a", "b"]), applied: 5 };
    assert_eq!(state.pending(), Action::Rebroadcast { endpoints: ids(&["http://w1/publish"]), body: text("ab") });
    let state = Publication::Failed(ControllerError::MissingIp(text("W1")));
    assert_eq!(state.pending(), Action::Fail(ControllerError::MissingIp(text("W1"))));
}

#[test]
fn controller_publishes_to_what_it_has_saved() {
    let (controller, prefixes) = Controller::init(
        vec![],
        Some(vec![
            WitnessConfig { aid: Some(text("W1")), location: Some(text("http://w1/")) },
            WitnessConfig { aid: Some(text("W2")), location: None },
        ]),
    );
    let (state, action) = controller.publish_event(&prefixes);
    assert_eq!(state, Publication::Locating { found: ids(&["http://w1/"]), missing: ids(&["W2"]) });
    assert_eq!(action, Action::AskDirectories(ids(&["W2"])));
}
