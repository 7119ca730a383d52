use tda_controller::api::{
    check_bootstrap, claims_json, requested_witnesses, rotate, route_request, Method, Route,
};
use tda_controller::attestation::prepare_claim;
use tda_controller::controller::Controller;
use tda_controller::error::{ApiError, ControllerError};
use tda_controller::keystate::{KeyState, Threshold};
use tda_controller::resolution::{first_log, Finding, KeyLookup, KnownIssuers, Request};
use tda_controller::signature::KeyConfig;
use tda_controller::textmap::TextMap;
use tda_controller::witness::WitnessConfig;

fn ids(names: &[&str]) -> Vec<String> {
    names.iter().map(|n| n.to_string()).collect()
}

fn text(s: &str) -> String {
    s.to_string()
}

fn keys(seed: u8) -> KeyConfig {
    KeyConfig { public_keys: vec![vec![seed; 32]], threshold: 1 }
}

#[test]
fn tracked_identifier_is_answered_from_what_is_held() {
    let mut known = KnownIssuers::new();
    known.track(text("EOwn"), keys(1));
    let resolvers = ids(&["http://dir-a/", "http://dir-b/"]);
    let (state, request) = known.get_public_keys(&resolvers, &text("EOwn"));
    assert_eq!(state, KeyLookup::Resolved(keys(1)));
    assert_eq!(request, Request::Use(keys(1)));
    known.track(text("EOwn"), keys(2));
    let (_, request) = known.get_public_keys(&resolvers, &text("EOwn"));
    assert_eq!(request, Request::Use(keys(2)));
}

#[test]
fn unknown_identifier_is_looked_for_in_every_directory() {
    let known = KnownIssuers::new();
    let resolvers = ids(&["http://dir-a/", "http://dir-b/"]);
    let queries = ids(&["http://dir-a/key_logs/EOther", "http://dir-b/key_logs/EOther"]);
    let (state, request) = known.get_public_keys(&resolvers, &text("EOther"));
    assert_eq!(state, KeyLookup::Fetching { issuer: text("EOther"), queries: queries.clone() });
    assert_eq!(request, Request::Fetch(queries));
    let (_, request) = known.get_public_keys(&vec![], &text("EOther"));
    assert_eq!(request, Request::Fetch(vec![]));
}

#[test]
fn validated_log_makes_the_issuer_known() {
    let mut known = KnownIssuers::new();
    let (state, _) = known.get_public_keys(&ids(&["http://dir/"]), &text("EOther"));
    let (state, request) = known.advance(state, Finding::Logs(vec![None, Some(vec![1, 2, 3])]));
    assert_eq!(state, KeyLookup::Validating { issuer: text("EOther"), log: vec![1, 2, 3] });
    assert_eq!(request, Request::Validate(vec![1, 2, 3]));
    let (state, request) = known.advance(state, Finding::Validated(Some(keys(5))));
    assert_eq!(state, KeyLookup::Resolved(keys(5)));
    assert_eq!(request, Request::Use(keys(5)));
    let (_, request) = known.get_public_keys(&vec![], &text("EOther"));
    assert_eq!(request, Request::Use(keys(5)));
}

#[test]
fn issuer_without_a_validated_log_is_unknown() {
    let mut known = KnownIssuers::new();
    let (state, _) = known.get_public_keys(&ids(&["http://dir/"]), &text("EOther"));
    let (state, _) = known.advance(state, Finding::Logs(vec![Some(vec![9])]));
    let (state, request) = known.advance(state, Finding::Validated(None));
    assert_eq!(state, KeyLookup::Unknown);
    assert_eq!(request, Request::Reject);
    let (_, request) = known.get_public_keys(&vec![], &text("EOther"));
    assert_eq!(request, Request::Fetch(vec![]));
}

#[test]
fn issuer_without_a_log_is_unknown() {
    let mut known = KnownIssuers::new();
    let (state, _) = known.get_public_keys(&ids(&["http://dir/"]), &text("EOther"));
    let (state, request) = known.advance(state, Finding::Logs(vec![None]));
    assert_eq!(state, KeyLookup::Unknown);
    assert_eq!(request, Request::Reject);
    let (state, request) = known.advance(state, Finding::Validated(Some(keys(1))));
    assert_eq!(state, KeyLookup::Unknown);
    assert_eq!(request, Request::Reject);
}

#[test]
fn keys_are_not_taken_before_a_log_was_fetched() {
    let mut known = KnownIssuers::new();
    let (state, first) = known.get_public_keys(&ids(&["http://dir/"]), &text("EOther"));
    let (state, request) = known.advance(state, Finding::Validated(Some(keys(1))));
    assert_eq!(request, first);
    assert_eq!(state.pending(), first);
    let (_, request) = known.get_public_keys(&ids(&["http://dir/"]), &text("EOther"));
    assert_eq!(request, first);
}

#[test]
fn first_log_is_the_first_that_a_directory_delivered() {
    assert_eq!(first_log(&vec![None, Some(vec![1, 2]), Some(vec![3])]), Some(vec![1, 2]));
    assert_eq!(first_log(&vec![Some(vec![])]), Some(vec![]));
    assert_eq!(first_log(&vec![None, None]), None);
    assert_eq!(first_log(&vec![]), None);
}

#[test]
fn controller_resolves_keys_in_two_tiers() {
    let mut controller = Controller::new(ids(&["http://dir/"]));
    let (_, request) = controller.get_public_keys(&text("EOwn"));
    assert_eq!(request, Request::Fetch(ids(&["http://dir/key_logs/EOwn"])));
    controller.track(text("EOwn"), keys(3));
    let (_, request) = controller.get_public_keys(&text("EOwn"));
    assert_eq!(request, Request::Use(keys(3)));
    let (state, request) = controller.get_public_keys(&text("EOther"));
    assert_eq!(request, Request::Fetch(ids(&["http://dir/key_logs/EOther"])));
    let (state, _) = controller.resolve_keys(state, Finding::Logs(vec![Some(vec![7])]));
    let (_, request) = controller.resolve_keys(state, Finding::Validated(Some(keys(4))));
    assert_eq!(request, Request::Use(keys(4)));
    let (_, request) = controller.get_public_keys(&text("EOther"));
    assert_eq!(request, Request::Use(keys(4)));
}

#[test]
fn text_map_keeps_one_value_per_key_in_arrival_order() {
    let mut map: TextMap<u32> = TextMap::new();
    assert_eq!(map.len(), 0);
    assert_eq!(map.get(&text("a")), None);
    map.insert(text("a"), 1);
    map.insert(text("b"), 2);
    map.insert(text("a"), 3);
    assert_eq!(map.len(), 2);
    assert_eq!(map.get(&text("a")), Some(&3));
    assert_eq!(map.get(&text("b")), Some(&2));
    assert_eq!(map.position(&text("a")), Some(0));
    assert_eq!(map.position(&text("b")), Some(1));
    assert_eq!(map.position(&text("c")), None);
    assert!(map.contains_key(&text("b")));
    assert!(!map.contains_key(&text("")));
    assert_eq!(map.entry(0).key, "a");
    assert_eq!(map.entry(0).value, 3);
    assert_eq!(map.entry(1).key, "b");
}

#[test]
fn requests_are_routed_by_method_and_leading_segments() {
    assert_eq!(route_request(Method::Get, &ids(&["attestations"])), Some(Route::ListAttestations));
    assert_eq!(route_request(Method::Post, &ids(&["attestations", "create"])), Some(Route::CreateAttestation));
    assert_eq!(route_request(Method::Post, &ids(&["attestations"])), Some(Route::ReceiveAttestation));
    assert_eq!(route_request(Method::Post, &ids(&["rotate"])), Some(Route::Rotate));
    assert_eq!(route_request(Method::Get, &ids(&["attestations", "create"])), Some(Route::ListAttestations));
    assert_eq!(route_request(Method::Post, &ids(&["attestations", "other"])), Some(Route::ReceiveAttestation));
    assert_eq!(route_request(Method::Post, &ids(&["rotate", "now"])), Some(Route::Rotate));
}

#[test]
fn other_requests_have_no_route() {
    assert_eq!(route_request(Method::Get, &ids(&["rotate"])), None);
    assert_eq!(route_request(Method::Other, &ids(&["rotate"])), None);
    assert_eq!(route_request(Method::Other, &ids(&["attestations"])), None);
    assert_eq!(route_request(Method::Get, &vec![]), None);
    assert_eq!(route_request(Method::Post, &vec![]), None);
    assert_eq!(route_request(Method::Post, &ids(&["create"])), None);
    assert_eq!(route_request(Method::Get, &ids(&["Attestations"])), None);
    assert_eq!(route_request(Method::Post, &ids(&["", "rotate"])), None);
}

#[test]
fn empty_witness_list_asks_for_no_change() {
    assert_eq!(requested_witnesses(None), None);
    assert_eq!(requested_witnesses(Some(vec![])), None);
    let list = vec![WitnessConfig { aid: Some(text("W1")), location: None }];
    assert_eq!(requested_witnesses(Some(list.clone())), Some(list));
}

#[test]
fn rotation_request_with_an_empty_list_keeps_the_witnesses() {
    let mut controller = Controller::new(vec![]);
    let current = KeyState { sequence: 1, witnesses: ids(&["W1", "W2"]), threshold: Threshold::Simple(2) };
    let plan = rotate(&mut controller, Some(&current), Some(vec![]), None).unwrap();
    assert!(plan.witness_to_add.is_empty());
    assert!(plan.witness_to_remove.is_empty());
    assert_eq!(plan.threshold, Threshold::Simple(2));
    assert_eq!(plan.publish_to, ids(&["W1", "W2"]));
}

#[test]
fn refused_rotation_request_is_reported_with_its_description() {
    let mut controller = Controller::new(vec![]);
    let current = KeyState { sequence: 1, witnesses: ids(&["W1"]), threshold: Threshold::Simple(1) };
    assert_eq!(
        rotate(&mut controller, Some(&current), None, Some(2)),
        Err(ApiError::SomeError(text("Improper threshold")))
    );
    assert_eq!(
        rotate(&mut controller, None, None, None),
        Err(ApiError::SomeError(text("There's no state in database")))
    );
}

#[test]
fn bootstrap_needs_as_many_witnesses_as_its_threshold() {
    assert_eq!(check_bootstrap(Some(2), 3), Err(ControllerError::NotEnoughWitnesses));
    assert_eq!(check_bootstrap(Some(3), 3), Ok(()));
    assert_eq!(check_bootstrap(Some(0), 0), Ok(()));
    assert_eq!(check_bootstrap(None, 3), Ok(()));
}

#[test]
fn failures_describe_themselves() {
    assert_eq!(ControllerError::MissingIp(text("W1")).describe(), "No location found for witness W1");
    assert_eq!(ControllerError::ThresholdViolation.describe(), "Improper threshold");
    assert_eq!(ControllerError::NoPriorState.describe(), "There's no state in database");
    assert_eq!(ControllerError::PeerUnavailable.describe(), "Publishing event to witness failed");
    assert_eq!(ControllerError::ReceiptRejected.describe(), "Processing witness receipts failed");
    assert_eq!(ControllerError::NotEnoughWitnesses.describe(), "Not enough witnesses provided");
    assert_eq!(ControllerError::NoLocationSet.describe(), "No location set");
    assert_eq!(ApiError::SigningError.describe(), "SigningError");
    assert_eq!(ApiError::InvalidAttestation.describe(), "InvalidAttestation");
    assert_eq!(ApiError::VerificationFailed.describe(), "VerificationFailed");
    assert_eq!(ApiError::UnknownIssuer.describe(), "UnknownIssuer");
    assert_eq!(ApiError::SomeError(text("boom")).describe(), "SomeError: boom");
    assert_eq!(ApiError::UnknownIssuer.status_code(), 500);
    assert_eq!(ControllerError::MissingIp(text("W1")).duplicate(), ControllerError::MissingIp(text("W1")));
}

#[test]
fn claims_are_listed_as_a_json_array() {
    assert_eq!(claims_json(&vec![]), b"[]".to_vec());
    let payload = b"{\"i\":\"\",\"ri\":\"\",\"s\":\"schema\",\"a\":{\"a\":{\"name\":\"Hella\"}}}";
    let first = prepare_claim(payload, &text("EFirst")).unwrap();
    let second = prepare_claim(payload, &text("ESecond")).unwrap();
    let mut one = b"[".to_vec();
    one.extend_from_slice(first.payload());
    one.push(b']');
    assert_eq!(claims_json(&vec![first.clone()]), one);
    let mut two = b"[".to_vec();
    two.extend_from_slice(first.payload());
    two.push(b',');
    two.extend_from_slice(second.payload());
    two.push(b']');
    assert_eq!(claims_json(&vec![first, second]), two);
}
