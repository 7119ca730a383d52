use tda_controller::controller::{bootstrap_log, Controller};
use tda_controller::directory::{
    first_success, get_witness_ip, join_query, key_log_query, key_state_query, publish_endpoint,
    resolve_missing, witness_ip_query, LocationCache,
};
use tda_controller::error::ControllerError;
use tda_controller::keystate::{KeyState, Threshold};
use tda_controller::witness::{witness_ids, WitnessConfig};

fn ids(names: &[&str]) -> Vec<String> {
    names.iter().map(|n| n.to_string()).collect()
}

fn text(s: &str) -> String {
    s.to_string()
}

#[test]
fn witness_config_hands_out_its_fields() {
    let full = WitnessConfig { aid: Some(text("W1")), location: Some(text("http://w1/")) };
    assert_eq!(full.get_aid(), Ok(text("W1")));
    assert_eq!(full.get_location(), Ok(text("http://w1/")));
    let bare = WitnessConfig { aid: Some(text("W2")), location: None };
    assert_eq!(bare.get_aid(), Ok(text("W2")));
    assert_eq!(bare.get_location(), Err(ControllerError::NoLocationSet));
    assert_eq!(witness_ids(&vec![full, bare]), ids(&["W1", "W2"]));
    assert!(witness_ids(&vec![]).is_empty());
}

#[test]
fn location_is_normalized_by_the_url_parser() {
    let found = |address: &str| get_witness_ip(&vec![Some(text(address))], &text("W1"));
    let missing = Err(ControllerError::MissingIp(text("W1")));
    assert_eq!(found("127.0.0.1:3232"), Ok(text("http://127.0.0.1:3232/")));
    assert_eq!(found("Example.COM:80/a/../b"), Ok(text("http://example.com/b")));
    assert_eq!(found("witness.example/base/"), Ok(text("http://witness.example/base/")));
    assert_eq!(found(""), missing);
    assert_eq!(found(":80"), missing);
    assert_eq!(found("host:port"), missing);
}

#[test]
fn first_success_takes_the_earliest_answer() {
    let answers: Vec<Option<u8>> = vec![None, Some(7), Some(9)];
    assert_eq!(first_success(&answers), Some(1));
    let none: Vec<Option<u8>> = vec![None, None];
    assert_eq!(first_success(&none), None);
    let empty: Vec<Option<u8>> = vec![];
    assert_eq!(first_success(&empty), None);
    assert_eq!(first_success(&vec![Some(1u8)]), Some(0));
}

#[test]
fn witness_ip_is_the_first_answer_as_a_location() {
    let answers = vec![None, Some(text("10.0.0.2:3232")), Some(text("10.0.0.3:3232"))];
    assert_eq!(get_witness_ip(&answers, &text("W1")), Ok(text("http://10.0.0.2:3232/")));
    assert_eq!(
        Controller::get_witness_ip(&answers, &text("W1")),
        Ok(text("http://10.0.0.2:3232/"))
    );
}

#[test]
fn witness_without_any_answer_is_missing() {
    let answers: Vec<Option<String>> = vec![None, None];
    assert_eq!(get_witness_ip(&answers, &text("W9")), Err(ControllerError::MissingIp(text("W9"))));
    assert_eq!(get_witness_ip(&vec![], &text("W9")), Err(ControllerError::MissingIp(text("W9"))));
}

#[test]
fn first_answer_counts_even_where_it_is_no_address() {
    let answers = vec![Some(text("")), Some(text("10.0.0.3:3232"))];
    assert_eq!(get_witness_ip(&answers, &text("W1")), Err(ControllerError::MissingIp(text("W1"))));
}

#[test]
fn endpoints_and_queries_are_joined_texts() {
    assert_eq!(publish_endpoint(&text("http://127.0.0.1:3232/")), text("http://127.0.0.1:3232/publish"));
    assert_eq!(
        witness_ip_query(&text("http://dir:9599/"), &text("BWitness")),
        text("http://dir:9599/witness_ips/BWitness")
    );
    assert_eq!(
        key_state_query(&text("http://dir:9599/"), &text("EIssuer")),
        text("http://dir:9599/key_states/EIssuer")
    );
    assert_eq!(
        key_log_query(&text("http://dir:9599/"), &text("EIssuer")),
        text("http://dir:9599/key_logs/EIssuer")
    );
    assert_eq!(join_query(&text("a"), "b", &text("c")), text("abc"));
    assert_eq!(join_query(&text(""), "", &text("")), text(""));
}

#[test]
fn cache_holds_one_location_per_witness() {
    let mut cache = LocationCache::new();
    assert_eq!(cache.get(&text("W1")), None);
    cache.insert(text("W1"), text("http://a/"));
    cache.insert(text("W2"), text("http://b/"));
    cache.insert(text("W1"), text("http://c/"));
    assert_eq!(cache.get(&text("W1")), Some(text("http://c/")));
    assert_eq!(cache.get(&text("W2")), Some(text("http://b/")));
    assert_eq!(cache.get(&text("W3")), None);
}

#[test]
fn directory_answers_never_replace_configured_locations() {
    let mut cache = LocationCache::new();
    cache.insert(text("W1"), text("http://configured/"));
    assert!(!cache.learn(text("W1"), text("http://directory/")));
    assert_eq!(cache.get(&text("W1")), Some(text("http://configured/")));
    assert!(cache.learn(text("W2"), text("http://first/")));
    assert!(cache.learn(text("W2"), text("http://second/")));
    assert_eq!(cache.get(&text("W2")), Some(text("http://second/")));
    cache.insert(text("W2"), text("http://configured-later/"));
    assert!(!cache.learn(text("W2"), text("http://third/")));
    assert_eq!(cache.get(&text("W2")), Some(text("http://configured-later/")));
}

#[test]
fn saving_witness_data_records_named_locations_only() {
    let mut cache = LocationCache::new();
    let configs = vec![
        WitnessConfig { aid: Some(text("W1")), location: Some(text("http://w1/")) },
        WitnessConfig { aid: Some(text("W2")), location: None },
        WitnessConfig { aid: Some(text("W1")), location: Some(text("http://w1-later/")) },
    ];
    let saved = cache.save_witness_data(&configs);
    assert_eq!(saved, ids(&["W1", "W2", "W1"]));
    assert_eq!(cache.get(&text("W1")), Some(text("http://w1-later/")));
    assert_eq!(cache.get(&text("W2")), None);
}

#[test]
fn get_ips_splits_by_the_cache() {
    let mut cache = LocationCache::new();
    cache.insert(text("W1"), text("http://w1/"));
    cache.insert(text("W3"), text("http://w3/"));
    let (found, missing) = cache.get_ips(&ids(&["W3", "W2", "W1", "W4"]));
    assert_eq!(found, ids(&["http://w3/", "http://w1/"]));
    assert_eq!(missing, ids(&["W2", "W4"]));
    let (found, missing) = cache.get_ips(&vec![]);
    assert!(found.is_empty());
    assert!(missing.is_empty());
}

#[test]
fn unresolved_witness_does_not_hold_back_the_others() {
    let missing = ids(&["W1", "W2", "W3"]);
    let answers = vec![
        vec![Some(text("10.0.0.1:1"))],
        vec![None, None],
        vec![None, Some(text("10.0.0.3:3"))],
    ];
    let (resolved, unresolved) = resolve_missing(&missing, &answers);
    assert_eq!(resolved, ids(&["http://10.0.0.1:1/", "http://10.0.0.3:3/"]));
    assert_eq!(unresolved, ids(&["W2"]));
}

#[test]
fn witness_without_answers_counts_as_unresolved() {
    let missing = ids(&["W1", "W2"]);
    let answers = vec![vec![Some(text("10.0.0.1:1"))]];
    let (resolved, unresolved) = resolve_missing(&missing, &answers);
    assert_eq!(resolved, ids(&["http://10.0.0.1:1/"]));
    assert_eq!(unresolved, ids(&["W2"]));
    let (resolved, unresolved) = resolve_missing(&vec![], &answers);
    assert!(resolved.is_empty());
    assert!(unresolved.is_empty());
}

#[test]
fn init_records_the_initial_witnesses() {
    let witnesses = vec![
        WitnessConfig { aid: Some(text("W1")), location: Some(text("http://w1/")) },
        WitnessConfig { aid: Some(text("W2")), location: None },
    ];
    let (controller, prefixes) = Controller::init(vec![text("http://dir/")], Some(witnesses));
    assert_eq!(prefixes, ids(&["W1", "W2"]));
    let (found, missing) = controller.get_ips(&prefixes);
    assert_eq!(found, ids(&["http://w1/"]));
    assert_eq!(missing, ids(&["W2"]));
    let (bare, none) = Controller::init(vec![], None);
    assert!(none.is_empty());
    let (found, missing) = bare.get_ips(&ids(&["W1"]));
    assert!(found.is_empty());
    assert_eq!(missing, ids(&["W1"]));
}

#[test]
fn controller_saves_witness_data() {
    let mut controller = Controller::new(vec![]);
    let saved = controller.save_witness_data(&vec![WitnessConfig {
        aid: Some(text("W7")),
        location: Some(text("http://w7/")),
    }]);
    assert_eq!(saved, ids(&["W7"]));
    let (found, missing) = controller.get_ips(&ids(&["W7", "W8"]));
    assert_eq!(found, ids(&["http://w7/"]));
    assert_eq!(missing, ids(&["W8"]));
}

#[test]
fn state_from_resolvers_is_the_first_that_arrived() {
    let first = KeyState { sequence: 3, witnesses: ids(&["W1"]), threshold: Threshold::Simple(1) };
    let second = KeyState { sequence: 9, witnesses: ids(&[]), threshold: Threshold::Weighted };
    let answers = vec![None, Some(first.clone()), Some(second)];
    assert_eq!(Controller::get_state_from_resolvers(answers), Ok(first));
    assert_eq!(
        Controller::get_state_from_resolvers(vec![None, None]),
        Err(ControllerError::PeerUnavailable)
    );
    assert_eq!(Controller::get_state_from_resolvers(vec![]), Err(ControllerError::PeerUnavailable));
}

#[test]
fn bootstrap_log_is_the_log_followed_by_the_receipts() {
    assert_eq!(bootstrap_log(b"{\"t\":\"icp\"}", b"-CAB"), b"{\"t\":\"icp\"}-CAB".to_vec());
    assert_eq!(bootstrap_log(b"", b"x"), b"x".to_vec());
    assert_eq!(bootstrap_log(b"x", b""), b"x".to_vec());
    assert!(bootstrap_log(b"", b"").is_empty());
}

#[test]
fn resolve_looks_in_the_cache_before_the_directories() {
    let mut cache = LocationCache::new();
    cache.insert(text("W1"), text("http://configured/"));
    let answers = vec![Some(text("10.0.0.9:1"))];
    assert_eq!(cache.resolve(&text("W1"), &answers), Ok(text("http://configured/")));
    assert_eq!(cache.resolve(&text("W2"), &answers), Ok(text("http://10.0.0.9:1/")));
    assert_eq!(cache.get(&text("W2")), Some(text("http://10.0.0.9:1/")));
    assert_eq!(cache.resolve(&text("W2"), &vec![]), Ok(text("http://10.0.0.9:1/")));
    assert_eq!(cache.resolve(&text("W3"), &vec![None]), Err(ControllerError::MissingIp(text("W3"))));
    assert_eq!(cache.get(&text("W3")), None);
}

#[test]
fn controller_resolves_and_asks_every_directory() {
    let mut controller = Controller::new(ids(&["http://dir-a/", "http://dir-b/"]));
    assert_eq!(
        controller.witness_ip_queries(&text("W1")),
        ids(&["http://dir-a/witness_ips/W1", "http://dir-b/witness_ips/W1"])
    );
    assert_eq!(
        controller.resolve_witness(&text("W1"), &vec![None, Some(text("10.1.1.1:80"))]),
        Ok(text("http://10.1.1.1/"))
    );
    let (found, missing) = controller.get_ips(&ids(&["W1"]));
    assert_eq!(found, ids(&["http://10.1.1.1/"]));
    assert!(missing.is_empty());
    assert_eq!(
        controller.resolve_witness(&text("W2"), &vec![None, None]),
        Err(ControllerError::MissingIp(text("W2")))
    );
}

#[test]
fn directory_outcomes_are_learned_but_for_configured_witnesses() {
    let mut cache = LocationCache::new();
    cache.insert(text("W1"), text("http://configured/"));
    let missing = ids(&["W1", "W2", "W3", "W2"]);
    let answers = vec![
        vec![Some(text("10.0.0.1:1"))],
        vec![Some(text("10.0.0.2:2"))],
        vec![None],
        vec![Some(text("10.0.0.9:9"))],
    ];
    cache.learn_outcomes(&missing, &answers);
    assert_eq!(cache.get(&text("W1")), Some(text("http://configured/")));
    assert_eq!(cache.get(&text("W2")), Some(text("http://10.0.0.9:9/")));
    assert_eq!(cache.get(&text("W3")), None);
}
