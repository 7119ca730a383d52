use tda_controller::controller::Controller;
use tda_controller::error::ControllerError;
use tda_controller::keystate::{KeyState, Threshold};
use tda_controller::receipts::{count_receipts, is_established};
use tda_controller::directory::LocationCache;
use tda_controller::rollout::{advance, start, Progress, Rollout, Task};
use tda_controller::rotation::{
    check_threshold, plan_rotation, witness_delta, without, RotationPlan,
};
use tda_controller::witness::WitnessConfig;

fn ids(names: &[&str]) -> Vec<String> {
    names.iter().map(|n| n.to_string()).collect()
}

fn state(witnesses: &[&str], threshold: Threshold) -> KeyState {
    KeyState { sequence: 0, witnesses: ids(witnesses), threshold }
}

fn config(aid: &str, location: Option<&str>) -> WitnessConfig {
    WitnessConfig { aid: Some(aid.to_string()), location: location.map(|l| l.to_string()) }
}

#[test]
fn rotation_without_request_changes_nothing() {
    let old = state(&["W1", "W2", "W3"], Threshold::Simple(2));
    let plan = plan_rotation(&old, None, None).unwrap();
    assert!(plan.witness_to_add.is_empty());
    assert!(plan.witness_to_remove.is_empty());
    assert_eq!(plan.threshold, Threshold::Simple(2));
    assert_eq!(plan.publish_to, ids(&["W1", "W2", "W3"]));
    let next = old.rotated(&plan);
    assert_eq!(next.witnesses, old.witnesses);
    assert_eq!(next.threshold, old.threshold);
    assert_eq!(next.sequence, 1);
}

#[test]
fn rotation_without_request_keeps_a_weighted_threshold() {
    let old = state(&["W1"], Threshold::Weighted);
    let plan = plan_rotation(&old, None, None).unwrap();
    assert_eq!(plan.threshold, Threshold::Weighted);
    assert_eq!(plan.publish_to, ids(&["W1"]));
}

#[test]
fn rotation_without_witnesses_changes_nothing() {
    let old = state(&[], Threshold::Simple(0));
    let plan = plan_rotation(&old, None, None).unwrap();
    assert!(plan.publish_to.is_empty());
    assert_eq!(plan.threshold, Threshold::Simple(0));
}

#[test]
fn threshold_above_old_count_is_refused() {
    let old = state(&["W1", "W2"], Threshold::Simple(1));
    assert_eq!(plan_rotation(&old, None, Some(3)), Err(ControllerError::ThresholdViolation));
}

#[test]
fn threshold_above_new_count_is_refused() {
    let old = state(&["W1", "W2", "W3"], Threshold::Simple(1));
    let new_list = ids(&["W1", "W4"]);
    assert_eq!(
        plan_rotation(&old, Some(&new_list), Some(3)),
        Err(ControllerError::ThresholdViolation)
    );
}

#[test]
fn threshold_alone_is_held_against_the_old_count() {
    let old = state(&["W1", "W2"], Threshold::Simple(1));
    let plan = plan_rotation(&old, None, Some(2)).unwrap();
    assert_eq!(plan.threshold, Threshold::Simple(2));
    assert_eq!(plan.publish_to, ids(&["W1", "W2"]));
    assert!(plan.witness_to_add.is_empty());
    assert!(plan.witness_to_remove.is_empty());
    let lower = plan_rotation(&old, None, Some(0)).unwrap();
    assert_eq!(lower.threshold, Threshold::Simple(0));
}

#[test]
fn list_alone_keeps_the_old_threshold() {
    let old = state(&["W1", "W2", "W3"], Threshold::Simple(2));
    let new_list = ids(&["W1", "W2"]);
    let plan = plan_rotation(&old, Some(&new_list), None).unwrap();
    assert_eq!(plan.threshold, Threshold::Simple(2));
    let short = ids(&["W1"]);
    assert_eq!(plan_rotation(&old, Some(&short), None), Err(ControllerError::ThresholdViolation));
}

#[test]
fn list_alone_is_refused_under_a_weighted_threshold() {
    let old = state(&["W1", "W2"], Threshold::Weighted);
    let new_list = ids(&["W1", "W2", "W3"]);
    assert_eq!(
        plan_rotation(&old, Some(&new_list), None),
        Err(ControllerError::ThresholdViolation)
    );
}

#[test]
fn list_and_threshold_are_held_against_each_other() {
    let old = state(&["W1"], Threshold::Weighted);
    let new_list = ids(&["W2", "W3"]);
    let plan = plan_rotation(&old, Some(&new_list), Some(2)).unwrap();
    assert_eq!(plan.threshold, Threshold::Simple(2));
    assert_eq!(plan.witness_to_add, ids(&["W2", "W3"]));
    assert_eq!(plan.witness_to_remove, ids(&["W1"]));
    assert_eq!(plan.publish_to, ids(&["W2", "W3"]));
}

#[test]
fn check_threshold_follows_the_table() {
    let simple = Threshold::Simple(2);
    assert_eq!(check_threshold(simple, 3, None, None), Ok(simple));
    assert_eq!(check_threshold(simple, 3, None, Some(3)), Ok(Threshold::Simple(3)));
    assert_eq!(check_threshold(simple, 3, None, Some(4)), Err(ControllerError::ThresholdViolation));
    assert_eq!(check_threshold(simple, 3, Some(2), None), Ok(simple));
    assert_eq!(check_threshold(simple, 3, Some(1), None), Err(ControllerError::ThresholdViolation));
    assert_eq!(check_threshold(simple, 3, Some(1), Some(1)), Ok(Threshold::Simple(1)));
    assert_eq!(
        check_threshold(simple, 3, Some(1), Some(2)),
        Err(ControllerError::ThresholdViolation)
    );
    assert_eq!(
        check_threshold(Threshold::Weighted, 3, Some(5), None),
        Err(ControllerError::ThresholdViolation)
    );
    assert_eq!(check_threshold(Threshold::Weighted, 3, None, None), Ok(Threshold::Weighted));
}

#[test]
fn delta_adds_only_new_and_removes_only_old() {
    let old = ids(&["W1", "W2", "W3"]);
    let new = ids(&["W3", "W4", "W1", "W5"]);
    let (to_add, to_remove) = witness_delta(&old, &new);
    assert_eq!(to_add, ids(&["W4", "W5"]));
    assert_eq!(to_remove, ids(&["W2"]));
    for added in &to_add {
        assert!(!old.contains(added));
    }
    for removed in &to_remove {
        assert!(old.contains(removed));
    }
}

#[test]
fn delta_of_equal_lists_is_empty() {
    let old = ids(&["W1", "W2"]);
    let (to_add, to_remove) = witness_delta(&old, &old);
    assert!(to_add.is_empty());
    assert!(to_remove.is_empty());
}

#[test]
fn delta_keeps_repeated_entries_of_the_request() {
    let old = ids(&["W1"]);
    let new = ids(&["W2", "W2"]);
    let (to_add, to_remove) = witness_delta(&old, &new);
    assert_eq!(to_add, ids(&["W2", "W2"]));
    assert_eq!(to_remove, ids(&["W1"]));
}

#[test]
fn without_keeps_order() {
    let list = ids(&["c", "a", "b", "a"]);
    let other = ids(&["b"]);
    assert_eq!(without(&list, &other), ids(&["c", "a", "a"]));
    assert_eq!(without(&list, &ids(&[])), list);
    assert!(without(&ids(&[]), &list).is_empty());
}

#[test]
fn rotated_state_prunes_then_grafts() {
    let old = KeyState { sequence: 4, witnesses: ids(&["W1", "W2", "W3"]), threshold: Threshold::Simple(2) };
    let new_list = ids(&["W4", "W3", "W1"]);
    let plan = plan_rotation(&old, Some(&new_list), Some(3)).unwrap();
    let next = old.rotated(&plan);
    assert_eq!(next.sequence, 5);
    assert_eq!(next.witnesses, ids(&["W1", "W3", "W4"]));
    assert_eq!(next.threshold, Threshold::Simple(3));
    let mut reached = next.witnesses.clone();
    reached.sort();
    let mut asked = new_list.clone();
    asked.sort();
    assert_eq!(reached, asked);
}

#[test]
fn two_receipts_establish_and_removing_a_witness_keeps_the_threshold() {
    let incepted = state(&["W1", "W2", "W3"], Threshold::Simple(2));
    let receipted = ids(&["W1", "W2"]);
    assert!(is_established(&incepted.witnesses, incepted.threshold, &receipted));
    assert!(!is_established(&incepted.witnesses, incepted.threshold, &ids(&["W1"])));

    let new_list = ids(&["W1", "W2"]);
    let plan = plan_rotation(&incepted, Some(&new_list), None).unwrap();
    assert_eq!(plan.threshold, Threshold::Simple(2));
    assert_eq!(plan.witness_to_remove, ids(&["W3"]));
    assert!(plan.witness_to_add.is_empty());
    assert_eq!(plan.publish_to, ids(&["W1", "W2"]));
    let next = incepted.rotated(&plan);
    assert_eq!(next.witnesses, ids(&["W1", "W2"]));
    assert_eq!(next.threshold, Threshold::Simple(2));
}

#[test]
fn receipts_count_each_witness_once() {
    let witnesses = ids(&["W1", "W2", "W3"]);
    assert_eq!(count_receipts(&witnesses, &ids(&["W1", "W1", "W1"])), 1);
    assert_eq!(count_receipts(&witnesses, &ids(&["W3", "W1", "W3"])), 2);
    assert_eq!(count_receipts(&witnesses, &ids(&["X1", "X2"])), 0);
    assert_eq!(count_receipts(&witnesses, &ids(&[])), 0);
    assert_eq!(count_receipts(&ids(&["W1", "W1"]), &ids(&["W1"])), 1);
    assert!(!is_established(&witnesses, Threshold::Simple(2), &ids(&["W1", "W1", "X1"])));
    assert!(is_established(&witnesses, Threshold::Simple(0), &ids(&[])));
    assert!(!is_established(&witnesses, Threshold::Weighted, &witnesses));
}

#[test]
fn controller_refuses_rotation_before_inception() {
    let mut controller = Controller::new(vec![]);
    let outcome = controller.rotate(None, None, None);
    assert_eq!(outcome, Err(ControllerError::NoPriorState));
    let outcome = controller.rotate(None, Some(vec![config("W1", Some("http://w1/"))]), Some(1));
    assert_eq!(outcome, Err(ControllerError::NoPriorState));
    let (found, missing) = controller.get_ips(&ids(&["W1"]));
    assert!(found.is_empty());
    assert_eq!(missing, ids(&["W1"]));
}

#[test]
fn controller_rotation_records_new_locations() {
    let mut controller = Controller::new(vec!["http://dir/".to_string()]);
    let current = state(&["W1", "W2"], Threshold::Simple(1));
    let list = vec![config("W2", None), config("W3", Some("http://w3/"))];
    let plan = controller.rotate(Some(&current), Some(list), Some(2)).unwrap();
    assert_eq!(plan.witness_to_add, ids(&["W3"]));
    assert_eq!(plan.witness_to_remove, ids(&["W1"]));
    assert_eq!(plan.threshold, Threshold::Simple(2));
    assert_eq!(plan.publish_to, ids(&["W2", "W3"]));
    let (found, missing) = controller.get_ips(&plan.publish_to);
    assert_eq!(found, ids(&["http://w3/"]));
    assert_eq!(missing, ids(&["W2"]));
}

#[test]
fn refused_rotation_leaves_the_controller_unchanged() {
    let mut controller = Controller::new(vec![]);
    let current = state(&["W1", "W2"], Threshold::Simple(2));
    let list = vec![config("W3", Some("http://w3/"))];
    let outcome = controller.rotate(Some(&current), Some(list), None);
    assert_eq!(outcome, Err(ControllerError::ThresholdViolation));
    let (found, missing) = controller.get_ips(&ids(&["W3"]));
    assert!(found.is_empty());
    assert_eq!(missing, ids(&["W3"]));
    assert_eq!(current, state(&["W1", "W2"], Threshold::Simple(2)));
}

fn plan(to_add: &[&str], to_remove: &[&str], publish_to: &[&str]) -> RotationPlan {
    RotationPlan {
        witness_to_add: ids(to_add),
        witness_to_remove: ids(to_remove),
        threshold: Threshold::Simple(1),
        publish_to: ids(publish_to),
    }
}

#[test]
fn rotation_without_new_witnesses_goes_straight_to_the_event() {
    let mut cache = LocationCache::new();
    let (state, task) = start(&cache, plan(&[], &["W1"], &["W2"]));
    assert_eq!(state, Rollout::Rotating { plan: plan(&[], &["W1"], &["W2"]) });
    assert_eq!(
        task,
        Task::Rotate { witness_to_add: vec![], witness_to_remove: ids(&["W1"]), threshold: Threshold::Simple(1) }
    );
    let (state, task) = advance(&mut cache, state, Progress::Rotated);
    assert_eq!(state, Rollout::Publishing { witnesses: ids(&["W2"]) });
    assert_eq!(task, Task::Publish(ids(&["W2"])));
    let (_, task) = advance(&mut cache, state, Progress::Rotated);
    assert_eq!(task, Task::Publish(ids(&["W2"])));
}

#[test]
fn new_witnesses_get_the_log_before_the_event_is_made() {
    let mut cache = LocationCache::new();
    cache.insert("W3".to_string(), "http://w3/".to_string());
    let rotation = plan(&["W3", "W4"], &[], &["W1", "W3", "W4"]);
    let (state, task) = start(&cache, rotation);
    assert_eq!(task, Task::AskDirectories(ids(&["W4"])));

    let (state, task) =
        advance(&mut cache, state, Progress::Located(vec![vec![None, Some("10.0.0.4:4".to_string())]]));
    assert_eq!(task, Task::SendLog(ids(&["http://w3/publish", "http://10.0.0.4:4/publish"])));
    assert_eq!(cache.get(&"W4".to_string()), Some("http://10.0.0.4:4/".to_string()));

    let (state, task) = advance(&mut cache, state, Progress::Rotated);
    assert_eq!(task, Task::SendLog(ids(&["http://w3/publish", "http://10.0.0.4:4/publish"])));

    let (state, task) = advance(&mut cache, state, Progress::Delivered(true));
    assert_eq!(
        task,
        Task::Rotate { witness_to_add: ids(&["W3", "W4"]), witness_to_remove: vec![], threshold: Threshold::Simple(1) }
    );
    let (_, task) = advance(&mut cache, state, Progress::Rotated);
    assert_eq!(task, Task::Publish(ids(&["W1", "W3", "W4"])));
}

#[test]
fn new_witness_without_location_stops_the_rotation() {
    let mut cache = LocationCache::new();
    let (state, _) = start(&cache, plan(&["W3", "W4", "W5"], &[], &["W3", "W4", "W5"]));
    let answers = vec![vec![Some("10.0.0.3:3".to_string())], vec![None], vec![]];
    let (state, task) = advance(&mut cache, state, Progress::Located(answers));
    assert_eq!(state, Rollout::Unlocated { witnesses: ids(&["W4", "W5"]) });
    assert_eq!(task, Task::Fail(ControllerError::MissingIp("W4".to_string())));
    assert_eq!(cache.get(&"W3".to_string()), Some("http://10.0.0.3:3/".to_string()));
    assert_eq!(cache.get(&"W4".to_string()), None);
    let (_, task) = advance(&mut cache, state, Progress::Delivered(true));
    assert_eq!(task, Task::Fail(ControllerError::MissingIp("W4".to_string())));
}

#[test]
fn undelivered_log_stops_the_rotation() {
    let mut cache = LocationCache::new();
    cache.insert("W3".to_string(), "http://w3/".to_string());
    let (state, task) = start(&cache, plan(&["W3"], &[], &["W3"]));
    assert_eq!(task, Task::SendLog(ids(&["http://w3/publish"])));
    let (state, task) = advance(&mut cache, state, Progress::Delivered(false));
    assert_eq!(state, Rollout::Undelivered);
    assert_eq!(task, Task::Fail(ControllerError::PeerUnavailable));
    assert_eq!(Rollout::Unlocated { witnesses: vec![] }.pending(), Task::Fail(ControllerError::PeerUnavailable));
}

#[test]
fn controller_rolls_a_rotation_out() {
    let mut controller = Controller::new(vec![]);
    let current = state(&["W1"], Threshold::Simple(1));
    let list = vec![config("W1", None), config("W2", Some("http://w2/"))];
    let rotation = controller.rotate(Some(&current), Some(list), None).unwrap();
    let (state, task) = controller.roll_out(rotation);
    assert_eq!(task, Task::SendLog(ids(&["http://w2/publish"])));
    let (state, _) = controller.advance_rotation(state, Progress::Delivered(true));
    let (_, task) = controller.advance_rotation(state, Progress::Rotated);
    assert_eq!(task, Task::Publish(ids(&["W1", "W2"])));
}
