use beelay::api::{
    find_last_value, frame_switch_list, generate_api_error_respose,
    generate_state_success_response, generate_switch_list_success_response, read_set_params,
    resolve_spaces, ApiStep, BeelayApi,
};
use beelay::beelay_core::{BeelayCoreError, BeelayCoreErrorType};
use beelay::common::{SwitchState, SwitchStatus};
use beelay::response::{Response, StatusCode};
use indexmap::IndexMap;
use std::collections::VecDeque;

fn api() -> BeelayApi {
    let mut names: IndexMap<String, String> = IndexMap::new();
    names.insert("tv".to_string(), "The \"big\" one".to_string());
    names.insert("a".to_string(), "b".to_string());
    BeelayApi::new(names)
}

fn path(elems: &[&str]) -> Vec<String> {
    elems.iter().map(|elem| elem.to_string()).collect()
}

fn query(pairs: &[(&str, &str)]) -> Vec<(String, String)> {
    pairs.iter().map(|pair| (pair.0.to_string(), pair.1.to_string())).collect()
}

fn done(step: ApiStep) -> (u16, String) {
    match step {
        ApiStep::Done { resp } => answer(resp),
        _ => panic!("not an answer"),
    }
}

fn answer(resp: Response) -> (u16, String) {
    (resp.status.as_u16(), resp.body)
}

fn error(message: &str) -> String {
    format!("{{\"status\":\"error\",\"error_message\":\"{}\"}}", message)
}

#[test]
fn post_sets_a_switch() {
    let step = api().handle_hit(
        "POST",
        &path(&["switch", "Living%20Room%20Lights"]),
        &query(&[("state", "on")]),
    );
    match step {
        ApiStep::SetState { path_name, switch_name, state, delay } => {
            assert_eq!(path_name, "Living%20Room%20Lights");
            assert_eq!(switch_name, "Living Room Lights");
            assert_eq!(state, SwitchState::On);
            assert_eq!(delay, 0);
        }
        _ => panic!("does not set"),
    }
    assert_eq!(
        answer(api().finish_set("Living%20Room%20Lights", Ok(()))),
        (200, "{\"status\":\"success\"}".to_string())
    );
}

#[test]
fn last_parameters_count() {
    let params = query(&[("state", "on"), ("delay", "5"), ("state", "off"), ("delay", "+60")]);
    assert_eq!(read_set_params(&params).unwrap(), (Some(SwitchState::Off), Some(60)));
    match api().handle_hit("POST", &path(&["switch", "tv"]), &params) {
        ApiStep::SetState { state, delay, .. } => {
            assert_eq!(state, SwitchState::Off);
            assert_eq!(delay, 60);
        }
        _ => panic!("does not set"),
    }
}

#[test]
fn first_wrong_parameter_is_refused() {
    let refuse = |pairs: &[(&str, &str)]| {
        done(api().handle_hit("POST", &path(&["switch", "tv"]), &query(pairs)))
    };
    assert_eq!(
        refuse(&[("state", "dim"), ("delay", "x")]),
        (400, error("Invalid value for state parameter (must be 'on' or 'off'): dim"))
    );
    assert_eq!(
        refuse(&[("delay", "65536"), ("state", "dim")]),
        (400, error("Invalid value for delay parameter (must be integer): 65536"))
    );
    assert_eq!(refuse(&[("state", "on"), ("hue", "3")]), (404, error("Unknown query parameter: hue")));
    assert_eq!(refuse(&[]), (400, error("Endpoint requires 'state' query parameter")));
    assert_eq!(
        refuse(&[("delay", "65535")]),
        (400, error("Endpoint requires 'state' query parameter"))
    );
}

#[test]
fn wrong_paths_are_refused() {
    let none = query(&[]);
    let top = error("Only top level API URL provided");
    assert_eq!(done(api().handle_hit("POST", &path(&[]), &none)), (404, top.clone()));
    assert_eq!(done(api().handle_hit("GET", &path(&[]), &none)), (404, top.clone()));
    assert_eq!(done(api().handle_hit("POST", &path(&["switch"]), &none)), (404, top));
    assert_eq!(
        done(api().handle_hit("POST", &path(&["switches"]), &none)),
        (405, error("POST not allowed for /switches"))
    );
    for method in ["GET", "POST"] {
        assert_eq!(
            done(api().handle_hit(method, &path(&["lamp"]), &none)),
            (404, error("Unknown endpoint element: lamp"))
        );
        assert_eq!(
            done(api().handle_hit(method, &path(&["switch", "tv", "hue"]), &none)),
            (404, error("Unknown endpoint element: hue"))
        );
    }
    assert_eq!(
        done(api().handle_hit("GET", &path(&["switches", "tv"]), &none)),
        (404, error("Unknown endpoint element: tv"))
    );
}

#[test]
fn other_methods_are_not_supported() {
    for method in ["PUT", "DELETE", "get"] {
        assert_eq!(
            done(api().handle_hit(method, &path(&["switch", "tv"]), &query(&[("state", "on")]))),
            (400, error(&format!("Method not supported: {}", method)))
        );
    }
}

#[test]
fn get_asks_for_a_state() {
    match api().handle_hit("GET", &path(&["switch", "a%20b"]), &query(&[("state", "on")])) {
        ApiStep::GetState { path_name, switch_name } => {
            assert_eq!(path_name, "a%20b");
            assert_eq!(switch_name, "a b");
        }
        _ => panic!("does not get"),
    }
}

#[test]
fn states_are_answered() {
    let get = |state, status| answer(api().finish_get("tv", Ok((state, status))));
    assert_eq!(
        get(Some(SwitchState::On), SwitchStatus::Confirmed),
        (200, "{\"status\":\"success\",\"state\":\"on\"}".to_string())
    );
    assert_eq!(
        get(Some(SwitchState::Off), SwitchStatus::Confirmed),
        (200, "{\"status\":\"success\",\"state\":\"off\"}".to_string())
    );
    assert_eq!(
        get(Some(SwitchState::On), SwitchStatus::Transitioning),
        (200, "{\"status\":\"success\",\"state\":\"on\",\"transitioning\":\"true\"}".to_string())
    );
    assert_eq!(
        get(None, SwitchStatus::Confirmed),
        (200, "{\"status\":\"success\",\"state\":\"unknown\"}".to_string())
    );
}

#[test]
fn faults_of_the_core_are_answered() {
    let fault = |kind| BeelayCoreError::new("gone", kind);
    let internal = (500, error("Internal error: BeelayCoreError: gone"));
    assert_eq!(
        answer(api().finish_get("a%20b", Err(fault(BeelayCoreErrorType::InvalidSwitch)))),
        (400, error("Unknown switch name: a%20b"))
    );
    assert_eq!(
        answer(api().finish_set("a%20b", Err(fault(BeelayCoreErrorType::InvalidSwitch)))),
        (400, error("Unknown switch name: a%20b"))
    );
    assert_eq!(
        answer(api().finish_get("tv", Err(fault(BeelayCoreErrorType::InternalError)))),
        internal
    );
    assert_eq!(
        answer(api().finish_set("tv", Err(fault(BeelayCoreErrorType::InternalError)))),
        internal
    );
    assert_eq!(
        answer(api().finish_list(Err(fault(BeelayCoreErrorType::InternalError)))),
        internal
    );
    assert_eq!(
        answer(api().finish_check("tv", Err(fault(BeelayCoreErrorType::InternalError)))),
        (404, error("Only top level API URL provided"))
    );
    let handed_on = api().finish_list_or_fail(Err(fault(BeelayCoreErrorType::InternalError)));
    assert_eq!(handed_on.unwrap_err().to_string(), "BeelayCoreError: gone");
}

#[test]
fn switches_are_listed() {
    let none = query(&[]);
    assert!(matches!(
        api().handle_hit("GET", &path(&["switches"]), &none),
        ApiStep::ListSwitches
    ));
    assert!(matches!(
        api().handle_hit("GET", &path(&["switch"]), &none),
        ApiStep::ListSwitchesOrFail
    ));
    let listed = (
        200,
        "{\"switches\":[\"tv\",\"la\\\\mp\"],\"pretty_names\":\
         {\"tv\":\"The \\\"big\\\" one\",\"a\":\"b\"}}"
            .to_string(),
    );
    assert_eq!(answer(api().finish_list(Ok(path(&["tv", "la\\mp"])))), listed);
    assert_eq!(answer(api().finish_list_or_fail(Ok(path(&["tv", "la\\mp"]))).unwrap()), listed);
    assert_eq!(
        answer(generate_switch_list_success_response(&path(&[]), &IndexMap::new())),
        (200, "{\"switches\":[],\"pretty_names\":{}}".to_string())
    );
    assert_eq!(
        answer(frame_switch_list("[1]", "{2}")),
        (200, "{\"switches\":[1],\"pretty_names\":{2}}".to_string())
    );
}

#[test]
fn unknown_switch_parameter_is_told() {
    let step = api().handle_hit("GET", &path(&[]), &query(&[("switch", "Not a real device")]));
    let name = match step {
        ApiStep::CheckSwitch { switch_name } => switch_name,
        _ => panic!("does not check"),
    };
    assert_eq!(name, "Not a real device");
    assert_eq!(
        answer(api().finish_check(&name, Ok(path(&["tv"])))),
        (400, "{\"error_msg\":\"Unknown switch name.\",\"status\":\"error\"}".to_string())
    );
    assert_eq!(
        answer(api().finish_check("tv", Ok(path(&["tv"])))),
        (404, error("Only top level API URL provided"))
    );
}

#[test]
fn sub_paths_are_taken_element_by_element() {
    let elems = path(&["tv", "hue", "rest"]);
    let mut queue: VecDeque<&String> = elems.iter().collect();
    assert_eq!(
        done(api().switch_get(&mut queue, &query(&[]))),
        (404, error("Unknown endpoint element: hue"))
    );
    assert_eq!(queue.len(), 1);
    assert_eq!(
        done(api().switches_get(&mut queue, &query(&[]))),
        (404, error("Unknown endpoint element: rest"))
    );
    assert!(queue.is_empty());
}

#[test]
fn escaped_spaces_become_spaces() {
    assert_eq!(resolve_spaces("Living%20Room%20Lights"), "Living Room Lights");
    assert_eq!(resolve_spaces("%%2020"), "% 20");
    assert_eq!(resolve_spaces("%2"), "%2");
    assert_eq!(resolve_spaces(""), "");
    let once = resolve_spaces("%2%20%200");
    assert_eq!(resolve_spaces(&once), once);
}

#[test]
fn answers_are_composed() {
    assert_eq!(
        answer(generate_api_error_respose("no", StatusCode::NotFound)),
        (404, error("no"))
    );
    assert_eq!(
        answer(generate_state_success_response(Some("on"), Some(false))),
        (200, "{\"status\":\"success\",\"state\":\"on\",\"transitioning\":\"false\"}".to_string())
    );
    assert_eq!(find_last_value(&query(&[("a", "1"), ("b", "2"), ("a", "3")]), "a").unwrap(), "3");
    assert!(find_last_value(&query(&[("a", "1")]), "c").is_none());
}
