use beelay::api::{ApiStep, BeelayApi};
use beelay::common::{SwitchState, GENERIC_404_PAGE};
use beelay::frontend::BeelayFrontend;
use beelay::service::{
    generate_gave_up_response, parse_path_to_elems, parse_query_params_to_pairs, BeelayService,
    ServiceStep,
};
use indexmap::IndexMap;

fn service() -> BeelayService {
    let switches = vec!["Living Room Lights".to_string()];
    let frontend = BeelayFrontend::new(&switches, &None, &Vec::new());
    BeelayService::new(BeelayApi::new(IndexMap::new()), frontend, "0.0.0.0", &9999)
}

fn pair(name: &str, value: &str) -> (String, String) {
    (name.to_string(), value.to_string())
}

#[test]
fn paths_are_taken_apart() {
    assert_eq!(parse_path_to_elems("/api/switch/tv"), vec!["api", "switch", "tv"]);
    assert_eq!(parse_path_to_elems("//api///switch/tv//"), vec!["api", "switch", "tv"]);
    assert!(parse_path_to_elems("/").is_empty());
    assert!(parse_path_to_elems("").is_empty());
}

#[test]
fn queries_are_taken_apart() {
    assert_eq!(
        parse_query_params_to_pairs(Some("state=on&delay=5&&x")),
        vec![pair("state", "on"), pair("delay", "5"), pair("x", "")]
    );
    assert_eq!(
        parse_query_params_to_pairs(Some("switch=Not%20a+real%26device=1")),
        vec![pair("switch", "Not a real&device=1")]
    );
    assert_eq!(parse_query_params_to_pairs(Some("name=value")), vec![pair("name", "value")]);
    assert_eq!(parse_query_params_to_pairs(Some("=")), vec![pair("", "")]);
    assert!(parse_query_params_to_pairs(Some("")).is_empty());
    assert!(parse_query_params_to_pairs(None).is_empty());
}

#[test]
fn api_requests_reach_the_api() {
    match service().process_req("POST", "/api/switch/Living%20Room%20Lights/", Some("state=on")) {
        ServiceStep::Api { step: ApiStep::SetState { switch_name, state, delay, .. } } => {
            assert_eq!(switch_name, "Living Room Lights");
            assert_eq!(state, SwitchState::On);
            assert_eq!(delay, 0);
        }
        _ => panic!("does not set"),
    }
    match service().process_req("GET", "/api/switch/Living%20Room%20Lights", None) {
        ServiceStep::Api { step: ApiStep::GetState { switch_name, .. } } => {
            assert_eq!(switch_name, "Living Room Lights");
        }
        _ => panic!("does not get"),
    }
    match service().process_req("GET", "/api/", Some("switch=Not%20a%20real%20device")) {
        ServiceStep::Api { step: ApiStep::CheckSwitch { switch_name } } => {
            assert_eq!(switch_name, "Not a real device");
        }
        _ => panic!("does not check"),
    }
}

#[test]
fn delays_are_read_from_the_query() {
    match service().process_req("POST", "/api/switch/tv/", Some("state=off&delay=5")) {
        ServiceStep::Api { step: ApiStep::SetState { state, delay, .. } } => {
            assert_eq!(state, SwitchState::Off);
            assert_eq!(delay, 5);
        }
        _ => panic!("does not set"),
    }
    assert_eq!(
        parse_query_params_to_pairs(Some("a%20b=c%20d&e=f g")),
        vec![pair("a b", "c d"), pair("e", "f g")]
    );
}

#[test]
fn client_requests_reach_the_client() {
    match service().process_req("GET", "/client", None) {
        ServiceStep::Done { resp } => {
            assert_eq!(resp.status.as_u16(), 200);
            assert!(resp.body.contains("Living Room Lights"));
        }
        _ => panic!("not an answer"),
    }
    match service().process_req("GET", "/client/.css/main.css", None) {
        ServiceStep::Done { resp } => assert_eq!(resp.status.as_u16(), 200),
        _ => panic!("not an answer"),
    }
}

#[test]
fn other_requests_are_not_found() {
    for path in ["/", "/other", "/API"] {
        match service().process_req("GET", path, None) {
            ServiceStep::Done { resp } => {
                assert_eq!(resp.status.as_u16(), 404);
                assert_eq!(resp.body, GENERIC_404_PAGE);
            }
            _ => panic!("not an answer"),
        }
    }
}

#[test]
fn requests_are_routed_by_their_parts() {
    let path = vec!["api".to_string(), "switches".to_string()];
    assert!(matches!(
        service().route("GET", &path, &Vec::new()),
        ServiceStep::Api { step: ApiStep::ListSwitches }
    ));
}

#[test]
fn service_has_an_address_and_stops() {
    let mut service = service();
    assert_eq!(service.get_addr(), "0.0.0.0:9999");
    assert!(service.is_running());
    service.stop();
    assert!(!service.is_running());
    let resp = service.get_api().finish_set("tv", Ok(()));
    assert_eq!(resp.body, "{\"status\":\"success\"}");
}

#[test]
fn giving_up_is_an_internal_error() {
    let resp = generate_gave_up_response();
    assert_eq!(resp.status.as_u16(), 500);
    assert_eq!(resp.body, "{{\"status\":\"error\",\"error_message\":\"Internal error\"}}");
}
