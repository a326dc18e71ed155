use std::collections::HashMap;

use beelay::api::{ApiStep, BeelayApi};
use beelay::beelay_core::{
    answer_get, build_core, record_set, BeelayCore, BeelayCoreCtrl, CoreAction,
};
use beelay::common::SwitchState;
use beelay::frontend::BeelayFrontend;
use beelay::mqtt_client::{
    build_mqtt_client, EventPoll, EventStep, LinkPoll, MqttAction, MqttClient, MqttClientCtrl,
    MqttEvent,
};
use beelay::response::Response;
use beelay::service::{BeelayService, ServiceStep};
use indexmap::IndexMap;

struct Bridge {
    service: BeelayService,
    core: BeelayCore,
    client: MqttClient,
    files: HashMap<String, String>,
    published: Vec<(String, String)>,
}

impl Bridge {
    fn new() -> Bridge {
        let switches = vec!["Living Room Lights".to_string(), "tv".to_string()];
        let frontend = BeelayFrontend::new(&switches, &None, &Vec::new());
        let api = BeelayApi::new(IndexMap::new());
        let mut client = build_mqtt_client(
            switches.clone(),
            "localhost".to_string(),
            1883,
            "zigbee2mqtt".to_string(),
        );
        client.process_next_state_link_request(LinkPoll::Opened).unwrap();
        Bridge {
            service: BeelayService::new(api, frontend, "127.0.0.1", &9999),
            core: build_core(&switches, "/run/beelay"),
            client,
            files: HashMap::new(),
            published: Vec::new(),
        }
    }

    fn request(&mut self, method: &str, path: &str, query: Option<&str>) -> String {
        match self.service.process_req(method, path, query) {
            ServiceStep::Done { resp } => resp.body,
            ServiceStep::Api { step } => self.perform(step).body,
        }
    }

    fn perform(&mut self, step: ApiStep) -> Response {
        match step {
            ApiStep::Done { resp } => resp,
            ApiStep::ListSwitches | ApiStep::ListSwitchesOrFail => {
                let switches = self.switches();
                self.service.get_api().finish_list(Ok(switches))
            }
            ApiStep::CheckSwitch { switch_name } => {
                let switches = self.switches();
                self.service.get_api().finish_check(&switch_name, Ok(switches))
            }
            ApiStep::GetState { path_name, switch_name } => {
                let command = BeelayCoreCtrl::get_switch_state_command(&switch_name);
                let resp = match self.core.run_command(&command).unwrap() {
                    CoreAction::ReadCache { switch_name, cache_file } => {
                        answer_get(&switch_name, Ok(self.files.get(&cache_file).cloned()))
                    }
                    CoreAction::Reply { resp } => resp,
                    _ => panic!("unexpected action"),
                };
                let found = BeelayCoreCtrl::get_switch_state(&switch_name, Some(resp));
                self.service.get_api().finish_get(&path_name, found)
            }
            ApiStep::SetState { path_name, switch_name, state, delay } => {
                let command = BeelayCoreCtrl::set_switch_state_command(&switch_name, state, delay);
                let resp = match self.core.run_command(&command) {
                    Ok(CoreAction::ScheduleSet { switch_name, state, cache_file, resp, .. }) => {
                        let set = MqttClientCtrl::set_command(&switch_name, state);
                        match self.client.run_command(&set) {
                            MqttAction::Publish { topic, payload, .. } => {
                                self.published.push((topic, payload));
                            }
                            _ => panic!("unexpected action"),
                        }
                        self.files.insert(cache_file, record_set(state, true).unwrap());
                        Some(resp)
                    }
                    _ => None,
                };
                let done = BeelayCoreCtrl::set_switch_state(resp);
                self.service.get_api().finish_set(&path_name, done)
            }
        }
    }

    fn switches(&mut self) -> Vec<String> {
        match self.core.run_command(&BeelayCoreCtrl::get_switches_command()).unwrap() {
            CoreAction::Reply { resp } => BeelayCoreCtrl::get_switches(Some(resp)).unwrap(),
            _ => panic!("unexpected action"),
        }
    }

    fn report(&mut self, topic: &str, payload: &str) {
        let event =
            MqttEvent::Publish { topic: topic.to_string(), payload: payload.as_bytes().to_vec() };
        match self.client.process_next_event(EventPoll::Received { event }) {
            Ok(EventStep::Forward { switch_name, state }) => {
                if let Some((file, contents)) = self.core.record_report(&switch_name, state) {
                    self.files.insert(file, contents);
                }
            }
            _ => panic!("not forwarded"),
        }
    }
}

#[test]
fn switch_is_set_reported_and_read() {
    let mut bridge = Bridge::new();
    let path = "/api/switch/Living%20Room%20Lights";
    assert_eq!(
        bridge.request("GET", path, None),
        "{\"status\":\"success\",\"state\":\"unknown\"}"
    );
    for (state, reported) in [("on", "ON"), ("off", "OFF")] {
        assert_eq!(
            bridge.request(
                "POST",
                "/api/switch/Living%20Room%20Lights/",
                Some(&format!("state={}", state))
            ),
            "{\"status\":\"success\"}"
        );
        assert_eq!(
            bridge.published.last().unwrap(),
            &("zigbee2mqtt/Living Room Lights/set".to_string(), state.to_string())
        );
        assert_eq!(
            bridge.request("GET", path, None),
            format!("{{\"status\":\"success\",\"state\":\"{}\",\"transitioning\":\"true\"}}", state)
        );
        bridge.report(
            "zigbee2mqtt/Living Room Lights",
            &format!("{{\"linkquality\":120,\"state\":\"{}\"}}", reported),
        );
        assert_eq!(
            bridge.request("GET", path, None),
            format!("{{\"status\":\"success\",\"state\":\"{}\"}}", state)
        );
    }
}

#[test]
fn switches_keep_their_own_states() {
    let mut bridge = Bridge::new();
    bridge.report("zigbee2mqtt/tv", "{\"state\":\"on\"}");
    bridge.report("zigbee2mqtt/Living Room Lights", "{\"state\":\"off\"}");
    assert_eq!(
        bridge.request("GET", "/api/switch/tv", None),
        "{\"status\":\"success\",\"state\":\"on\"}"
    );
    assert_eq!(bridge.files.len(), 2);
    assert!(bridge.core.record_report("radio", SwitchState::On).is_none());
}

#[test]
fn unknown_switches_are_refused() {
    let mut bridge = Bridge::new();
    assert_eq!(
        bridge.request("GET", "/api/", Some("switch=Not%20a%20real%20device")),
        "{\"error_msg\":\"Unknown switch name.\",\"status\":\"error\"}"
    );
    assert_eq!(
        bridge.request("GET", "/api/switch/radio", None),
        "{\"status\":\"error\",\"error_message\":\"Unknown switch name: radio\"}"
    );
    assert_eq!(
        bridge.request("GET", "/api/switch/Kitchen%20Radio", None),
        "{\"status\":\"error\",\"error_message\":\"Unknown switch name: Kitchen%20Radio\"}"
    );
    assert_eq!(
        bridge.request("POST", "/api/switch/radio", Some("state=on")),
        "{\"status\":\"error\",\"error_message\":\"Internal error: BeelayCoreError: None response \
         from BeelayCoreCtrl channel\"}"
    );
    assert!(bridge.published.is_empty());
}

#[test]
fn buttons_lead_to_their_switch() {
    let mut bridge = Bridge::new();
    let page = bridge.request("GET", "/client", None);
    assert!(page.contains("'/api/switch/tv/?state=on'"));
    bridge.request("POST", "/api/switch/tv/", Some("state=on"));
    assert_eq!(
        bridge.published,
        vec![("zigbee2mqtt/tv/set".to_string(), "on".to_string())]
    );
    assert_eq!(
        bridge.request("GET", "/api/switches", None),
        "{\"switches\":[\"Living Room Lights\",\"tv\"],\"pretty_names\":{}}"
    );
}
