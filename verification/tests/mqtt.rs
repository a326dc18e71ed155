use beelay::common::SwitchState;
use beelay::mqtt_client::{
    build_mqtt_client, build_mqtt_simulation_client, decide_report, process_event,
    process_notification, read_payload, read_reported_state, topic_switch, BeelayMqttClientError,
    Command, CommandPoll, CommandResponse, EventPoll, EventStep, Link, LinkPoll, MqttAction,
    MqttClient, MqttClientCtrl, MqttEvent, Payload, SimulatorStep,
};

fn client() -> MqttClient {
    build_mqtt_client(
        vec!["tv".to_string(), "Office Lights".to_string()],
        "broker".to_string(),
        1883,
        "zigbee2mqtt".to_string(),
    )
}

fn publish(topic: &str, payload: &str) -> MqttEvent {
    MqttEvent::Publish { topic: topic.to_string(), payload: payload.as_bytes().to_vec() }
}

fn set(name: &str, state: SwitchState) -> CommandPoll {
    CommandPoll::Received { command: MqttClientCtrl::set_command(name, state) }
}

#[test]
fn client_knows_where_to_connect() {
    let client = client();
    assert_eq!(client.get_host(), "broker");
    assert_eq!(client.get_port(), 1883);
    assert_eq!(client.get_base_topic(), "zigbee2mqtt");
    assert!(client.is_running());
    assert!(!client.is_connected());
    assert_eq!(client.subscriptions(), vec!["zigbee2mqtt/tv", "zigbee2mqtt/Office Lights"]);
}

#[test]
fn set_is_published() {
    let mut client = client();
    client.connect();
    match client.process_next_command(set("tv", SwitchState::On)) {
        Ok(Some(MqttAction::Publish { topic, payload, resp })) => {
            assert_eq!(topic, "zigbee2mqtt/tv/set");
            assert_eq!(payload, "on");
            assert_eq!(resp, CommandResponse::Ack);
        }
        _ => panic!("not published"),
    }
    assert!(client.is_running() && client.is_connected());
}

#[test]
fn stop_ends_the_client_and_reset_the_connection() {
    let mut client = client();
    client.connect();
    let ping = client.run_command(&MqttClientCtrl::ping_command());
    assert!(matches!(ping, MqttAction::Reply { resp: CommandResponse::Ack }));
    assert!(client.is_running() && client.is_connected());
    client.run_command(&MqttClientCtrl::reset_command());
    assert!(client.is_running() && !client.is_connected());
    client.connect();
    client.run_command(&MqttClientCtrl::stop_command());
    assert!(!client.is_running() && !client.is_connected());
}

#[test]
fn client_connects_again_until_stopped() {
    let mut client = client();
    client.process_next_state_link_request(LinkPoll::Opened).unwrap();
    let mut connections = 0;
    while client.is_running() {
        assert_eq!(client.subscriptions(), vec!["zigbee2mqtt/tv", "zigbee2mqtt/Office Lights"]);
        client.connect();
        connections += 1;
        let event = publish("zigbee2mqtt/tv", "{\"state\":\"on\"}");
        assert!(matches!(
            client.process_next_event(EventPoll::Received { event }),
            Ok(EventStep::Forward { .. })
        ));
        match connections {
            1 => assert!(client.process_next_event(EventPoll::Disconnected).is_err()),
            2 => {
                client.run_command(&MqttClientCtrl::reset_command());
                assert!(!client.is_connected());
            }
            _ => {
                client.run_command(&MqttClientCtrl::stop_command());
            }
        }
    }
    assert_eq!(connections, 3);
}

#[test]
fn lost_channels_of_the_client_are_errors() {
    let mut client = client();
    assert_eq!(
        client.process_next_command(CommandPoll::Disconnected).err().unwrap().to_string(),
        "BeelayMqttClientError: Command channel disconnected"
    );
    assert_eq!(
        client.process_next_state_link_request(LinkPoll::Disconnected).unwrap_err().to_string(),
        "BeelayMqttClientError: State link channel disconnected"
    );
    assert_eq!(
        client.process_next_event(EventPoll::Disconnected).err().unwrap().to_string(),
        "BeelayMqttClientError: Event channel disconnected"
    );
    assert_eq!(
        Link::SimulatedCommands.disconnected().to_string(),
        "BeelayMqttClientError: Channel disconnected"
    );
    assert!(matches!(client.process_next_command(CommandPoll::Empty), Ok(None)));
    assert!(matches!(client.process_next_event(EventPoll::Empty), Ok(EventStep::Nothing)));
}

#[test]
fn reports_are_forwarded_to_listeners() {
    let mut client = client();
    let event = publish("zigbee2mqtt/Office Lights", "{\"state\":\"ON\",\"linkquality\":90}");
    assert!(matches!(
        client.process_next_event(EventPoll::Received { event }),
        Ok(EventStep::NoListeners)
    ));
    client.process_next_state_link_request(LinkPoll::Empty).unwrap();
    client.process_next_state_link_request(LinkPoll::Opened).unwrap();
    let event = publish("zigbee2mqtt/Office Lights", "{\"state\":\"ON\",\"linkquality\":90}");
    match client.process_next_event(EventPoll::Received { event }) {
        Ok(EventStep::Forward { switch_name, state }) => {
            assert_eq!(switch_name, "Office Lights");
            assert_eq!(state, SwitchState::On);
        }
        _ => panic!("not forwarded"),
    }
}

#[test]
fn nonsense_is_tolerated() {
    let client = client();
    let event = publish("zigbee2mqtt/tv", "on");
    match client.process_next_event(EventPoll::Received { event }) {
        Ok(EventStep::Tolerate { message }) => assert_eq!(message, "expected value at line 1 column 1"),
        _ => panic!("not tolerated"),
    }
    let event = publish("zigbee2mqtt/tv", "{\"state\":\"Dim\"}");
    match client.process_next_event(EventPoll::Received { event }) {
        Ok(EventStep::Tolerate { message }) => assert_eq!(
            message,
            "BeelayCommonError: Can't resolve status string: dim"
        ),
        _ => panic!("not tolerated"),
    }
}

#[test]
fn events_without_a_state_report_nothing() {
    assert!(matches!(process_event(&MqttEvent::Other, "zigbee2mqtt"), Some(Ok(None))));
    let event = publish("zigbee2mqtt/tv", "{\"linkquality\":90}");
    assert!(matches!(process_event(&event, "zigbee2mqtt"), Some(Ok(None))));
    assert!(matches!(decide_report(Some(Ok(None)), 3), EventStep::Nothing));
}

#[test]
fn messages_that_are_no_reports_are_unreadable() {
    for event in [
        publish("zigbee", "{\"state\":\"on\"}"),
        publish("zigbee2mqtt/tv", "[1]"),
        publish("zigbee2mqtt/tv", "{\"state\":1}"),
        MqttEvent::Publish { topic: "zigbee2mqtt/tv".to_string(), payload: vec![0xff] },
    ] {
        assert!(process_event(&event, "zigbee2mqtt").is_none());
    }
    assert!(matches!(decide_report(None, 1), EventStep::Unreadable));
}

#[test]
fn topics_name_their_switch() {
    assert_eq!(topic_switch("zigbee2mqtt/tv", "zigbee2mqtt").unwrap(), "tv");
    assert_eq!(topic_switch("zigbee2mqtt/", "zigbee2mqtt").unwrap(), "");
    assert_eq!(topic_switch("häuser/küche", "häuser").unwrap(), "küche");
    assert!(topic_switch("zigbee2mqtt", "zigbee2mqtt").is_none());
    assert!(topic_switch("aé", "a").is_none());
}

#[test]
fn payloads_are_read() {
    match read_payload(&b"{".to_vec()) {
        Some(Payload::NotJson { message }) => {
            assert_eq!(message, "EOF while parsing an object at line 1 column 1");
        }
        _ => panic!("taken for JSON"),
    }
    assert!(matches!(read_payload(&b"3".to_vec()), Some(Payload::NotObject)));
    assert!(matches!(read_payload(&b"{}".to_vec()), Some(Payload::Object { state: None })));
    assert!(matches!(
        read_payload(&b"{\"state\":null}".to_vec()),
        Some(Payload::Object { state: Some(None) })
    ));
    match read_payload(&b"{\"state\":\"OFF\"}".to_vec()) {
        Some(Payload::Object { state: Some(Some(text)) }) => assert_eq!(text, "OFF"),
        _ => panic!("no state"),
    }
    assert!(read_payload(&vec![0xc3]).is_none());
}

#[test]
fn notifications_are_read_in_any_letter_case() {
    let payload = Payload::Object { state: Some(Some("oFf".to_string())) };
    let report = process_notification("base/lamp", &payload, "base").unwrap().unwrap();
    assert_eq!(report, ("lamp".to_string(), SwitchState::Off));
    assert_eq!(read_reported_state("ON").unwrap(), SwitchState::On);
    assert!(read_reported_state("0N").is_err());
    let junk = Payload::NotJson { message: "no JSON".to_string() };
    let err = process_notification("base/lamp", &junk, "base").unwrap_err();
    assert_eq!(err.to_string(), "no JSON");
    let silent = Payload::Object { state: None };
    assert!(process_notification("base/lamp", &silent, "base").unwrap().is_none());
}

#[test]
fn simulation_rests_while_nobody_listens() {
    let mut sim = build_mqtt_simulation_client(1000);
    assert!(sim.is_running());
    assert!(!sim.breaks_off(5000));
    assert!(matches!(sim.process_next_command(CommandPoll::Empty, 5000), Ok(SimulatorStep::Rest)));
    sim.process_next_state_link_request(LinkPoll::Opened).unwrap();
    assert!(matches!(sim.process_next_command(CommandPoll::Empty, 1000), Ok(SimulatorStep::Poll)));
    assert!(matches!(sim.process_next_command(CommandPoll::Empty, 1001), Ok(SimulatorStep::Rearm)));
}

#[test]
fn simulation_reports_the_last_commanded_states() {
    let mut sim = build_mqtt_simulation_client(1000);
    sim.process_next_state_link_request(LinkPoll::Opened).unwrap();
    for (name, state) in
        [("tv", SwitchState::On), ("lamp", SwitchState::On), ("tv", SwitchState::Off)]
    {
        let step = sim.process_next_command(set(name, state), 0);
        assert!(matches!(step, Ok(SimulatorStep::Respond { resp: CommandResponse::Ack })));
    }
    sim.run_command(&set_to("fan"));
    assert!(!sim.breaks_off(1001));
    match sim.process_next_command(CommandPoll::Empty, 1001) {
        Ok(SimulatorStep::Report { states, pause }) => {
            assert_eq!(pause, 333);
            assert_eq!(states.len(), 3);
            assert!(states.contains(&("tv".to_string(), SwitchState::Off)));
            assert!(states.contains(&("lamp".to_string(), SwitchState::On)));
            assert!(states.contains(&("fan".to_string(), SwitchState::On)));
        }
        _ => panic!("no report"),
    }
}

fn set_to(name: &str) -> Command {
    MqttClientCtrl::set_command(name, SwitchState::On)
}

#[test]
fn simulation_stops_when_told() {
    let mut sim = build_mqtt_simulation_client(1000);
    sim.run_command(&MqttClientCtrl::ping_command());
    sim.run_command(&MqttClientCtrl::reset_command());
    assert!(sim.is_running());
    sim.run_command(&MqttClientCtrl::stop_command());
    assert!(!sim.is_running());
    assert_eq!(
        sim.process_next_command(CommandPoll::Disconnected, 0).err().unwrap().to_string(),
        "BeelayMqttClientError: Channel disconnected"
    );
    assert_eq!(
        sim.process_next_state_link_request(LinkPoll::Disconnected).unwrap_err().to_string(),
        "BeelayMqttClientError: State link channel disconnected"
    );
}

#[test]
fn acknowledgements_are_expected() {
    let ack = Some(CommandResponse::Ack);
    assert!(MqttClientCtrl::ping(ack).is_ok());
    assert!(MqttClientCtrl::set(ack).is_ok());
    assert!(MqttClientCtrl::reset(ack).is_ok());
    assert!(MqttClientCtrl::stop(ack).is_ok());
    for outcome in [
        MqttClientCtrl::ping(None),
        MqttClientCtrl::set(None),
        MqttClientCtrl::reset(None),
        MqttClientCtrl::stop(None),
    ] {
        assert_eq!(
            outcome.unwrap_err().to_string(),
            "BeelayMqttClientError: None response from MqttClientCtrl channel"
        );
    }
    assert!(CommandResponse::Ack.is_ack());
    assert_eq!(CommandResponse::Ack.to_string(), "CommandResponse::Ack");
    assert_eq!(
        BeelayMqttClientError::new("lost").to_string(),
        "BeelayMqttClientError: lost"
    );
}
