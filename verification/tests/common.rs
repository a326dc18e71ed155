use beelay::common::{
    build_message_link, build_message_link_transactor, link_message, str_to_switch_state,
    str_to_switch_status, switch_state_to_str, switch_status_to_str, transactor_over, MessageLink,
    SwitchState, SwitchStatus, API_ELEM, CLIENT_ELEM, GENERIC_404_PAGE, PATH_CSS_DIR,
    PATH_CSS_MAIN_FILE, PATH_CSS_MAIN_PATH,
};

#[test]
fn states_are_read_back_from_their_names() {
    for state in [SwitchState::On, SwitchState::Off] {
        let name = switch_state_to_str(state).unwrap();
        assert_eq!(str_to_switch_state(&name).unwrap(), state);
    }
    assert_eq!(switch_state_to_str(SwitchState::On).unwrap(), "on");
    assert_eq!(switch_state_to_str(SwitchState::Off).unwrap(), "off");
}

#[test]
fn statuses_are_read_back_from_their_names() {
    for status in [SwitchStatus::Confirmed, SwitchStatus::Transitioning] {
        let name = switch_status_to_str(status).unwrap();
        assert_eq!(str_to_switch_status(&name).unwrap(), status);
    }
    assert_eq!(switch_status_to_str(SwitchStatus::Confirmed).unwrap(), "confirmed");
    assert_eq!(switch_status_to_str(SwitchStatus::Transitioning).unwrap(), "transitioning");
}

#[test]
fn other_texts_name_neither_state_nor_status() {
    assert_eq!(
        str_to_switch_state("ON").unwrap_err().to_string(),
        "BeelayCommonError: Can't resolve status string: ON"
    );
    assert_eq!(
        str_to_switch_status("").unwrap_err().to_string(),
        "BeelayCommonError: Can't resolve status string: "
    );
}

#[test]
fn labels_are_capitalised() {
    assert_eq!(SwitchState::On.to_string(), "On");
    assert_eq!(SwitchState::Off.to_string(), "Off");
    assert_eq!(SwitchStatus::Confirmed.to_string(), "Confirmed");
    assert_eq!(SwitchStatus::Transitioning.to_string(), "Transitioning");
}

#[test]
fn style_sheet_path_is_put_together_from_its_parts() {
    assert_eq!(
        PATH_CSS_MAIN_PATH,
        format!("{}/{}/{}", CLIENT_ELEM, PATH_CSS_DIR, PATH_CSS_MAIN_FILE)
    );
    assert_eq!(API_ELEM, "api");
    assert!(GENERIC_404_PAGE.starts_with("\n<!DOCTYPE html>\n<html>\n    <head>"));
    assert!(GENERIC_404_PAGE.ends_with("</html>\n"));
}

#[test]
fn message_link_carries_a_message_and_its_response() {
    let (link, mut rx) = build_message_link::<u32, String>(7, 1);
    assert_eq!(*link.get_message(), 7);
    assert_eq!(link.get_response_channel().max_capacity(), 1);
    assert!(rx.try_recv().is_err());
    link.get_response_channel().try_send("pong".to_string()).unwrap();
    assert!(link.get_response_channel().try_send("again".to_string()).is_err());
    assert_eq!(rx.try_recv().unwrap(), "pong");
    drop(link);
    assert!(matches!(rx.try_recv(), Err(tokio::sync::mpsc::error::TryRecvError::Disconnected)));
}

#[test]
fn transactor_sends_to_the_other_side() {
    let (transactor, mut rx) = build_message_link_transactor::<u32, String>(3);
    assert_eq!(transactor.get_command_channel().max_capacity(), 3);
    let (link, _resp_rx) = build_message_link::<u32, String>(9, 1);
    assert!(transactor.get_command_channel().try_send(link).is_ok());
    assert_eq!(*rx.try_recv().unwrap().get_message(), 9);
}

#[test]
fn given_channels_are_used() {
    let (tx, rx) = tokio::sync::mpsc::channel::<u8>(5);
    let (link, mut rx) = link_message("ask", (tx, rx));
    link.get_response_channel().try_send(1).unwrap();
    assert_eq!(rx.try_recv().unwrap(), 1);

    let channel = tokio::sync::mpsc::channel::<MessageLink<&str, u8>>(2);
    let (transactor, mut rx) = transactor_over(channel);
    assert!(transactor.get_command_channel().try_send(link).is_ok());
    assert_eq!(*rx.try_recv().unwrap().get_message(), "ask");
}
