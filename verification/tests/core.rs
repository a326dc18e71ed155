use beelay::beelay_core::{
    answer_get, build_core, cache_file_breaks_off, cache_file_contents, cache_file_path,
    read_cache_file, record_set, BeelayCoreCtrl, BeelayCoreError, BeelayCoreErrorType, Command,
    CommandResponse, CoreAction,
};
use beelay::common::{SwitchState, SwitchStatus};

fn names(list: &[&str]) -> Vec<String> {
    list.iter().map(|name| name.to_string()).collect()
}

#[test]
fn cache_is_read_back_as_written() {
    for state in [SwitchState::On, SwitchState::Off] {
        for status in [SwitchStatus::Confirmed, SwitchStatus::Transitioning] {
            let contents = cache_file_contents(state, status).unwrap();
            assert_eq!(read_cache_file(Some(&contents)).unwrap(), (Some(state), status));
            let shouted = contents.to_uppercase();
            assert_eq!(read_cache_file(Some(&shouted)).unwrap(), (Some(state), status));
        }
    }
    assert_eq!(
        cache_file_contents(SwitchState::On, SwitchStatus::Transitioning).unwrap(),
        "on,transitioning"
    );
}

#[test]
fn missing_cache_leaves_the_state_unknown() {
    assert_eq!(read_cache_file(None).unwrap(), (None, SwitchStatus::Confirmed));
}

#[test]
fn spoilt_caches_are_errors() {
    assert_eq!(
        read_cache_file(Some("")).unwrap_err().to_string(),
        "BeelayCommonError: Can't resolve status string: "
    );
    assert_eq!(
        read_cache_file(Some("Dim,confirmed")).unwrap_err().to_string(),
        "BeelayCommonError: Can't resolve status string: dim"
    );
    assert_eq!(
        read_cache_file(Some("on,Maybe")).unwrap_err().to_string(),
        "BeelayCommonError: Can't resolve status string: maybe"
    );
    assert_eq!(
        read_cache_file(Some("off,confirmed,more")).unwrap(),
        (Some(SwitchState::Off), SwitchStatus::Confirmed)
    );
}

#[test]
fn caches_that_break_off_are_told_apart() {
    assert!(cache_file_breaks_off("on"));
    assert!(cache_file_breaks_off("OFF"));
    assert!(!cache_file_breaks_off("dim"));
    assert!(!cache_file_breaks_off("on,"));
    assert!(!cache_file_breaks_off(""));
}

#[test]
fn cache_files_stand_in_the_directory() {
    assert_eq!(cache_file_path("/run/beelay", "Office Lights"), "/run/beelay/Office Lights");
    assert_eq!(cache_file_path("/run/beelay/", "tv"), "/run/beelay/tv");
    assert_eq!(cache_file_path("", "tv"), "tv");
    assert_eq!(cache_file_path("/run/beelay", "/tmp/tv"), "/tmp/tv");
    for (dir, name) in [("/run/beelay", "a b"), ("/x/", "y"), ("", "z"), ("/run", "/abs"), ("r", "")] {
        let joined = std::path::Path::new(dir).join(name);
        assert_eq!(cache_file_path(dir, name), joined.to_str().unwrap());
    }
    assert_ne!(cache_file_path("/run", "a"), cache_file_path("/run", "b"));
}

#[test]
fn core_answers_a_ping_and_goes_on() {
    let mut core = build_core(&names(&["tv"]), "/run");
    let action = core.run_command(&BeelayCoreCtrl::ping_command()).unwrap();
    assert!(matches!(action, CoreAction::Reply { resp: CommandResponse::Ack }));
    assert!(core.is_running());
}

#[test]
fn core_stops_when_told() {
    let mut core = build_core(&names(&["tv"]), "/run");
    let action = core.run_command(&BeelayCoreCtrl::stop_command()).unwrap();
    assert!(matches!(action, CoreAction::Reply { resp: CommandResponse::Ack }));
    assert!(!core.is_running());
}

#[test]
fn core_enumerates_its_switches_in_order() {
    let mut core = build_core(&names(&["tv", "lamp", "tv"]), "/run");
    match core.run_command(&BeelayCoreCtrl::get_switches_command()).unwrap() {
        CoreAction::Reply { resp } => {
            assert_eq!(BeelayCoreCtrl::get_switches(Some(resp)).unwrap(), names(&["tv", "lamp", "tv"]));
        }
        _ => panic!("not a reply"),
    }
}

#[test]
fn core_reads_the_cache_of_a_known_switch() {
    let mut core = build_core(&names(&["tv"]), "/run");
    match core.run_command(&BeelayCoreCtrl::get_switch_state_command("tv")).unwrap() {
        CoreAction::ReadCache { switch_name, cache_file } => {
            assert_eq!(switch_name, "tv");
            assert_eq!(cache_file, "/run/tv");
        }
        _ => panic!("does not read the cache"),
    }
}

#[test]
fn core_answers_an_error_for_an_unknown_switch() {
    let mut core = build_core(&names(&["tv"]), "/run");
    match core.run_command(&BeelayCoreCtrl::get_switch_state_command("radio")).unwrap() {
        CoreAction::Reply { resp: CommandResponse::Error { error } } => assert_eq!(
            error,
            "BeelayCoreError: Could not resolve cache file for switch name, radio"
        ),
        _ => panic!("not an error"),
    }
}

#[test]
fn core_schedules_a_set() {
    let mut core = build_core(&names(&["tv"]), "/run");
    let command = BeelayCoreCtrl::set_switch_state_command("tv", SwitchState::On, 30);
    assert_eq!(command.to_string(), "Command::Set{ switch_name: tv, state: On, delay: 30 }");
    match core.run_command(&command).unwrap() {
        CoreAction::ScheduleSet { switch_name, state, delay, cache_file, resp } => {
            assert_eq!(switch_name, "tv");
            assert_eq!(state, SwitchState::On);
            assert_eq!(delay, 30);
            assert_eq!(cache_file, "/run/tv");
            assert_eq!(
                resp.to_string(),
                "CommandResponse::SwitchState{ switch_name: tv, state: On, status: Transitioning }"
            );
            assert!(BeelayCoreCtrl::set_switch_state(Some(resp)).is_ok());
        }
        _ => panic!("does not schedule"),
    }
}

#[test]
fn setting_an_unknown_switch_is_an_error() {
    let mut core = build_core(&names(&["tv"]), "/run");
    let command = BeelayCoreCtrl::set_switch_state_command("radio", SwitchState::Off, 0);
    let err = match core.run_command(&command) {
        Err(err) => err,
        Ok(_) => panic!("not an error"),
    };
    assert_eq!(err.get_type(), BeelayCoreErrorType::InternalError);
    assert_eq!(
        err.to_string(),
        "BeelayCoreError: Could not resolve cache file for switch name, radio"
    );
}

#[test]
fn reports_are_recorded_for_known_switches() {
    let core = build_core(&names(&["tv"]), "/run");
    let (file, contents) = core.record_report("tv", SwitchState::Off).unwrap();
    assert_eq!(file, "/run/tv");
    assert_eq!(contents, "off,confirmed");
    assert!(core.record_report("radio", SwitchState::Off).is_none());
    assert_eq!(core.get_cache_file("tv").unwrap(), "/run/tv");
    assert!(core.get_cache_file("radio").is_err());
}

#[test]
fn sets_are_recorded_once_commanded() {
    assert_eq!(record_set(SwitchState::On, true).unwrap(), "on,transitioning");
    assert!(record_set(SwitchState::On, false).is_none());
}

#[test]
fn recorded_states_are_answered() {
    let core = build_core(&names(&["tv"]), "/run");
    let (_, contents) = core.record_report("tv", SwitchState::On).unwrap();
    let resp = answer_get("tv", Ok(Some(contents)));
    assert_eq!(
        BeelayCoreCtrl::get_switch_state("tv", Some(resp)).unwrap(),
        (Some(SwitchState::On), SwitchStatus::Confirmed)
    );
    let contents = record_set(SwitchState::Off, true).unwrap();
    let resp = answer_get("tv", Ok(Some(contents)));
    assert_eq!(
        BeelayCoreCtrl::get_switch_state("tv", Some(resp)).unwrap(),
        (Some(SwitchState::Off), SwitchStatus::Transitioning)
    );
    let resp = answer_get("tv", Ok(None));
    assert_eq!(
        resp.to_string(),
        "CommandResponse::SwitchState{ switch_name: tv, state: None, status: Confirmed }"
    );
}

#[test]
fn faults_of_the_cache_are_answered() {
    let resp = answer_get("tv", Err("disk on fire".to_string()));
    assert_eq!(resp.to_string(), "CommandResponse::Error{ error: disk on fire }");
    let resp = answer_get("tv", Ok(Some("dim,confirmed".to_string())));
    assert_eq!(
        resp.to_string(),
        "CommandResponse::Error{ error: BeelayCommonError: Can't resolve status string: dim }"
    );
}

#[test]
fn commands_are_shown() {
    assert_eq!(Command::Ping.to_string(), "Command::Ping");
    assert_eq!(
        Command::Get { switch_name: "tv".to_string() }.to_string(),
        "Command::Get{ switch_name: tv }"
    );
    assert_eq!(Command::EnumerateSwitches.to_string(), "Command::EnumerateSwitches");
    assert_eq!(Command::Stop.to_string(), "Command::Stop");
    assert_eq!(BeelayCoreCtrl::reset_command().to_string(), "Command::Reset");
}

#[test]
fn responses_that_do_not_fit_are_errors() {
    assert!(BeelayCoreCtrl::ping(Some(CommandResponse::Ack)).is_ok());
    assert!(BeelayCoreCtrl::stop(Some(CommandResponse::Ack)).is_ok());
    assert!(BeelayCoreCtrl::reset(Some(CommandResponse::Ack)).is_ok());
    assert_eq!(
        BeelayCoreCtrl::ping(None).unwrap_err().to_string(),
        "BeelayCoreError: None response from BeelayCoreCtrl channel"
    );
    let switches = CommandResponse::SwitchEnumeration { switches: names(&["a", "b"]) };
    assert!(!switches.is_ack());
    assert_eq!(
        BeelayCoreCtrl::stop(Some(switches)).unwrap_err().to_string(),
        "BeelayCoreError: Unexpected response from BeelayCoreCtrl channel: \
         CommandResponse::SwitchEnumeration{ switches: [a, b] }"
    );
    assert_eq!(
        BeelayCoreCtrl::get_switches(Some(CommandResponse::Ack)).unwrap_err().to_string(),
        "BeelayCoreError: Unexpected response from BeelayCoreCtrl channel: CommandResponse::Ack"
    );
    assert!(BeelayCoreCtrl::set_switch_state(Some(CommandResponse::Ack)).is_err());
    assert!(BeelayCoreCtrl::set_switch_state(None).is_err());
    assert!(BeelayCoreCtrl::get_switch_state("tv", None).is_err());
}

#[test]
fn unknown_switch_is_invalid_to_its_asker() {
    let mut core = build_core(&names(&["tv"]), "/run");
    let resp = match core.run_command(&BeelayCoreCtrl::get_switch_state_command("radio")).unwrap() {
        CoreAction::Reply { resp } => resp,
        _ => panic!("not a reply"),
    };
    let err = BeelayCoreCtrl::get_switch_state("radio", Some(resp.clone())).unwrap_err();
    assert_eq!(err.get_type(), BeelayCoreErrorType::InvalidSwitch);
    assert_eq!(
        err.to_string(),
        "BeelayCoreError: Unexpected response from BeelayCoreCtrl channel: \
         CommandResponse::Error{ error: BeelayCoreError: Could not resolve cache file for switch \
         name, radio }"
    );
    let err = BeelayCoreCtrl::get_switch_state("tv", Some(resp)).unwrap_err();
    assert_eq!(err.get_type(), BeelayCoreErrorType::InternalError);
    let broken = CommandResponse::Error { error: "disk on fire".to_string() };
    let err = BeelayCoreCtrl::get_switch_state("tv", Some(broken)).unwrap_err();
    assert_eq!(err.get_type(), BeelayCoreErrorType::InternalError);
}

#[test]
fn commands_are_answered_until_stopped() {
    let mut core = build_core(&names(&["tv"]), "/run");
    let commands = [
        BeelayCoreCtrl::ping_command(),
        BeelayCoreCtrl::get_switches_command(),
        BeelayCoreCtrl::get_switch_state_command("tv"),
        BeelayCoreCtrl::stop_command(),
        BeelayCoreCtrl::ping_command(),
    ];
    let mut responses = Vec::new();
    for command in &commands {
        if !core.is_running() {
            break;
        }
        responses.push(match core.run_command(command).unwrap() {
            CoreAction::Reply { resp } => resp.to_string(),
            CoreAction::ReadCache { switch_name, .. } => {
                answer_get(&switch_name, Ok(Some("on,confirmed".to_string()))).to_string()
            }
            _ => panic!("unexpected action"),
        });
    }
    assert_eq!(
        responses,
        vec![
            "CommandResponse::Ack",
            "CommandResponse::SwitchEnumeration{ switches: [tv] }",
            "CommandResponse::SwitchState{ switch_name: tv, state: On, status: Confirmed }",
            "CommandResponse::Ack",
        ]
    );
}

#[test]
fn core_errors_have_a_kind() {
    let err = BeelayCoreError::new("gone", BeelayCoreErrorType::InvalidSwitch);
    assert_eq!(err.get_type(), BeelayCoreErrorType::InvalidSwitch);
    assert_eq!(err.to_string(), "BeelayCoreError: gone");
}
