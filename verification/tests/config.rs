use beelay::assets::DEFAULT_CONFIG;
use beelay::config::{
    apply_external_config, config_is_complete, parse_filters, parse_switches, run_settings, Config,
    MqttBroker, Service,
};
use indexmap::IndexMap;

fn text_of(table: &toml::Table, key: &str) -> Option<String> {
    table.get(key).map(|value| value.as_str().unwrap().to_string())
}

fn port_of(table: &toml::Table, key: &str) -> Option<u16> {
    table.get(key).map(|value| value.as_integer().unwrap() as u16)
}

fn read_config(text: &str) -> Config {
    let table: toml::Table = toml::from_str(text).expect("Failed to parse config");
    let service = table.get("service").map(|value| {
        let service = value.as_table().unwrap();
        Service {
            bind_address: text_of(service, "bind_address"),
            port: port_of(service, "port"),
            switches: text_of(service, "switches"),
            cache_dir: text_of(service, "cache_dir"),
        }
    });
    let mqttbroker = table.get("mqttbroker").map(|value| {
        let broker = value.as_table().unwrap();
        MqttBroker {
            host: text_of(broker, "host"),
            port: port_of(broker, "port"),
            topic: text_of(broker, "topic"),
        }
    });
    Config { mqttbroker, service, filters: None, pretty_names: None }
}

fn empty_config() -> Config {
    Config { mqttbroker: None, service: None, filters: None, pretty_names: None }
}

const EXAMPLE_CONFIG: &str = r#"
[service]
bind_address = "0.0.0.0"
port = 9999
switches="Bedroom TV,Living Room Lights,Bedroom Lights,Office Lights,XMass Tree"
cache_dir = "/run/beelay"

[mqttbroker]
host = "192.168.1.2"
port = 1883
topic = "zigbee2mqtt"
"#;

#[test]
fn test_default_config_parse() {
    let config: Config = read_config(DEFAULT_CONFIG);

    let service_config = config.service.unwrap();
    assert!(service_config.bind_address.unwrap() == "127.0.0.1");
    assert!(service_config.port.unwrap() == 9999);
    assert!(service_config.switches.is_none());
    assert!(service_config.cache_dir.unwrap() == "/run/beelay");

    let broker_config = config.mqttbroker.unwrap();
    assert!(broker_config.host.unwrap() == "localhost");
    assert!(broker_config.port.unwrap() == 1883);
    assert!(broker_config.topic.unwrap() == "zigbee2mqtt")
}

#[test]
fn default_config_is_complete_and_names_no_switch() {
    let config = read_config(DEFAULT_CONFIG);
    assert!(config_is_complete(&config));
    let settings = run_settings(config);
    assert_eq!(settings.bind_address, "127.0.0.1");
    assert_eq!(settings.bind_port, 9999);
    assert_eq!(settings.cache_dir, "/run/beelay");
    assert_eq!(settings.broker_host, "localhost");
    assert_eq!(settings.broker_port, 1883);
    assert_eq!(settings.base_topic, "zigbee2mqtt");
    assert!(settings.switches.is_empty());
    assert!(settings.filters.is_empty());
    assert!(settings.pretty_names.is_none());
}

#[test]
fn example_config_is_laid_over_the_default() {
    let config =
        apply_external_config(read_config(DEFAULT_CONFIG), Some(read_config(EXAMPLE_CONFIG)));
    assert!(config_is_complete(&config));
    let settings = run_settings(config);
    assert_eq!(settings.bind_address, "0.0.0.0");
    assert_eq!(settings.bind_port, 9999);
    assert_eq!(settings.broker_host, "192.168.1.2");
    assert_eq!(settings.broker_port, 1883);
    assert_eq!(
        settings.switches,
        vec!["Bedroom TV", "Living Room Lights", "Bedroom Lights", "Office Lights", "XMass Tree"]
    );
}

#[test]
fn settings_that_are_left_out_keep_their_default() {
    let external = Config {
        mqttbroker: Some(MqttBroker { host: None, port: Some(1884), topic: None }),
        service: Some(Service {
            bind_address: None,
            port: None,
            switches: Some("a".to_string()),
            cache_dir: None,
        }),
        filters: None,
        pretty_names: None,
    };
    let settings = run_settings(apply_external_config(read_config(DEFAULT_CONFIG), Some(external)));
    assert_eq!(settings.bind_address, "127.0.0.1");
    assert_eq!(settings.bind_port, 9999);
    assert_eq!(settings.cache_dir, "/run/beelay");
    assert_eq!(settings.broker_host, "localhost");
    assert_eq!(settings.broker_port, 1884);
    assert_eq!(settings.base_topic, "zigbee2mqtt");
    assert_eq!(settings.switches, vec!["a"]);
}

#[test]
fn no_external_config_changes_nothing() {
    let settings = run_settings(apply_external_config(read_config(DEFAULT_CONFIG), None));
    assert_eq!(settings.bind_address, "127.0.0.1");
    let settings =
        run_settings(apply_external_config(read_config(DEFAULT_CONFIG), Some(empty_config())));
    assert_eq!(settings.bind_address, "127.0.0.1");
    assert_eq!(settings.base_topic, "zigbee2mqtt");
}

#[test]
fn external_filters_and_names_are_taken() {
    let mut names: IndexMap<String, String> = IndexMap::new();
    names.insert("tv".to_string(), "Television".to_string());
    let external = Config {
        mqttbroker: None,
        service: None,
        filters: Some(vec![("down".to_string(), "tv,lamp".to_string())]),
        pretty_names: Some(names),
    };
    let settings = run_settings(apply_external_config(read_config(DEFAULT_CONFIG), Some(external)));
    assert_eq!(
        settings.filters,
        vec![("down".to_string(), vec!["tv".to_string(), "lamp".to_string()])]
    );
    assert_eq!(settings.pretty_names.unwrap().get("tv").unwrap(), "Television");
}

#[test]
fn incomplete_configs_are_told_apart() {
    assert!(!config_is_complete(&empty_config()));
    let mut config = read_config(DEFAULT_CONFIG);
    config.mqttbroker.as_mut().unwrap().topic = None;
    assert!(!config_is_complete(&config));
    let mut config = read_config(DEFAULT_CONFIG);
    config.service.as_mut().unwrap().cache_dir = None;
    assert!(!config_is_complete(&config));
}

#[test]
fn switch_lists_are_cut_at_commas() {
    assert_eq!(parse_switches(&Some("a,b c,,d".to_string())), vec!["a", "b c", "", "d"]);
    assert_eq!(parse_switches(&Some(String::new())), vec![""]);
    assert!(parse_switches(&None).is_empty());
    assert!(parse_filters(&None).is_empty());
}
