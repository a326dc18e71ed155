//! The configuration: how one is laid over another, and what a run takes from it.
use indexmap::IndexMap;
use vstd::prelude::*;

use crate::frontend::filter_texts;
use crate::text::{
    join, join_undoes_split, names_differ, pair_texts, split, split_fields_hold_no_separator,
    split_has_a_field, split_text, texts,
};

verus! {

/// Where the broker of the network is, and the topic below which the switches are.
pub struct MqttBroker {
    pub host: Option<String>,
    pub port: Option<u16>,
    pub topic: Option<String>,
}

/// Where the service listens, which switches there are, and where their states are kept.
pub struct Service {
    pub bind_address: Option<String>,
    pub port: Option<u16>,
    pub switches: Option<String>,
    pub cache_dir: Option<String>,
}

/// A configuration; every part of it can be left out.
pub struct Config {
    pub mqttbroker: Option<MqttBroker>,
    pub service: Option<Service>,
    pub filters: Option<Vec<(String, String)>>,
    pub pretty_names: Option<IndexMap<String, String>>,
}

/// The value of a setting: the one laid over it where there is one, or the one below.
pub open spec fn over<T>(above: Option<T>, below: Option<T>) -> Option<T> {
    match above {
        Some(value) => Some(value),
        None => below,
    }
}

/// The broker's settings with others laid over them.
pub open spec fn broker_over(above: Option<MqttBroker>, below: MqttBroker) -> MqttBroker {
    match above {
        Some(above) => MqttBroker {
            host: over(above.host, below.host),
            port: over(above.port, below.port),
            topic: over(above.topic, below.topic),
        },
        None => below,
    }
}

/// The service's settings with others laid over them.
pub open spec fn service_over(above: Option<Service>, below: Service) -> Service {
    match above {
        Some(above) => Service {
            bind_address: over(above.bind_address, below.bind_address),
            port: over(above.port, below.port),
            switches: over(above.switches, below.switches),
            cache_dir: over(above.cache_dir, below.cache_dir),
        },
        None => below,
    }
}

/// A configuration with another laid over it, setting by setting.
pub open spec fn config_over(above: Config, below: Config) -> Config {
    Config {
        mqttbroker: Some(broker_over(above.mqttbroker, below.mqttbroker.unwrap())),
        service: Some(service_over(above.service, below.service.unwrap())),
        filters: over(above.filters, below.filters),
        pretty_names: over(above.pretty_names, below.pretty_names),
    }
}

/// Picks the setting that is laid over another, or the one below.
fn pick<T>(above: Option<T>, below: Option<T>) -> (r: Option<T>)
    ensures
        r == over(above, below),
{
    match above {
        Some(value) => Some(value),
        None => below,
    }
}

/// Lays an external configuration, where there is one, over a complete one.
pub fn apply_external_config(config: Config, loaded_config: Option<Config>) -> (r: Config)
    requires
        loaded_config is Some ==> config.service is Some && config.mqttbroker is Some,
    ensures
        r == match loaded_config {
            Some(loaded) => config_over(loaded, config),
            None => config,
        },
{
    let loaded = match loaded_config {
        Some(loaded) => loaded,
        None => {
            return config;
        },
    };
    let service = config.service.unwrap();
    let service = match loaded.service {
        Some(above) => Service {
            bind_address: pick(above.bind_address, service.bind_address),
            port: pick(above.port, service.port),
            switches: pick(above.switches, service.switches),
            cache_dir: pick(above.cache_dir, service.cache_dir),
        },
        None => service,
    };
    let mqttbroker = config.mqttbroker.unwrap();
    let mqttbroker = match loaded.mqttbroker {
        Some(above) => MqttBroker {
            host: pick(above.host, mqttbroker.host),
            port: pick(above.port, mqttbroker.port),
            topic: pick(above.topic, mqttbroker.topic),
        },
        None => mqttbroker,
    };
    Config {
        mqttbroker: Some(mqttbroker),
        service: Some(service),
        filters: pick(loaded.filters, config.filters),
        pretty_names: pick(loaded.pretty_names, config.pretty_names),
    }
}

/// What a run takes from the configuration.
pub struct RunSettings {
    pub bind_address: String,
    pub bind_port: u16,
    pub cache_dir: String,
    pub broker_host: String,
    pub broker_port: u16,
    pub base_topic: String,
    pub switches: Vec<String>,
    pub filters: Vec<(String, Vec<String>)>,
    pub pretty_names: Option<IndexMap<String, String>>,
}

/// Whether a configuration says all that a run needs.
pub open spec fn is_complete(config: Config) -> bool {
    &&& config.service matches Some(service) && service.bind_address is Some && service.port is Some
        && service.cache_dir is Some
    &&& config.mqttbroker matches Some(broker) && broker.host is Some && broker.port is Some
        && broker.topic is Some
}

/// The names in a list of switches: what stands between its commas. No list names no switch.
pub open spec fn listed_switches(list: Option<String>) -> Seq<Seq<char>> {
    match list {
        Some(list) => split(list@, ','),
        None => Seq::empty(),
    }
}

/// The filters of a configuration, each with the names in its list.
pub open spec fn listed_filters(filters: Option<Vec<(String, String)>>) -> Seq<
    (Seq<char>, Seq<Seq<char>>),
> {
    match filters {
        Some(filters) => pair_texts(filters@).map_values(
            |filter: (Seq<char>, Seq<char>)| (filter.0, split(filter.1, ',')),
        ),
        None => Seq::empty(),
    }
}

/// Whether no two filters of a configuration have the same name.
pub open spec fn filter_names_differ(filters: Option<Vec<(String, String)>>) -> bool {
    match filters {
        Some(filters) => names_differ(pair_texts(filters@)),
        None => true,
    }
}

/// Reads a list of switches.
pub fn parse_switches(list: &Option<String>) -> (r: Vec<String>)
    ensures
        texts(r@) == listed_switches(*list),
{
    match list {
        Some(list) => split_text(list.as_str(), ','),
        None => {
            let none: Vec<String> = Vec::new();
            assert(texts(none@) =~= Seq::empty());
            none
        },
    }
}

/// Reads the filters of a configuration.
pub fn parse_filters(filter_strs: &Option<Vec<(String, String)>>) -> (r: Vec<
    (String, Vec<String>),
>)
    ensures
        filter_texts(r@) == listed_filters(*filter_strs),
        filter_names_differ(*filter_strs) ==> names_differ(filter_texts(r@)),
{
    let mut filters: Vec<(String, Vec<String>)> = Vec::new();
    let ghost expected = listed_filters(*filter_strs);
    assert(filter_texts(filters@) =~= expected.take(0));
    match filter_strs {
        Some(filter_strs) => {
            let mut i: usize = 0;
            while i < filter_strs.len()
                invariant
                    i <= filter_strs@.len(),
                    expected == pair_texts(filter_strs@).map_values(
                        |filter: (Seq<char>, Seq<char>)| (filter.0, split(filter.1, ',')),
                    ),
                    filter_texts(filters@) == expected.take(i as int),
                decreases filter_strs@.len() - i,
            {
                let ghost before = filter_texts(filters@);
                let name = filter_strs[i].0.clone();
                let switches = split_text(filter_strs[i].1.as_str(), ',');
                filters.push((name, switches));
                assert(filter_texts(filters@) =~= before.push(expected[i as int]));
                assert(filter_texts(filters@) =~= expected.take(i + 1));
                i += 1;
            }
            assert(expected.take(i as int) =~= expected);
        },
        None => {
            assert(expected.take(0) =~= expected);
        },
    }
    filters
}

/// Whether the configuration says all that a run needs.
pub fn config_is_complete(config: &Config) -> (r: bool)
    ensures
        r == is_complete(*config),
{
    let service_is = match &config.service {
        Some(service) => service.bind_address.is_some() && service.port.is_some()
            && service.cache_dir.is_some(),
        None => false,
    };
    let broker_is = match &config.mqttbroker {
        Some(broker) => broker.host.is_some() && broker.port.is_some() && broker.topic.is_some(),
        None => false,
    };
    service_is && broker_is
}

/// Takes from a complete configuration what a run needs.
pub fn run_settings(config: Config) -> (r: RunSettings)
    requires
        is_complete(config),
    ensures
        Some(r.bind_address) == config.service.unwrap().bind_address,
        Some(r.bind_port) == config.service.unwrap().port,
        Some(r.cache_dir) == config.service.unwrap().cache_dir,
        Some(r.broker_host) == config.mqttbroker.unwrap().host,
        Some(r.broker_port) == config.mqttbroker.unwrap().port,
        Some(r.base_topic) == config.mqttbroker.unwrap().topic,
        texts(r.switches@) == listed_switches(config.service.unwrap().switches),
        filter_texts(r.filters@) == listed_filters(config.filters),
        filter_names_differ(config.filters) ==> names_differ(filter_texts(r.filters@)),
        r.pretty_names == config.pretty_names,
{
    let service = config.service.unwrap();
    let broker = config.mqttbroker.unwrap();
    let switches = parse_switches(&service.switches);
    let filters = parse_filters(&config.filters);
    RunSettings {
        bind_address: service.bind_address.unwrap(),
        bind_port: service.port.unwrap(),
        cache_dir: service.cache_dir.unwrap(),
        broker_host: broker.host.unwrap(),
        broker_port: broker.port.unwrap(),
        base_topic: broker.topic.unwrap(),
        switches,
        filters,
        pretty_names: config.pretty_names,
    }
}

/// Laying a configuration over another a second time changes nothing.
pub proof fn applying_twice_is_applying_once(above: Config, below: Config)
    ensures
        config_over(above, config_over(above, below)) == config_over(above, below),
{
}

/// Whatever is laid over a complete configuration, the result is complete.
pub proof fn complete_stays_complete(above: Config, below: Config)
    requires
        is_complete(below),
    ensures
        is_complete(config_over(above, below)),
{
}

/// A configuration that says nothing changes nothing.
pub proof fn empty_config_changes_nothing(above: Config, below: Config)
    requires
        is_complete(below),
        above.mqttbroker is None,
        above.service is None,
        above.filters is None,
        above.pretty_names is None,
    ensures
        config_over(above, below) == below,
{
}

/// Of three configurations laid over each other it does not matter which two are put together
/// first.
pub proof fn layering_is_associative(top: Config, middle: Config, bottom: Config)
    requires
        middle.service is Some,
        middle.mqttbroker is Some,
    ensures
        config_over(top, config_over(middle, bottom)) == config_over(
            config_over(top, middle),
            bottom,
        ),
{
}

/// Where neither of two configurations has two filters of the same name, the one laid over the
/// other has none either.
pub proof fn filter_names_stay_different(above: Config, below: Config)
    requires
        filter_names_differ(above.filters),
        filter_names_differ(below.filters),
    ensures
        filter_names_differ(config_over(above, below).filters),
{
}

/// Every setting has the value that the configuration laid above gives it, and where that one
/// leaves the setting out, the value of the one below.
pub proof fn settings_above_count(above: Config, below: Config)
    requires
        below.service is Some,
        below.mqttbroker is Some,
    ensures
        ({
            let service = config_over(above, below).service.unwrap();
            let base = below.service.unwrap();
            &&& config_over(above, below).service is Some
            &&& above.service matches Some(given) ==> {
                &&& given.bind_address is Some ==> service.bind_address == given.bind_address
                &&& given.bind_address is None ==> service.bind_address == base.bind_address
                &&& given.port is Some ==> service.port == given.port
                &&& given.port is None ==> service.port == base.port
                &&& given.switches is Some ==> service.switches == given.switches
                &&& given.switches is None ==> service.switches == base.switches
                &&& given.cache_dir is Some ==> service.cache_dir == given.cache_dir
                &&& given.cache_dir is None ==> service.cache_dir == base.cache_dir
            }
            &&& above.service is None ==> service == base
        }),
        ({
            let broker = config_over(above, below).mqttbroker.unwrap();
            let base = below.mqttbroker.unwrap();
            &&& config_over(above, below).mqttbroker is Some
            &&& above.mqttbroker matches Some(given) ==> {
                &&& given.host is Some ==> broker.host == given.host
                &&& given.host is None ==> broker.host == base.host
                &&& given.port is Some ==> broker.port == given.port
                &&& given.port is None ==> broker.port == base.port
                &&& given.topic is Some ==> broker.topic == given.topic
                &&& given.topic is None ==> broker.topic == base.topic
            }
            &&& above.mqttbroker is None ==> broker == base
        }),
        above.filters is Some ==> config_over(above, below).filters == above.filters,
        above.filters is None ==> config_over(above, below).filters == below.filters,
        above.pretty_names is Some ==> config_over(above, below).pretty_names
            == above.pretty_names,
        above.pretty_names is None ==> config_over(above, below).pretty_names
            == below.pretty_names,
{
}

/// A configuration is complete exactly where it gives the address, the port and the directory of
/// the service, and the host, the port and the topic of the broker.
pub proof fn complete_configs_give_six_settings(
    service: Service,
    broker: MqttBroker,
    filters: Option<Vec<(String, String)>>,
    pretty_names: Option<IndexMap<String, String>>,
)
    ensures
        is_complete(
            Config { service: Some(service), mqttbroker: Some(broker), filters, pretty_names },
        ) <==> service.bind_address is Some && service.port is Some && service.cache_dir is Some
            && broker.host is Some && broker.port is Some && broker.topic is Some,
        !is_complete(Config { service: None, mqttbroker: Some(broker), filters, pretty_names }),
        !is_complete(Config { service: Some(service), mqttbroker: None, filters, pretty_names }),
        !is_complete(Config { service: None, mqttbroker: None, filters, pretty_names }),
{
}

/// The names in a list of switches, joined by commas, are the list, and none of them holds a
/// comma. No list names no switch.
pub proof fn listed_switches_make_up_the_list(list: Option<String>)
    ensures
        match list {
            Some(text) => {
                &&& join(listed_switches(list), seq![',']) == text@
                &&& listed_switches(list).len() > 0
                &&& forall|i: int|
                    0 <= i < listed_switches(list).len() ==> !(#[trigger] listed_switches(
                        list,
                    )[i]).contains(',')
            },
            None => listed_switches(list).len() == 0,
        },
{
    if let Some(text) = list {
        join_undoes_split(text@, ',');
        split_has_a_field(text@, ',');
        split_fields_hold_no_separator(text@, ',');
    }
}

/// Each filter of a configuration keeps its name and its place, and the names in its list, joined
/// by commas, are the list.
pub proof fn listed_filters_make_up_their_lists(filters: Vec<(String, String)>)
    ensures
        listed_filters(None).len() == 0,
        listed_filters(Some(filters)).len() == filters@.len(),
        forall|i: int|
            0 <= i < filters@.len() ==> {
                let filter = #[trigger] listed_filters(Some(filters))[i];
                &&& filter.0 == filters@[i].0@
                &&& join(filter.1, seq![',']) == filters@[i].1@
                &&& filter.1.len() > 0
                &&& forall|j: int|
                    0 <= j < filter.1.len() ==> !(#[trigger] filter.1[j]).contains(',')
            },
{
    assert forall|i: int| 0 <= i < filters@.len() implies {
        let filter = #[trigger] listed_filters(Some(filters))[i];
        &&& filter.0 == filters@[i].0@
        &&& join(filter.1, seq![',']) == filters@[i].1@
        &&& filter.1.len() > 0
        &&& forall|j: int| 0 <= j < filter.1.len() ==> !(#[trigger] filter.1[j]).contains(',')
    } by {
        join_undoes_split(filters@[i].1@, ',');
        split_has_a_field(filters@[i].1@, ',');
        split_fields_hold_no_separator(filters@[i].1@, ',');
    }
}

} // verus!
