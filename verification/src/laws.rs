//! What the bridge as a whole promises: how a request for a switch, the core and the answer fit
//! together.
use indexmap::IndexMap;
use vstd::prelude::*;

use crate::api::{
    api_error, check_answer, core_failure, escaped_spaces_are_resolved, lemma_escaped_first,
    set_params, spaces_escaped, spaces_resolved, state_answer, state_success, switch_get_step,
    ApiStepView,
};
use crate::beelay_core::{
    cache_files_do_not_collide, cache_is_read_back, cache_text, core_action, get_fault,
    get_response, new_core, CommandResponseView, CommandView, CoreActionView, CoreErrorView,
    CoreView,
};
use crate::common::{state_name_round_trip, state_named, SwitchState, SwitchStatus};
use crate::frontend::{
    button_elem, switch_button, tables_change_the_label_alone, FrontendView,
};
use crate::mqtt_client::{
    event_step, notification, report_is_taken_for_its_switch, report_topic, EventStepView,
    PayloadView,
};
use crate::pretty_names::label_of;
use crate::response::{ResponseView, StatusCode};
use crate::service::{
    elements_are_found_again, escaped_pairs, is_plain, path_elems, query_of, service_step,
    trailing_slash_does_not_matter, writes_query, ServiceStepView,
};
use crate::text::{
    decimal, digit_value, join, lemma_decimal_digits, lowercase, number_is_read_back, occurs,
    occurs_at, replaced, replacing_nothing_changes_nothing,
};

verus! {

/// Whether a switch of this name can be addressed by a path: the name is not empty, holds no
/// slash, and holds no escaped space.
pub open spec fn is_addressable(name: Seq<char>) -> bool {
    name.len() > 0 && !name.contains('/') && !occurs(name, "%20"@)
}

/// The path of a switch below the API, with its spaces escaped.
pub open spec fn switch_path(name: Seq<char>) -> Seq<char> {
    "/api/switch/"@ + spaces_escaped(name)
}

/// Escaping spaces leaves a name without slashes without slashes.
proof fn lemma_escaping_adds_no_slash(name: Seq<char>)
    requires
        !name.contains('/'),
    ensures
        !spaces_escaped(name).contains('/'),
        name.len() > 0 ==> spaces_escaped(name).len() > 0,
    decreases name.len(),
{
    reveal_strlit("%20");
    lemma_escaped_first(name);
    if name.len() > 0 {
        let rest = name.skip(1);
        assert(!rest.contains('/')) by {
            if rest.contains('/') {
                let k = choose|k: int| 0 <= k < rest.len() && rest[k] == '/';
                assert(name[k + 1] == '/');
            }
        }
        lemma_escaping_adds_no_slash(rest);
        assert(name.contains(name[0]));
        let escaped = spaces_escaped(name);
        let escaped_rest = spaces_escaped(rest);
        let head = escaped.len() - escaped_rest.len();
        if escaped.contains('/') {
            let k = choose|k: int| 0 <= k < escaped.len() && escaped[k] == '/';
            if k >= head {
                assert(escaped_rest[k - head] == '/');
            }
        }
    }
}

/// The elements of a path below the endpoint for one switch, with a slash at its end or without
/// one.
proof fn lemma_switch_path_elems(elem: Seq<char>)
    requires
        elem.len() > 0,
        !elem.contains('/'),
    ensures
        path_elems("/api/switch/"@ + elem) == seq!["api"@, "switch"@, elem],
        path_elems(("/api/switch/"@ + elem).push('/')) == seq!["api"@, "switch"@, elem],
        seq!["api"@, "switch"@, elem].skip(1).skip(1) == seq![elem],
{
    reveal_strlit("api");
    reveal_strlit("switch");
    reveal_strlit("/api/switch/");
    let elems = seq!["api"@, "switch"@, elem];
    elements_are_found_again(elems);
    reveal_with_fuel(join, 3);
    assert(elems.drop_last() =~= seq!["api"@, "switch"@]);
    assert(elems.drop_last().drop_last() =~= seq!["api"@]);
    assert(seq!['/'] + join(elems, seq!['/']) =~= "/api/switch/"@ + elem);
    trailing_slash_does_not_matter("/api/switch/"@ + elem);
    assert(elems.skip(1).skip(1) =~= seq![elem]);
}

/// What the parameters of a request with a state alone say.
proof fn lemma_state_alone(state: SwitchState)
    ensures
        set_params(seq![("state"@, state.text())]) == Ok::<
            (Option<SwitchState>, Option<u16>),
            ResponseView,
        >((Some(state), None)),
{
    state_name_round_trip(state);
    let query = seq![("state"@, state.text())];
    assert(query.drop_last() =~= Seq::empty());
    reveal_with_fuel(set_params, 2);
}

/// What the parameters of a request with a state and a delay say.
proof fn lemma_state_and_delay(state: SwitchState, delay: u16)
    ensures
        set_params(seq![("state"@, state.text()), ("delay"@, decimal(delay as nat))]) == Ok::<
            (Option<SwitchState>, Option<u16>),
            ResponseView,
        >((Some(state), Some(delay))),
{
    lemma_state_alone(state);
    number_is_read_back(delay);
    let query = seq![("state"@, state.text()), ("delay"@, decimal(delay as nat))];
    assert(query.drop_last() =~= seq![("state"@, state.text())]);
    reveal_strlit("state");
    reveal_strlit("delay");
    assert("state"@[0] != "delay"@[0]);
}

/// The query of a single pair, and of two pairs.
proof fn lemma_short_queries(first: (Seq<char>, Seq<char>), second: (Seq<char>, Seq<char>))
    ensures
        query_of(seq![first]) == first.0 + "="@ + first.1,
        query_of(seq![first, second]) == first.0 + "="@ + first.1 + "&"@ + (second.0 + "="@
            + second.1),
{
    let write = |pair: (Seq<char>, Seq<char>)| pair.0 + "="@ + pair.1;
    reveal_with_fuel(join, 2);
    assert(seq![first].map_values(write) =~= seq![write(first)]);
    assert(seq![first, second].map_values(write) =~= seq![write(first), write(second)]);
    assert(seq![write(first), write(second)].drop_last() =~= seq![write(first)]);
}

/// The queries that set a switch, at once and after a delay, and the one that names a switch with
/// its spaces escaped, say what they seem to say.
pub proof fn queries_are_read(state: SwitchState, delay: u16, name: Seq<char>)
    requires
        is_plain(name),
    ensures
        writes_query("state="@ + state.text(), seq![("state"@, state.text())]),
        writes_query(
            "state="@ + state.text() + "&delay="@ + decimal(delay as nat),
            seq![("state"@, state.text()), ("delay"@, decimal(delay as nat))],
        ),
        writes_query("switch="@ + spaces_escaped(name), seq![("switch"@, name)]),
{
    reveal_strlit("=");
    reveal_strlit("&");
    reveal_strlit("state");
    reveal_strlit("state=");
    reveal_strlit("delay");
    reveal_strlit("&delay=");
    reveal_strlit("switch");
    reveal_strlit("switch=");
    reveal_strlit("on");
    reveal_strlit("off");
    reveal_strlit(" ");
    let digits = decimal(delay as nat);
    lemma_decimal_digits(delay as nat);
    assert(is_plain(digits)) by {
        assert forall|c: char| digit_value(c) is None implies !#[trigger] digits.contains(c) by {
            if digits.contains(c) {
                let k = choose|k: int| 0 <= k < digits.len() && digits[k] == c;
                assert(digit_value(digits[k]) is Some);
            }
        }
    }
    let set = ("state"@, state.text());
    let later = ("delay"@, digits);
    lemma_short_queries(set, later);
    assert(query_of(seq![set]) =~= "state="@ + state.text());
    assert(query_of(seq![set, later]) =~= "state="@ + state.text() + "&delay="@ + digits);
    assert("switch"@ == spaces_escaped("switch"@)) by {
        if occurs("switch"@, " "@) {
            let at = choose|at: int| occurs_at("switch"@, " "@, at);
            assert("switch"@.subrange(at, at + 1)[0] == "switch"@[at]);
        }
        replacing_nothing_changes_nothing("switch"@, " "@, "%20"@);
    }
    let escaped = ("switch"@, spaces_escaped(name));
    assert(escaped_pairs(seq![("switch"@, name)]) =~= seq![escaped]);
    lemma_short_queries(escaped, escaped);
    assert(query_of(seq![escaped]) =~= "switch="@ + spaces_escaped(name));
}

/// A POST request with a state and a delay, for a switch that the core has, has the core set that
/// switch after that delay.
pub proof fn post_with_a_delay_sets_later(
    front: FrontendView,
    core: CoreView,
    name: Seq<char>,
    state: SwitchState,
    delay: u16,
)
    requires
        core.well_formed(),
        core.switch_names.contains(name),
        is_addressable(name),
    ensures
        service_step(
            front,
            "POST"@,
            path_elems(switch_path(name).push('/')),
            seq![("state"@, state.text()), ("delay"@, decimal(delay as nat))],
        ) == (ServiceStepView::Api {
            step: ApiStepView::SetState {
                path_name: spaces_escaped(name),
                switch_name: name,
                state,
                delay,
            },
        }),
        core_action(core, CommandView::SetState { switch_name: name, state, delay }) == Ok::<
            CoreActionView,
            CoreErrorView,
        >(
            CoreActionView::ScheduleSet {
                switch_name: name,
                state,
                delay,
                cache_file: core.cache_files[name],
                resp: CommandResponseView::SwitchState {
                    name,
                    state: Some(state),
                    status: SwitchStatus::Transitioning,
                },
            },
        ),
{
    lemma_escaping_adds_no_slash(name);
    lemma_switch_path_elems(spaces_escaped(name));
    escaped_spaces_are_resolved(name);
    lemma_state_and_delay(state, delay);
}

/// The addresses behind the buttons of a switch in the browser client reach that switch, whatever
/// table of names there is: each is a path, in the first two with a query behind it, and of these
/// the first sets the switch on, the second sets it off, and the third reads it.
pub proof fn buttons_reach_their_switch(
    front: FrontendView,
    name: Seq<char>,
    pretty_map: Option<IndexMap<String, String>>,
    query: Seq<(Seq<char>, Seq<char>)>,
    state: SwitchState,
)
    requires
        is_addressable(name),
    ensures
        switch_button(name, pretty_map) == button_elem(
            lowercase(replaced(name, " "@, "_"@)),
            label_of(pretty_map, name),
            ("/api/switch/"@ + name + "/"@) + "?"@ + ("state="@ + SwitchState::On.text()),
            ("/api/switch/"@ + name + "/"@) + "?"@ + ("state="@ + SwitchState::Off.text()),
            "/api/switch/"@ + name,
        ),
        writes_query("state="@ + state.text(), seq![("state"@, state.text())]),
        service_step(front, "GET"@, path_elems("/api/switch/"@ + name), query) == (
        ServiceStepView::Api {
            step: ApiStepView::GetState { path_name: name, switch_name: name },
        }),
        service_step(
            front,
            "POST"@,
            path_elems("/api/switch/"@ + name + "/"@),
            seq![("state"@, state.text())],
        ) == (ServiceStepView::Api {
            step: ApiStepView::SetState { path_name: name, switch_name: name, state, delay: 0 },
        }),
{
    lemma_switch_path_elems(name);
    lemma_state_alone(state);
    replacing_nothing_changes_nothing(name, "%20"@, " "@);
    reveal_strlit("GET");
    reveal_strlit("POST");
    assert("GET"@.len() != "POST"@.len());
    reveal_strlit("/");
    assert(("/api/switch/"@ + name).push('/') =~= "/api/switch/"@ + name + "/"@);
    queries_are_read(state, 0, Seq::empty());
    tables_change_the_label_alone(name, pretty_map);
    reveal_strlit("?");
    reveal_strlit("state=");
    reveal_strlit("/?state=");
    let path = "/api/switch/"@ + name + "/"@;
    let (on, off) = (SwitchState::On.text(), SwitchState::Off.text());
    assert(path + "?"@ + ("state="@ + on) =~= "/api/switch/"@ + (name + ("/?state="@ + on)));
    assert(path + "?"@ + ("state="@ + off) =~= "/api/switch/"@ + (name + ("/?state="@ + off)));
}

/// A POST request with a state, for a switch that the core has, has the core set that switch at
/// once, and is answered that it succeeded.
pub proof fn post_sets_the_switch(
    front: FrontendView,
    core: CoreView,
    name: Seq<char>,
    state: SwitchState,
)
    requires
        core.well_formed(),
        core.switch_names.contains(name),
        is_addressable(name),
    ensures
        service_step(
            front,
            "POST"@,
            path_elems(switch_path(name).push('/')),
            seq![("state"@, state.text())],
        ) == (ServiceStepView::Api {
            step: ApiStepView::SetState {
                path_name: spaces_escaped(name),
                switch_name: name,
                state,
                delay: 0,
            },
        }),
        core_action(core, CommandView::SetState { switch_name: name, state, delay: 0 }) == Ok::<
            CoreActionView,
            CoreErrorView,
        >(
            CoreActionView::ScheduleSet {
                switch_name: name,
                state,
                delay: 0,
                cache_file: core.cache_files[name],
                resp: CommandResponseView::SwitchState {
                    name,
                    state: Some(state),
                    status: SwitchStatus::Transitioning,
                },
            },
        ),
        state_success(None, None) == (ResponseView {
            status: StatusCode::Success,
            body: "{\"status\":\"success\"}"@,
        }),
{
    lemma_escaping_adds_no_slash(name);
    lemma_switch_path_elems(spaces_escaped(name));
    escaped_spaces_are_resolved(name);
    lemma_state_alone(state);
    reveal_strlit("");
    reveal_strlit("}");
    reveal_strlit("{\"status\":\"success\"");
    reveal_strlit("{\"status\":\"success\"}");
    assert(state_success(None, None).body =~= "{\"status\":\"success\"}"@);
}

/// A GET request for a switch that the core has is answered with the state that the network last
/// reported for it, or with the one that it was last commanded to and that it is on its way
/// there.
pub proof fn get_answers_the_recorded_state(
    front: FrontendView,
    core: CoreView,
    name: Seq<char>,
    query: Seq<(Seq<char>, Seq<char>)>,
    state: SwitchState,
    status: SwitchStatus,
)
    requires
        core.well_formed(),
        core.switch_names.contains(name),
        is_addressable(name),
    ensures
        service_step(front, "GET"@, path_elems(switch_path(name)), query) == (ServiceStepView::Api {
            step: ApiStepView::GetState { path_name: spaces_escaped(name), switch_name: name },
        }),
        core_action(core, CommandView::Get { switch_name: name }) == Ok::<
            CoreActionView,
            CoreErrorView,
        >(CoreActionView::ReadCache { switch_name: name, cache_file: core.cache_files[name] }),
        get_response(name, Ok(Some(cache_text(state, status)))) == (
        CommandResponseView::SwitchState { name, state: Some(state), status }),
        state_answer(Some(state), status) == (ResponseView {
            status: StatusCode::Success,
            body: "{\"status\":\"success\",\"state\":\""@ + state.text() + match status {
                SwitchStatus::Confirmed => "\"}"@,
                SwitchStatus::Transitioning => "\",\"transitioning\":\"true\"}"@,
            },
        }),
{
    lemma_escaping_adds_no_slash(name);
    lemma_switch_path_elems(spaces_escaped(name));
    escaped_spaces_are_resolved(name);
    cache_is_read_back(state, status);
    reveal_strlit("GET");
    reveal_strlit("POST");
    assert("GET"@.len() != "POST"@.len());
    reveal_strlit("");
    reveal_strlit("}");
    reveal_strlit("\"");
    reveal_strlit("\"}");
    reveal_strlit(",\"state\":\"");
    reveal_strlit(",\"transitioning\":\"true\"");
    reveal_strlit("\",\"transitioning\":\"true\"}");
    reveal_strlit("{\"status\":\"success\"");
    reveal_strlit("{\"status\":\"success\",\"state\":\"");
    let body = state_answer(Some(state), status).body;
    match status {
        SwitchStatus::Confirmed => {
            assert(body =~= "{\"status\":\"success\",\"state\":\""@ + state.text() + "\"}"@);
        },
        SwitchStatus::Transitioning => {
            assert(body =~= "{\"status\":\"success\",\"state\":\""@ + state.text()
                + "\",\"transitioning\":\"true\"}"@);
        },
    }
}

/// A GET request that names a switch by the `switch` parameter is told where the core has no
/// switch of that name.
pub proof fn unknown_switch_is_told(front: FrontendView, core: CoreView, name: Seq<char>)
    requires
        !core.switch_names.contains(name),
    ensures
        service_step(front, "GET"@, path_elems("/api/"@), seq![("switch"@, name)]) == (
        ServiceStepView::Api { step: ApiStepView::CheckSwitch { switch_name: name } }),
        core_action(core, CommandView::EnumerateSwitches) == Ok::<CoreActionView, CoreErrorView>(
            CoreActionView::Reply {
                resp: CommandResponseView::SwitchEnumeration { switches: core.switch_names },
            },
        ),
        check_answer(name, core.switch_names) == (ResponseView {
            status: StatusCode::BadRequest,
            body: "{\"error_msg\":\"Unknown switch name.\",\"status\":\"error\"}"@,
        }),
{
    reveal_strlit("api");
    reveal_strlit("/api/");
    reveal_strlit("GET");
    reveal_strlit("POST");
    assert("GET"@.len() != "POST"@.len());
    let elems = seq!["api"@];
    elements_are_found_again(elems);
    reveal_with_fuel(join, 2);
    let path = seq!['/'] + join(elems, seq!['/']);
    trailing_slash_does_not_matter(path);
    assert(path.push('/') =~= "/api/"@);
    assert(elems.skip(1) =~= Seq::empty());
}

/// The cache files after a state of a switch was written down: for a switch that the core does not
/// have nothing is written. Files are told apart by the text of their paths.
pub open spec fn files_after(
    core: CoreView,
    files: Map<Seq<char>, Seq<char>>,
    name: Seq<char>,
    state: SwitchState,
    status: SwitchStatus,
) -> Map<Seq<char>, Seq<char>> {
    if core.cache_files.contains_key(name) {
        files.insert(core.cache_files[name], cache_text(state, status))
    } else {
        files
    }
}

/// What the core responds to a request for the state of a switch, from what the cache files hold.
pub open spec fn get_reply(
    core: CoreView,
    files: Map<Seq<char>, Seq<char>>,
    name: Seq<char>,
) -> CommandResponseView {
    match core_action(core, CommandView::Get { switch_name: name }) {
        Ok(CoreActionView::Reply { resp }) => resp,
        Ok(CoreActionView::ReadCache { switch_name, cache_file }) => get_response(
            switch_name,
            Ok(
                if files.contains_key(cache_file) {
                    Some(files[cache_file])
                } else {
                    None
                },
            ),
        ),
        _ => arbitrary(),
    }
}

/// The answer to a request for the state of a switch that a path element names, from what the
/// cache files hold.
pub open spec fn get_answer(
    core: CoreView,
    files: Map<Seq<char>, Seq<char>>,
    path_name: Seq<char>,
) -> ResponseView {
    let name = spaces_resolved(path_name);
    match get_reply(core, files, name) {
        CommandResponseView::SwitchState { state, status, .. } => state_answer(state, status),
        resp => core_failure(path_name, get_fault(name, resp)),
    }
}

/// A GET request for a switch by its path is told that the switch is unknown where the core has no
/// switch of that name, whatever the cache files hold.
pub proof fn unknown_switch_by_path_is_told(
    front: FrontendView,
    core: CoreView,
    files: Map<Seq<char>, Seq<char>>,
    path_name: Seq<char>,
    query: Seq<(Seq<char>, Seq<char>)>,
)
    requires
        core.well_formed(),
        !core.switch_names.contains(spaces_resolved(path_name)),
    ensures
        switch_get_step(seq![path_name]) == (ApiStepView::GetState {
            path_name,
            switch_name: spaces_resolved(path_name),
        }),
        path_name.len() > 0 && !path_name.contains('/') ==> service_step(
            front,
            "GET"@,
            path_elems("/api/switch/"@ + path_name),
            query,
        ) == (ServiceStepView::Api { step: switch_get_step(seq![path_name]) }),
        get_answer(core, files, path_name) == api_error(
            "Unknown switch name: "@ + path_name,
            StatusCode::BadRequest,
        ),
{
    if path_name.len() > 0 && !path_name.contains('/') {
        lemma_switch_path_elems(path_name);
        reveal_strlit("GET");
        reveal_strlit("POST");
        assert("GET"@.len() != "POST"@.len());
    }
}

/// The state of a switch that was written down last is the one that a request for the switch is
/// answered.
pub proof fn last_state_is_answered(
    core: CoreView,
    files: Map<Seq<char>, Seq<char>>,
    path_name: Seq<char>,
    state: SwitchState,
    status: SwitchStatus,
)
    requires
        core.cache_files.contains_key(spaces_resolved(path_name)),
    ensures
        get_answer(
            core,
            files_after(core, files, spaces_resolved(path_name), state, status),
            path_name,
        ) == state_answer(Some(state), status),
{
    cache_is_read_back(state, status);
}

/// The steps that a name takes below a directory: its elements, but for those that stay where they
/// are.
pub open spec fn file_steps(name: Seq<char>) -> Seq<Seq<char>> {
    path_elems(name).filter(|elem: Seq<char>| elem != "."@)
}

/// Whether a name leads from a directory to something below it: it is no absolute path and never
/// steps back.
pub open spec fn leads_below(name: Seq<char>) -> bool {
    (name.len() > 0 ==> name[0] != '/') && !path_elems(name).contains(".."@)
}

/// Writing down the state of one switch leaves the answer about every other as it is, where the
/// names of both lead below the directory of the cache files, by different steps.
pub proof fn switches_do_not_disturb_each_other(
    switch_names: Seq<Seq<char>>,
    dir: Seq<char>,
    files: Map<Seq<char>, Seq<char>>,
    path_name: Seq<char>,
    other: Seq<char>,
    state: SwitchState,
    status: SwitchStatus,
)
    requires
        leads_below(spaces_resolved(path_name)),
        leads_below(other),
        file_steps(spaces_resolved(path_name)) != file_steps(other),
    ensures
        get_answer(
            new_core(switch_names, dir),
            files_after(new_core(switch_names, dir), files, other, state, status),
            path_name,
        ) == get_answer(new_core(switch_names, dir), files, path_name),
{
    cache_files_do_not_collide(dir, spaces_resolved(path_name), other);
}

/// A switch that was never heard of has an unknown state.
pub proof fn unheard_of_switch_is_unknown(
    core: CoreView,
    files: Map<Seq<char>, Seq<char>>,
    path_name: Seq<char>,
)
    requires
        core.cache_files.contains_key(spaces_resolved(path_name)),
        !files.contains_key(core.cache_files[spaces_resolved(path_name)]),
    ensures
        get_answer(core, files, path_name) == (ResponseView {
            status: StatusCode::Success,
            body: "{\"status\":\"success\",\"state\":\"unknown\"}"@,
        }),
{
    reveal_strlit("");
    reveal_strlit("}");
    reveal_strlit("\"");
    reveal_strlit("unknown");
    reveal_strlit(",\"state\":\"");
    reveal_strlit("{\"status\":\"success\"");
    reveal_strlit("{\"status\":\"success\",\"state\":\"unknown\"}");
    assert(get_answer(core, files, path_name).body
        =~= "{\"status\":\"success\",\"state\":\"unknown\"}"@);
}

/// A state that a switch reports on its topic, in any letter case, is handed on for that switch,
/// and once the core has written it down it is the confirmed state that a request for the switch
/// is answered.
pub proof fn reported_state_is_answered(
    core: CoreView,
    files: Map<Seq<char>, Seq<char>>,
    base_topic: Seq<char>,
    path_name: Seq<char>,
    text: Seq<char>,
    state: SwitchState,
    listeners: nat,
)
    requires
        core.cache_files.contains_key(spaces_resolved(path_name)),
        state_named(lowercase(text)) == Some(state),
        listeners > 0,
    ensures
        event_step(
            Some(
                notification(
                    report_topic(base_topic, spaces_resolved(path_name)),
                    PayloadView::Object { state: Some(Some(text)) },
                    base_topic,
                ),
            ),
            listeners,
        ) == (EventStepView::Forward { switch_name: spaces_resolved(path_name), state }),
        get_answer(
            core,
            files_after(
                core,
                files,
                spaces_resolved(path_name),
                state,
                SwitchStatus::Confirmed,
            ),
            path_name,
        ) == state_answer(Some(state), SwitchStatus::Confirmed),
{
    report_is_taken_for_its_switch(base_topic, spaces_resolved(path_name), text, state);
    last_state_is_answered(core, files, path_name, state, SwitchStatus::Confirmed);
}

} // verus!
