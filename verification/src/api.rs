//! The HTTP API. A request is turned into a step: an answer, or a question to the core whose
//! outcome one of the `finish` functions turns into the answer.
use indexmap::IndexMap;
use std::collections::VecDeque;
use vstd::prelude::*;

use crate::beelay_core::{BeelayCoreError, BeelayCoreErrorType, CoreErrorView};
use crate::common::{
    state_named, str_to_switch_state, switch_state_to_str, SwitchState, SwitchStatus,
};
use crate::json::{json_list, json_list_text, json_table, json_table_text};
use crate::pretty_names::table_entries;
use crate::response::{generate_response, Response, ResponseView, StatusCode};
use crate::text::{
    contains_text, lemma_occurs_in_rest, number_text, numbers_are_read_exactly, occurs, occurs_at,
    optional_str, pair_texts, parse_u16, path_queue, queue_texts, replace_text, replaced,
    replacing_nothing_changes_nothing, same_text, texts, u16_of_text,
};

verus! {

/// The path element of the endpoint for one switch.
pub const SWITCH_API_ELEM_NAME: &'static str = "switch";

/// The query parameter that holds a state.
pub const SWITCH_API_STATE_PARAM_NAME: &'static str = "state";

/// The query parameter that holds a delay in seconds.
pub const SWITCH_API_DELAY_PARAM_NAME: &'static str = "delay";

/// The path element of the endpoint for the list of switches.
pub const SWITCHES_API_ELEM_NAME: &'static str = "switches";

/// The answer to a request that cannot be served.
pub open spec fn api_error(message: Seq<char>, status: StatusCode) -> ResponseView {
    ResponseView {
        status,
        body: "{\"status\":\"error\",\"error_message\":\""@ + message + "\"}"@,
    }
}

/// Composes the answer to a request that cannot be served.
pub fn generate_api_error_respose(error_message: &str, status_code: StatusCode) -> (r: Response)
    ensures
        r@ == api_error(error_message@, status_code),
{
    let body = "{\"status\":\"error\",\"error_message\":\"".to_owned().concat(
        error_message,
    ).concat("\"}");
    generate_response(body.as_str(), status_code)
}

/// The member of an answer that holds a state, if there is one.
pub open spec fn state_member(state: Option<Seq<char>>) -> Seq<char> {
    match state {
        Some(state) => ",\"state\":\""@ + state + "\""@,
        None => ""@,
    }
}

/// The member of an answer that says whether a switch is changing, if there is one.
pub open spec fn transitioning_member(transitioning: Option<bool>) -> Seq<char> {
    match transitioning {
        Some(true) => ",\"transitioning\":\"true\""@,
        Some(false) => ",\"transitioning\":\"false\""@,
        None => ""@,
    }
}

/// The answer to a request about a switch that was served.
pub open spec fn state_success(
    state: Option<Seq<char>>,
    transitioning: Option<bool>,
) -> ResponseView {
    ResponseView {
        status: StatusCode::Success,
        body: "{\"status\":\"success\""@ + state_member(state) + transitioning_member(transitioning)
            + "}"@,
    }
}

/// Composes the answer to a request about a switch that was served.
pub fn generate_state_success_response(
    switch_state: Option<&str>,
    transitioning: Option<bool>,
) -> (r: Response)
    ensures
        r@ == state_success(optional_str(switch_state), transitioning),
{
    let switch_state_str = match switch_state {
        Some(switch_state) => ",\"state\":\"".to_owned().concat(switch_state).concat("\""),
        None => "".to_owned(),
    };
    let transitioning_str = match transitioning {
        Some(true) => ",\"transitioning\":\"true\"".to_owned(),
        Some(false) => ",\"transitioning\":\"false\"".to_owned(),
        None => "".to_owned(),
    };
    let body = "{\"status\":\"success\"".to_owned().concat(switch_state_str.as_str()).concat(
        transitioning_str.as_str(),
    ).concat("}");
    generate_response(body.as_str(), StatusCode::Success)
}

/// The answer that lists the switches and their names, from the JSON texts of both.
pub open spec fn list_success(switches: Seq<char>, pretty_names: Seq<char>) -> ResponseView {
    ResponseView {
        status: StatusCode::Success,
        body: "{\"switches\":"@ + switches + ",\"pretty_names\":"@ + pretty_names + "}"@,
    }
}

/// Composes the answer that lists the switches and their names, from the JSON texts of both.
pub fn frame_switch_list(switches: &str, pretty_names: &str) -> (r: Response)
    ensures
        r@ == list_success(switches@, pretty_names@),
{
    let body = "{\"switches\":".to_owned().concat(switches).concat(",\"pretty_names\":").concat(
        pretty_names,
    ).concat("}");
    generate_response(body.as_str(), StatusCode::Success)
}

/// Composes the answer that lists the switches and their names.
pub fn generate_switch_list_success_response(
    switches: &Vec<String>,
    pretty_names: &IndexMap<String, String>,
) -> (r: Response)
    ensures
        r@ == list_success(
            json_list(texts(switches@)),
            json_table(table_entries(*pretty_names)),
        ),
{
    frame_switch_list(json_list_text(switches).as_str(), json_table_text(pretty_names).as_str())
}

/// A path element with its escaped spaces made spaces.
pub open spec fn spaces_resolved(s: Seq<char>) -> Seq<char> {
    replaced(s, "%20"@, " "@)
}

/// Makes the escaped spaces of a path element spaces.
pub fn resolve_spaces(s: &str) -> (r: String)
    ensures
        r@ == spaces_resolved(s@),
{
    proof {
        reveal_strlit("%20");
    }
    replace_text(s, "%20", " ")
}

/// What a request asks for.
pub enum ApiStep {
    /// Send the answer.
    Done { resp: Response },
    /// Ask the core for its switches; [`BeelayApi::finish_list`] has the answer.
    ListSwitches,
    /// Ask the core for its switches; [`BeelayApi::finish_list_or_fail`] has the answer.
    ListSwitchesOrFail,
    /// Ask the core for its switches; [`BeelayApi::finish_check`] has the answer.
    CheckSwitch { switch_name: String },
    /// Ask the core for the state of `switch_name`; [`BeelayApi::finish_get`] has the answer.
    GetState { path_name: String, switch_name: String },
    /// Have the core set `switch_name`; [`BeelayApi::finish_set`] has the answer.
    SetState { path_name: String, switch_name: String, state: SwitchState, delay: u16 },
}

/// A step with its strings as characters.
pub enum ApiStepView {
    Done { resp: ResponseView },
    ListSwitches,
    ListSwitchesOrFail,
    CheckSwitch { switch_name: Seq<char> },
    GetState { path_name: Seq<char>, switch_name: Seq<char> },
    SetState { path_name: Seq<char>, switch_name: Seq<char>, state: SwitchState, delay: u16 },
}

impl View for ApiStep {
    type V = ApiStepView;

    open spec fn view(&self) -> ApiStepView {
        match self {
            ApiStep::Done { resp } => ApiStepView::Done { resp: resp@ },
            ApiStep::ListSwitches => ApiStepView::ListSwitches,
            ApiStep::ListSwitchesOrFail => ApiStepView::ListSwitchesOrFail,
            ApiStep::CheckSwitch { switch_name } => ApiStepView::CheckSwitch {
                switch_name: switch_name@,
            },
            ApiStep::GetState { path_name, switch_name } => ApiStepView::GetState {
                path_name: path_name@,
                switch_name: switch_name@,
            },
            ApiStep::SetState { path_name, switch_name, state, delay } => ApiStepView::SetState {
                path_name: path_name@,
                switch_name: switch_name@,
                state: *state,
                delay: *delay,
            },
        }
    }
}

/// The step that refuses a request.
pub open spec fn refused(message: Seq<char>, status: StatusCode) -> ApiStepView {
    ApiStepView::Done { resp: api_error(message, status) }
}

/// The step that refuses a path that ends before it names anything.
pub open spec fn only_top_level() -> ApiStepView {
    refused("Only top level API URL provided"@, StatusCode::NotFound)
}

/// The step that refuses a path element that means nothing.
pub open spec fn unknown_element(elem: Seq<char>) -> ApiStepView {
    refused("Unknown endpoint element: "@ + elem, StatusCode::NotFound)
}

/// What the parameters of a request to set a switch say: the last state and the last delay that
/// they give, or the refusal of the first parameter that is wrong.
pub open spec fn set_params(query: Seq<(Seq<char>, Seq<char>)>) -> Result<
    (Option<SwitchState>, Option<u16>),
    ResponseView,
>
    decreases query.len(),
{
    if query.len() == 0 {
        Ok((None, None))
    } else {
        let (key, value) = query.last();
        match set_params(query.drop_last()) {
            Err(refusal) => Err(refusal),
            Ok((state, delay)) => if key == "state"@ {
                match state_named(value) {
                    Some(named) => Ok((Some(named), delay)),
                    None => Err(
                        api_error(
                            "Invalid value for state parameter (must be 'on' or 'off'): "@ + value,
                            StatusCode::BadRequest,
                        ),
                    ),
                }
            } else if key == "delay"@ {
                match u16_of_text(value) {
                    Some(seconds) => Ok((state, Some(seconds))),
                    None => Err(
                        api_error(
                            "Invalid value for delay parameter (must be integer): "@ + value,
                            StatusCode::BadRequest,
                        ),
                    ),
                }
            } else {
                Err(api_error("Unknown query parameter: "@ + key, StatusCode::NotFound))
            },
        }
    }
}

/// What a request to set a switch asks for, from the path below the endpoint and the query.
pub open spec fn switch_post_step(
    sub_path: Seq<Seq<char>>,
    query: Seq<(Seq<char>, Seq<char>)>,
) -> ApiStepView {
    if sub_path.len() == 0 {
        only_top_level()
    } else if sub_path.len() > 1 {
        unknown_element(sub_path[1])
    } else {
        match set_params(query) {
            Err(resp) => ApiStepView::Done { resp },
            Ok((None, _)) => refused(
                "Endpoint requires 'state' query parameter"@,
                StatusCode::BadRequest,
            ),
            Ok((Some(state), delay)) => ApiStepView::SetState {
                path_name: sub_path[0],
                switch_name: spaces_resolved(sub_path[0]),
                state,
                delay: match delay {
                    Some(delay) => delay,
                    None => 0,
                },
            },
        }
    }
}

/// What a request for a switch asks for, from the path below the endpoint.
pub open spec fn switch_get_step(sub_path: Seq<Seq<char>>) -> ApiStepView {
    if sub_path.len() == 0 {
        ApiStepView::ListSwitchesOrFail
    } else if sub_path.len() > 1 {
        unknown_element(sub_path[1])
    } else {
        ApiStepView::GetState {
            path_name: sub_path[0],
            switch_name: spaces_resolved(sub_path[0]),
        }
    }
}

/// What a request for the list of switches asks for, from the path below the endpoint.
pub open spec fn switches_get_step(sub_path: Seq<Seq<char>>) -> ApiStepView {
    if sub_path.len() == 0 {
        ApiStepView::ListSwitches
    } else {
        unknown_element(sub_path[0])
    }
}

/// The last value that the query gives to a parameter.
pub open spec fn last_value(query: Seq<(Seq<char>, Seq<char>)>, key: Seq<char>) -> Option<Seq<char>>
    decreases query.len(),
{
    if query.len() == 0 {
        None
    } else if query.last().0 == key {
        Some(query.last().1)
    } else {
        last_value(query.drop_last(), key)
    }
}

/// What a POST request asks for.
pub open spec fn post_step(
    path: Seq<Seq<char>>,
    query: Seq<(Seq<char>, Seq<char>)>,
) -> ApiStepView {
    if path.len() == 0 {
        only_top_level()
    } else if path[0] == "switch"@ {
        switch_post_step(path.skip(1), query)
    } else if path[0] == "switches"@ {
        refused("POST not allowed for /switches"@, StatusCode::MethodNotAllowed)
    } else {
        unknown_element(path[0])
    }
}

/// What a GET request asks for. Without a path, a `switch` parameter asks whether there is a
/// switch of that name.
pub open spec fn get_step(
    path: Seq<Seq<char>>,
    query: Seq<(Seq<char>, Seq<char>)>,
) -> ApiStepView {
    if path.len() == 0 {
        match last_value(query, "switch"@) {
            Some(switch_name) => ApiStepView::CheckSwitch { switch_name },
            None => only_top_level(),
        }
    } else if path[0] == "switch"@ {
        switch_get_step(path.skip(1))
    } else if path[0] == "switches"@ {
        switches_get_step(path.skip(1))
    } else {
        unknown_element(path[0])
    }
}

/// What a request asks for, from its method, its path below the API and its query.
pub open spec fn api_step(
    method: Seq<char>,
    path: Seq<Seq<char>>,
    query: Seq<(Seq<char>, Seq<char>)>,
) -> ApiStepView {
    if method == "POST"@ {
        post_step(path, query)
    } else if method == "GET"@ {
        get_step(path, query)
    } else {
        refused("Method not supported: "@ + method, StatusCode::BadRequest)
    }
}

/// The answer to a request that the core could not serve.
pub open spec fn core_failure(path_name: Seq<char>, err: CoreErrorView) -> ResponseView {
    if err.error_type == BeelayCoreErrorType::InvalidSwitch {
        api_error("Unknown switch name: "@ + path_name, StatusCode::BadRequest)
    } else {
        internal_error(err)
    }
}

/// The answer about a fault of the core.
pub open spec fn internal_error(err: CoreErrorView) -> ResponseView {
    api_error("Internal error: "@ + err.text(), StatusCode::InternalServerError)
}

/// The answer about a switch's state. A state that the network has confirmed stands alone.
pub open spec fn state_answer(state: Option<SwitchState>, status: SwitchStatus) -> ResponseView {
    state_success(
        Some(
            match state {
                Some(state) => state.text(),
                None => "unknown"@,
            },
        ),
        match status {
            SwitchStatus::Confirmed => None,
            SwitchStatus::Transitioning => Some(true),
        },
    )
}

/// The answer to a request that names a switch by the `switch` parameter: such a request is
/// served nowhere, and one for a switch that does not exist is told so.
pub open spec fn check_answer(switch_name: Seq<char>, switches: Seq<Seq<char>>) -> ResponseView {
    if switches.contains(switch_name) {
        api_error("Only top level API URL provided"@, StatusCode::NotFound)
    } else {
        ResponseView {
            status: StatusCode::BadRequest,
            body: "{\"error_msg\":\"Unknown switch name.\",\"status\":\"error\"}"@,
        }
    }
}

/// The step that refuses a request.
fn refuse(message: &str, status_code: StatusCode) -> (r: ApiStep)
    ensures
        r@ == refused(message@, status_code),
{
    ApiStep::Done { resp: generate_api_error_respose(message, status_code) }
}

/// The step that refuses a path element that means nothing.
fn refuse_element(elem: &str) -> (r: ApiStep)
    ensures
        r@ == unknown_element(elem@),
{
    refuse("Unknown endpoint element: ".to_owned().concat(elem).as_str(), StatusCode::NotFound)
}

/// Reads the parameters of a request to set a switch, as [`set_params`] defines it.
pub fn read_set_params(query_params: &Vec<(String, String)>) -> (r: Result<
    (Option<SwitchState>, Option<u16>),
    Response,
>)
    ensures
        match r {
            Ok(read) => set_params(pair_texts(query_params@)) == Ok::<
                (Option<SwitchState>, Option<u16>),
                ResponseView,
            >(read),
            Err(resp) => set_params(pair_texts(query_params@)) == Err::<
                (Option<SwitchState>, Option<u16>),
                ResponseView,
            >(resp@),
        },
{
    let mut new_state: Option<SwitchState> = None;
    let mut delay: Option<u16> = None;
    let ghost query = pair_texts(query_params@);
    let mut i: usize = 0;
    while i < query_params.len()
        invariant
            i <= query_params@.len(),
            query == pair_texts(query_params@),
            set_params(query.take(i as int)) == Ok::<
                (Option<SwitchState>, Option<u16>),
                ResponseView,
            >((new_state, delay)),
        decreases query_params@.len() - i,
    {
        let key = query_params[i].0.as_str();
        let value = query_params[i].1.as_str();
        proof {
            assert(query.take(i + 1).drop_last() =~= query.take(i as int));
            assert(query.take(i + 1).last() == (key@, value@));
        }
        if same_text(key, SWITCH_API_STATE_PARAM_NAME) {
            match str_to_switch_state(value) {
                Ok(state) => {
                    new_state = Some(state);
                },
                Err(_) => {
                    let cause = "Invalid value for state parameter (must be 'on' or 'off'): ";
                    let message = cause.to_owned().concat(value);
                    proof {
                        refusal_stands(query, i + 1);
                    }
                    return Err(
                        generate_api_error_respose(message.as_str(), StatusCode::BadRequest),
                    );
                },
            }
        } else if same_text(key, SWITCH_API_DELAY_PARAM_NAME) {
            match parse_u16(value) {
                Some(seconds) => {
                    delay = Some(seconds);
                },
                None => {
                    let cause = "Invalid value for delay parameter (must be integer): ";
                    let message = cause.to_owned().concat(value);
                    proof {
                        refusal_stands(query, i + 1);
                    }
                    return Err(
                        generate_api_error_respose(message.as_str(), StatusCode::BadRequest),
                    );
                },
            }
        } else {
            let message = "Unknown query parameter: ".to_owned().concat(key);
            proof {
                refusal_stands(query, i + 1);
            }
            return Err(generate_api_error_respose(message.as_str(), StatusCode::NotFound));
        }
        i += 1;
    }
    assert(query.take(i as int) =~= query);
    Ok((new_state, delay))
}

/// What a parameter was refused for stands whatever parameters follow it.
pub proof fn refusal_stands(query: Seq<(Seq<char>, Seq<char>)>, i: int)
    requires
        0 <= i <= query.len(),
        set_params(query.take(i)) is Err,
    ensures
        set_params(query) == set_params(query.take(i)),
    decreases query.len() - i,
{
    if i == query.len() {
        assert(query.take(i) =~= query);
    } else {
        assert(query.take(i + 1).drop_last() =~= query.take(i));
        refusal_stands(query, i + 1);
    }
}

/// Finds the last value that the query gives to a parameter.
pub fn find_last_value(query_params: &Vec<(String, String)>, key: &str) -> (r: Option<String>)
    ensures
        match r {
            Some(value) => last_value(pair_texts(query_params@), key@) == Some(value@),
            None => last_value(pair_texts(query_params@), key@) is None,
        },
{
    let ghost query = pair_texts(query_params@);
    let mut found: Option<String> = None;
    let mut i: usize = 0;
    while i < query_params.len()
        invariant
            i <= query_params@.len(),
            query == pair_texts(query_params@),
            match found {
                Some(value) => last_value(query.take(i as int), key@) == Some(value@),
                None => last_value(query.take(i as int), key@) is None,
            },
        decreases query_params@.len() - i,
    {
        proof {
            assert(query.take(i + 1).drop_last() =~= query.take(i as int));
            assert(query.take(i + 1).last() == (
                query_params@[i as int].0@,
                query_params@[i as int].1@,
            ));
        }
        if same_text(query_params[i].0.as_str(), key) {
            found = Some(query_params[i].1.clone());
        }
        i += 1;
    }
    assert(query.take(i as int) =~= query);
    found
}

/// The API: it holds the names under which the switches are shown.
pub struct BeelayApi {
    pretty_names: IndexMap<String, String>,
}

impl BeelayApi {
    /// The names under which the switches are shown.
    pub closed spec fn pretty_names(&self) -> IndexMap<String, String> {
        self.pretty_names
    }

    /// An API that shows the switches under the given names.
    pub fn new(pretty_names: IndexMap<String, String>) -> (r: BeelayApi)
        ensures
            r.pretty_names() == pretty_names,
    {
        BeelayApi { pretty_names }
    }

    /// Works out what a request asks for.
    pub fn handle_hit(
        &self,
        method: &str,
        api_path: &Vec<String>,
        query_params: &Vec<(String, String)>,
    ) -> (r: ApiStep)
        ensures
            r@ == api_step(method@, texts(api_path@), pair_texts(query_params@)),
    {
        if same_text(method, "POST") {
            self.handle_post(api_path, query_params)
        } else if same_text(method, "GET") {
            self.handle_get(api_path, query_params)
        } else {
            refuse(
                "Method not supported: ".to_owned().concat(method).as_str(),
                StatusCode::BadRequest,
            )
        }
    }

    /// Works out what a POST request asks for.
    fn handle_post(&self, api_path: &Vec<String>, query_params: &Vec<(String, String)>) -> (r:
        ApiStep)
        ensures
            r@ == post_step(texts(api_path@), pair_texts(query_params@)),
    {
        let mut api_path = path_queue(api_path);
        let ghost path = queue_texts(api_path@);
        let top_api_elem = match api_path.pop_front() {
            Some(elem) => elem,
            None => {
                return refuse("Only top level API URL provided", StatusCode::NotFound);
            },
        };
        proof {
            assert(path[0] == top_api_elem@);
            assert(queue_texts(api_path@) =~= path.skip(1));
        }
        if same_text(top_api_elem.as_str(), SWITCH_API_ELEM_NAME) {
            self.switch_post(&mut api_path, query_params)
        } else if same_text(top_api_elem.as_str(), SWITCHES_API_ELEM_NAME) {
            refuse("POST not allowed for /switches", StatusCode::MethodNotAllowed)
        } else {
            refuse_element(top_api_elem.as_str())
        }
    }

    /// Works out what a GET request asks for.
    fn handle_get(&self, api_path: &Vec<String>, query_params: &Vec<(String, String)>) -> (r:
        ApiStep)
        ensures
            r@ == get_step(texts(api_path@), pair_texts(query_params@)),
    {
        let mut api_path = path_queue(api_path);
        let ghost path = queue_texts(api_path@);
        let top_api_elem = match api_path.pop_front() {
            Some(elem) => elem,
            None => {
                return match find_last_value(query_params, "switch") {
                    Some(switch_name) => ApiStep::CheckSwitch { switch_name },
                    None => refuse("Only top level API URL provided", StatusCode::NotFound),
                };
            },
        };
        proof {
            assert(path[0] == top_api_elem@);
            assert(queue_texts(api_path@) =~= path.skip(1));
        }
        if same_text(top_api_elem.as_str(), SWITCH_API_ELEM_NAME) {
            self.switch_get(&mut api_path, query_params)
        } else if same_text(top_api_elem.as_str(), SWITCHES_API_ELEM_NAME) {
            self.switches_get(&mut api_path, query_params)
        } else {
            refuse_element(top_api_elem.as_str())
        }
    }

    /// Works out what a request for a switch asks for, from the path below the endpoint, whose
    /// first two elements it takes.
    pub fn switch_get(
        &self,
        api_sub_path: &mut VecDeque<&String>,
        _query_params: &Vec<(String, String)>,
    ) -> (r: ApiStep)
        ensures
            r@ == switch_get_step(queue_texts(old(api_sub_path)@)),
            final(api_sub_path)@ == old(api_sub_path)@.skip(
                vstd::math::min(2, old(api_sub_path)@.len() as int),
            ),
    {
        let ghost sub_path = queue_texts(api_sub_path@);
        let switch_name = match api_sub_path.pop_front() {
            Some(name) => name,
            None => {
                return ApiStep::ListSwitchesOrFail;
            },
        };
        assert(sub_path[0] == switch_name@);
        match api_sub_path.pop_front() {
            Some(elem) => {
                assert(sub_path[1] == elem@);
                refuse_element(elem.as_str())
            },
            None => ApiStep::GetState {
                path_name: switch_name.clone(),
                switch_name: resolve_spaces(switch_name.as_str()),
            },
        }
    }

    /// Works out what a request for the list of switches asks for, from the path below the
    /// endpoint, whose first element it takes.
    pub fn switches_get(
        &self,
        api_sub_path: &mut VecDeque<&String>,
        _query_params: &Vec<(String, String)>,
    ) -> (r: ApiStep)
        ensures
            r@ == switches_get_step(queue_texts(old(api_sub_path)@)),
            final(api_sub_path)@ == old(api_sub_path)@.skip(
                vstd::math::min(1, old(api_sub_path)@.len() as int),
            ),
    {
        let ghost sub_path = queue_texts(api_sub_path@);
        match api_sub_path.pop_front() {
            Some(elem) => {
                assert(sub_path[0] == elem@);
                refuse_element(elem.as_str())
            },
            None => ApiStep::ListSwitches,
        }
    }

    /// Works out what a request to set a switch asks for, from the path below the endpoint,
    /// whose first two elements it takes, and the query.
    fn switch_post(
        &self,
        api_sub_path: &mut VecDeque<&String>,
        query_params: &Vec<(String, String)>,
    ) -> (r: ApiStep)
        ensures
            r@ == switch_post_step(queue_texts(old(api_sub_path)@), pair_texts(query_params@)),
    {
        let ghost sub_path = queue_texts(api_sub_path@);
        let switch_name = match api_sub_path.pop_front() {
            Some(name) => name,
            None => {
                return refuse("Only top level API URL provided", StatusCode::NotFound);
            },
        };
        assert(sub_path[0] == switch_name@);
        match api_sub_path.pop_front() {
            Some(elem) => {
                assert(sub_path[1] == elem@);
                return refuse_element(elem.as_str());
            },
            None => {},
        }
        let (new_state, delay) = match read_set_params(query_params) {
            Ok(read) => read,
            Err(resp) => {
                return ApiStep::Done { resp };
            },
        };
        match new_state {
            None => refuse("Endpoint requires 'state' query parameter", StatusCode::BadRequest),
            Some(state) => ApiStep::SetState {
                path_name: switch_name.clone(),
                switch_name: resolve_spaces(switch_name.as_str()),
                state,
                delay: match delay {
                    Some(delay) => delay,
                    None => 0,
                },
            },
        }
    }

    /// Answers a request for the list of switches from what the core said.
    pub fn finish_list(&self, switches: Result<Vec<String>, BeelayCoreError>) -> (r: Response)
        ensures
            r@ == match switches {
                Ok(switches) => list_success(
                    json_list(texts(switches@)),
                    json_table(table_entries(self.pretty_names())),
                ),
                Err(err) => internal_error(err@),
            },
    {
        match switches {
            Ok(switches) => generate_switch_list_success_response(&switches, &self.pretty_names),
            Err(err) => fail_internally(&err),
        }
    }

    /// Answers a request for a switch that names none from what the core said; a fault of the
    /// core is handed on.
    pub fn finish_list_or_fail(&self, switches: Result<Vec<String>, BeelayCoreError>) -> (r: Result<
        Response,
        BeelayCoreError,
    >)
        ensures
            match (switches, r) {
                (Ok(switches), Ok(resp)) => resp@ == list_success(
                    json_list(texts(switches@)),
                    json_table(table_entries(self.pretty_names())),
                ),
                (Err(fault), Err(err)) => err == fault,
                _ => false,
            },
    {
        match switches {
            Ok(switches) => Ok(
                generate_switch_list_success_response(&switches, &self.pretty_names),
            ),
            Err(err) => Err(err),
        }
    }

    /// Answers a request that names a switch by the `switch` parameter from what the core said;
    /// where the core fails, nothing is known of the switch.
    pub fn finish_check(
        &self,
        switch_name: &str,
        switches: Result<Vec<String>, BeelayCoreError>,
    ) -> (r: Response)
        ensures
            r@ == match switches {
                Ok(switches) => check_answer(switch_name@, texts(switches@)),
                Err(_) => api_error("Only top level API URL provided"@, StatusCode::NotFound),
            },
    {
        let unknown = match switches {
            Ok(switches) => !contains_text(switches.as_slice(), switch_name),
            Err(_) => false,
        };
        if unknown {
            generate_response(
                "{\"error_msg\":\"Unknown switch name.\",\"status\":\"error\"}",
                StatusCode::BadRequest,
            )
        } else {
            generate_api_error_respose("Only top level API URL provided", StatusCode::NotFound)
        }
    }

    /// Answers a request for the state of a switch from what the core said.
    pub fn finish_get(
        &self,
        path_name: &str,
        found: Result<(Option<SwitchState>, SwitchStatus), BeelayCoreError>,
    ) -> (r: Response)
        ensures
            r@ == match found {
                Ok((state, status)) => state_answer(state, status),
                Err(err) => core_failure(path_name@, err@),
            },
    {
        let (state, status) = match found {
            Ok(found) => found,
            Err(err) => {
                return fail_over_switch(path_name, &err);
            },
        };
        let state_str = match state {
            Some(state) => match switch_state_to_str(state) {
                Ok(text) => text,
                Err(err) => {
                    let message = "Internal error: ".to_owned().concat(err.to_string().as_str());
                    return generate_api_error_respose(
                        message.as_str(),
                        StatusCode::InternalServerError,
                    );
                },
            },
            None => "unknown".to_owned(),
        };
        let transitioning = match status {
            SwitchStatus::Confirmed => None,
            SwitchStatus::Transitioning => Some(true),
        };
        generate_state_success_response(Some(state_str.as_str()), transitioning)
    }

    /// Answers a request to set a switch from what the core said.
    pub fn finish_set(&self, path_name: &str, done: Result<(), BeelayCoreError>) -> (r: Response)
        ensures
            r@ == match done {
                Ok(_) => state_success(None, None),
                Err(err) => core_failure(path_name@, err@),
            },
    {
        match done {
            Ok(_) => generate_state_success_response(None, None),
            Err(err) => fail_over_switch(path_name, &err),
        }
    }
}

/// Composes the answer about a fault of the core.
fn fail_internally(err: &BeelayCoreError) -> (r: Response)
    ensures
        r@ == internal_error(err@),
{
    let message = "Internal error: ".to_owned().concat(err.to_string().as_str());
    generate_api_error_respose(message.as_str(), StatusCode::InternalServerError)
}

/// Composes the answer to a request that the core could not serve.
fn fail_over_switch(path_name: &str, err: &BeelayCoreError) -> (r: Response)
    ensures
        r@ == core_failure(path_name@, err@),
{
    if err.get_type() == BeelayCoreErrorType::InvalidSwitch {
        let message = "Unknown switch name: ".to_owned().concat(path_name);
        generate_api_error_respose(message.as_str(), StatusCode::BadRequest)
    } else {
        fail_internally(err)
    }
}

/// Only a POST request for a single switch can set a switch, and only that switch.
pub proof fn only_post_sets(
    method: Seq<char>,
    path: Seq<Seq<char>>,
    query: Seq<(Seq<char>, Seq<char>)>,
)
    ensures
        api_step(method, path, query) matches ApiStepView::SetState {
            path_name,
            switch_name,
            state,
            delay,
        } ==> {
            &&& method == "POST"@
            &&& path.len() == 2
            &&& path[0] == "switch"@
            &&& path_name == path[1]
            &&& switch_name == spaces_resolved(path[1])
        },
{
}

/// A request that is neither GET nor POST is refused, whatever else it says.
pub proof fn other_methods_are_refused(
    method: Seq<char>,
    path: Seq<Seq<char>>,
    query: Seq<(Seq<char>, Seq<char>)>,
)
    requires
        method != "GET"@,
        method != "POST"@,
    ensures
        api_step(method, path, query) == (ApiStepView::Done {
            resp: api_error("Method not supported: "@ + method, StatusCode::BadRequest),
        }),
{
}

/// Whether a parameter of a request to set a switch is a valid one.
pub open spec fn is_set_param(param: (Seq<char>, Seq<char>)) -> bool {
    if param.0 == "state"@ {
        state_named(param.1) is Some
    } else {
        param.0 == "delay"@ && u16_of_text(param.1) is Some
    }
}

/// The parameters of a request to set a switch are taken exactly where each is a valid one, and
/// they give a state exactly where one of them is named so.
pub proof fn params_are_taken_if_valid(query: Seq<(Seq<char>, Seq<char>)>)
    ensures
        set_params(query) is Ok <==> forall|i: int|
            0 <= i < query.len() ==> is_set_param(#[trigger] query[i]),
        set_params(query) matches Ok((state, delay)) ==> {
            &&& state is Some <==> exists|i: int|
                0 <= i < query.len() && (#[trigger] query[i]).0 == "state"@
            &&& delay is Some <==> exists|i: int|
                0 <= i < query.len() && (#[trigger] query[i]).0 == "delay"@
        },
    decreases query.len(),
{
    if query.len() > 0 {
        let rest = query.drop_last();
        let last = query.len() - 1;
        params_are_taken_if_valid(rest);
        reveal_strlit("state");
        reveal_strlit("delay");
        assert("state"@[0] != "delay"@[0]);
        assert(forall|i: int| 0 <= i < rest.len() ==> query[i] == #[trigger] rest[i]);
        if forall|i: int| 0 <= i < query.len() ==> is_set_param(#[trigger] query[i]) {
            assert forall|i: int| 0 <= i < rest.len() implies is_set_param(#[trigger] rest[i]) by {
                assert(is_set_param(query[i]));
            }
            assert(is_set_param(query[last]));
        }
        if set_params(query) is Ok {
            assert forall|i: int| 0 <= i < query.len() implies is_set_param(
                #[trigger] query[i],
            ) by {
                if i < last {
                    assert(is_set_param(rest[i]));
                }
            }
            if exists|i: int| 0 <= i < rest.len() && (#[trigger] rest[i]).0 == "state"@ {
                let i = choose|i: int| 0 <= i < rest.len() && (#[trigger] rest[i]).0 == "state"@;
                assert(query[i].0 == "state"@);
            }
            if exists|i: int| 0 <= i < rest.len() && (#[trigger] rest[i]).0 == "delay"@ {
                let i = choose|i: int| 0 <= i < rest.len() && (#[trigger] rest[i]).0 == "delay"@;
                assert(query[i].0 == "delay"@);
            }
            if exists|i: int| 0 <= i < query.len() && (#[trigger] query[i]).0 == "state"@ {
                let i = choose|i: int| 0 <= i < query.len() && (#[trigger] query[i]).0 == "state"@;
                if i < last {
                    assert(rest[i].0 == "state"@);
                }
            }
            if exists|i: int| 0 <= i < query.len() && (#[trigger] query[i]).0 == "delay"@ {
                let i = choose|i: int| 0 <= i < query.len() && (#[trigger] query[i]).0 == "delay"@;
                if i < last {
                    assert(rest[i].0 == "delay"@);
                }
            }
            assert(query[last] == query.last());
        }
    }
}

/// A text with its spaces escaped as a URL escapes them.
pub open spec fn spaces_escaped(s: Seq<char>) -> Seq<char> {
    replaced(s, " "@, "%20"@)
}

/// What an escaped text begins with: an escape where the text begins with a space, or else the
/// text's own first character.
pub(crate) proof fn lemma_escaped_first(s: Seq<char>)
    ensures
        s.len() == 0 ==> spaces_escaped(s) == s,
        s.len() > 0 ==> spaces_escaped(s) == (if s[0] == ' ' {
            "%20"@
        } else {
            seq![s[0]]
        }) + spaces_escaped(s.skip(1)),
{
    reveal_strlit(" ");
    if s.len() > 0 {
        assert(" "@ =~= seq![' ']);
        assert(s.take(1) =~= seq![s[0]]);
        if s[0] != ' ' {
            assert(s.take(1)[0] != " "@[0]);
        }
    }
}

/// A name is found again from the path element that writes its spaces as escapes, unless the
/// name itself holds an escaped space.
pub proof fn escaped_spaces_are_resolved(name: Seq<char>)
    requires
        !occurs(name, "%20"@),
    ensures
        spaces_resolved(spaces_escaped(name)) == name,
    decreases name.len(),
{
    reveal_strlit("%20");
    reveal_strlit(" ");
    let escape = "%20"@;
    lemma_escaped_first(name);
    if name.len() > 0 {
        let rest = name.skip(1);
        let escaped = spaces_escaped(name);
        let escaped_rest = spaces_escaped(rest);
        if occurs(rest, escape) {
            lemma_occurs_in_rest(name, escape, 1);
        }
        escaped_spaces_are_resolved(rest);
        if name[0] == ' ' {
            assert(escaped.take(3) =~= escape);
            assert(escaped.skip(3) =~= escaped_rest);
            assert(" "@ + rest =~= name);
        } else {
            assert(escaped.skip(1) =~= escaped_rest);
            if escaped.len() >= 3 && escaped.take(3) == escape {
                assert(escaped[0] == escaped.take(3)[0]);
                assert(escaped[1] == escaped.take(3)[1]);
                assert(escaped[2] == escaped.take(3)[2]);
                lemma_escaped_first(rest);
                assert(escaped_rest[0] == '2');
                assert(rest[0] == '2');
                assert(escaped_rest.skip(1) =~= spaces_escaped(rest.skip(1)));
                assert(escaped_rest[1] == '0');
                lemma_escaped_first(rest.skip(1));
                assert(rest.skip(1)[0] == '0');
                assert(name.subrange(0, 3) =~= escape);
                assert(occurs_at(name, escape, 0));
            }
            assert(seq![name[0]] + rest =~= name);
            if escaped.len() < 3 {
                lemma_short_is_unchanged(escaped);
                lemma_short_is_unchanged(escaped_rest);
            }
        }
    }
}

/// A text shorter than an escape is left as it is.
proof fn lemma_short_is_unchanged(s: Seq<char>)
    requires
        s.len() < 3,
    ensures
        spaces_resolved(s) == s,
{
    reveal_strlit("%20");
}

/// What a resolved text begins with: a space where the text begins with an escape, or else the
/// text's own first character.
proof fn lemma_resolved_first(s: Seq<char>)
    requires
        s.len() > 0,
    ensures
        spaces_resolved(s).len() > 0,
        spaces_resolved(s)[0] != ' ' ==> spaces_resolved(s)[0] == s[0]
            && spaces_resolved(s).skip(1) == spaces_resolved(s.skip(1)),
{
    reveal_strlit("%20");
    reveal_strlit(" ");
    if s.len() < 3 {
        lemma_short_is_unchanged(s.skip(1));
    } else if s.take(3) != "%20"@ {
        assert((seq![s[0]] + spaces_resolved(s.skip(1))).skip(1) =~= spaces_resolved(s.skip(1)));
    }
}

/// No escaped space is left in a text whose escaped spaces were resolved.
pub proof fn no_escaped_space_is_left(s: Seq<char>)
    ensures
        !occurs(spaces_resolved(s), "%20"@),
    decreases s.len(),
{
    reveal_strlit("%20");
    reveal_strlit(" ");
    let escape = "%20"@;
    let resolved = spaces_resolved(s);
    if occurs(resolved, escape) {
        let at = choose|at: int| occurs_at(resolved, escape, at);
        let there = resolved.subrange(at, at + 3);
        assert(resolved[at] == there[0] && resolved[at + 1] == there[1] && resolved[at + 2]
            == there[2]);
        if s.len() < 3 {
        } else if s.take(3) == escape {
            let rest = spaces_resolved(s.skip(3));
            no_escaped_space_is_left(s.skip(3));
            assert(at >= 1);
            assert(rest.subrange(at - 1, at + 2) =~= there);
            assert(occurs_at(rest, escape, at - 1));
        } else {
            let rest = spaces_resolved(s.skip(1));
            no_escaped_space_is_left(s.skip(1));
            assert(resolved == seq![s[0]] + rest);
            if at >= 1 {
                assert(rest.subrange(at - 1, at + 2) =~= there);
                assert(occurs_at(rest, escape, at - 1));
            } else {
                assert(rest[0] == '2' && rest[1] == '0');
                lemma_resolved_first(s.skip(1));
                let second = spaces_resolved(s.skip(1).skip(1));
                assert(rest.skip(1)[0] == '0');
                assert(second[0] == '0');
                lemma_resolved_first(s.skip(1).skip(1));
                assert(s.take(3) =~= escape);
            }
        }
    }
}

/// Resolving escaped spaces a second time changes nothing.
pub proof fn resolving_twice_is_resolving_once(s: Seq<char>)
    ensures
        spaces_resolved(spaces_resolved(s)) == spaces_resolved(s),
{
    no_escaped_space_is_left(s);
    replacing_nothing_changes_nothing(spaces_resolved(s), "%20"@, " "@);
}

/// The state and the delay that a request gives are those of its last parameter named `state` and
/// of its last parameter named `delay`, wherever these stand among the others; what no parameter
/// names is not given.
pub proof fn last_parameters_count(query: Seq<(Seq<char>, Seq<char>)>)
    ensures
        set_params(query) matches Ok((state, delay)) ==> {
            &&& match last_value(query, "state"@) {
                Some(value) => state is Some && value == state.unwrap().text(),
                None => state is None,
            }
            &&& match last_value(query, "delay"@) {
                Some(value) => delay is Some && exists|plus: bool, zeros: nat|
                    value == #[trigger] number_text(plus, zeros, delay.unwrap() as nat),
                None => delay is None,
            }
        },
    decreases query.len(),
{
    if query.len() > 0 && set_params(query) is Ok {
        reveal_strlit("state");
        reveal_strlit("delay");
        assert("state"@[0] != "delay"@[0]);
        last_parameters_count(query.drop_last());
        let (key, value) = query.last();
        if key == "delay"@ {
            numbers_are_read_exactly(value, u16_of_text(value).unwrap());
        }
    }
}

/// Whether a parameter says `state` and names one of the two states, or says `delay` and writes a
/// number below 65536 down.
pub open spec fn says_state_or_delay(param: (Seq<char>, Seq<char>)) -> bool {
    ||| param.0 == "state"@ && (param.1 == "on"@ || param.1 == "off"@)
    ||| param.0 == "delay"@ && exists|plus: bool, zeros: nat, n: u16|
        param.1 == #[trigger] number_text(plus, zeros, n as nat)
}

/// A parameter is a valid one exactly where it says a state or a delay.
proof fn lemma_valid_params(param: (Seq<char>, Seq<char>))
    ensures
        is_set_param(param) <==> says_state_or_delay(param),
{
    reveal_strlit("state");
    reveal_strlit("delay");
    assert("state"@[0] != "delay"@[0]);
    if u16_of_text(param.1) is Some {
        numbers_are_read_exactly(param.1, u16_of_text(param.1).unwrap());
    }
    if exists|plus: bool, zeros: nat, n: u16|
        param.1 == #[trigger] number_text(plus, zeros, n as nat) {
        let (plus, zeros, n) = choose|plus: bool, zeros: nat, n: u16|
            param.1 == #[trigger] number_text(plus, zeros, n as nat);
        numbers_are_read_exactly(param.1, n);
    }
}

/// A request to set a switch is taken exactly where each of its parameters says a state or a
/// delay.
pub proof fn states_and_delays_are_taken(query: Seq<(Seq<char>, Seq<char>)>)
    ensures
        set_params(query) is Ok <==> forall|i: int|
            0 <= i < query.len() ==> says_state_or_delay(#[trigger] query[i]),
{
    params_are_taken_if_valid(query);
    assert forall|i: int| 0 <= i < query.len() implies is_set_param(#[trigger] query[i])
        == says_state_or_delay(query[i]) by {
        lemma_valid_params(query[i]);
    }
    if forall|i: int| 0 <= i < query.len() ==> says_state_or_delay(#[trigger] query[i]) {
        assert forall|i: int| 0 <= i < query.len() implies is_set_param(#[trigger] query[i]) by {
            assert(says_state_or_delay(query[i]));
        }
    }
    if set_params(query) is Ok {
        assert forall|i: int| 0 <= i < query.len() implies says_state_or_delay(
            #[trigger] query[i],
        ) by {
            assert(is_set_param(query[i]));
        }
    }
}

/// It does not matter whether the state or the delay comes first.
pub proof fn order_of_state_and_delay_does_not_matter(
    before: Seq<(Seq<char>, Seq<char>)>,
    state: Seq<char>,
    delay: Seq<char>,
)
    requires
        state_named(state) is Some,
        u16_of_text(delay) is Some,
    ensures
        set_params(before.push(("state"@, state)).push(("delay"@, delay))) == set_params(
            before.push(("delay"@, delay)).push(("state"@, state)),
        ),
{
    reveal_strlit("state");
    reveal_strlit("delay");
    assert("state"@[0] != "delay"@[0]);
    reveal_with_fuel(set_params, 3);
    assert(before.push(("state"@, state)).drop_last() =~= before);
    assert(before.push(("delay"@, delay)).drop_last() =~= before);
    assert(before.push(("state"@, state)).push(("delay"@, delay)).drop_last() =~= before.push(
        ("state"@, state),
    ));
    assert(before.push(("delay"@, delay)).push(("state"@, state)).drop_last() =~= before.push(
        ("delay"@, delay),
    ));
}

/// The first parameter that says neither a state nor a delay is told what is wrong with it,
/// whatever follows.
pub proof fn first_wrong_parameter_is_told(query: Seq<(Seq<char>, Seq<char>)>, i: int)
    requires
        0 <= i < query.len(),
        !says_state_or_delay(query[i]),
        forall|j: int| 0 <= j < i ==> says_state_or_delay(#[trigger] query[j]),
    ensures
        set_params(query) == Err::<(Option<SwitchState>, Option<u16>), ResponseView>(
            if query[i].0 == "state"@ {
                api_error(
                    "Invalid value for state parameter (must be 'on' or 'off'): "@ + query[i].1,
                    StatusCode::BadRequest,
                )
            } else if query[i].0 == "delay"@ {
                api_error(
                    "Invalid value for delay parameter (must be integer): "@ + query[i].1,
                    StatusCode::BadRequest,
                )
            } else {
                api_error("Unknown query parameter: "@ + query[i].0, StatusCode::NotFound)
            },
        ),
{
    let valid = query.take(i);
    let read = query.take(i + 1);
    assert forall|j: int| 0 <= j < valid.len() implies says_state_or_delay(#[trigger] valid[j]) by {
        assert(says_state_or_delay(query[j]));
    }
    states_and_delays_are_taken(valid);
    lemma_valid_params(query[i]);
    assert(read.drop_last() =~= valid);
    assert(read.last() == query[i]);
    refusal_stands(query, i + 1);
}

/// The last value of a parameter is the value of the last pair with its name.
pub proof fn last_value_is_the_last(query: Seq<(Seq<char>, Seq<char>)>, key: Seq<char>)
    ensures
        forall|i: int|
            0 <= i < query.len() && (#[trigger] query[i]).0 == key && (forall|j: int|
                i < j < query.len() ==> (#[trigger] query[j]).0 != key) ==> last_value(query, key)
                == Some(query[i].1),
        (forall|i: int| 0 <= i < query.len() ==> (#[trigger] query[i]).0 != key) ==> last_value(
            query,
            key,
        ) is None,
    decreases query.len(),
{
    if query.len() > 0 {
        let rest = query.drop_last();
        let last = query.len() - 1;
        last_value_is_the_last(rest, key);
        assert forall|i: int|
            0 <= i < query.len() && (#[trigger] query[i]).0 == key && (forall|j: int|
                i < j < query.len() ==> (#[trigger] query[j]).0 != key) implies last_value(
            query,
            key,
        ) == Some(query[i].1) by {
            if i < last {
                assert(query[last].0 != key);
                assert(rest[i] == query[i]);
                assert forall|j: int| i < j < rest.len() implies (#[trigger] rest[j]).0 != key by {
                    assert(query[j].0 != key);
                }
            }
        }
        if forall|i: int| 0 <= i < query.len() ==> (#[trigger] query[i]).0 != key {
            assert(query[last].0 != key);
            assert forall|i: int| 0 <= i < rest.len() implies (#[trigger] rest[i]).0 != key by {
                assert(query[i].0 != key);
            }
        }
    }
}

/// A GET request reads: the switch that its path names, the list of switches, or whether there is
/// a switch of the name that its query gives. Its query matters nowhere else.
pub proof fn get_requests_read(
    name: Seq<char>,
    more: Seq<Seq<char>>,
    query: Seq<(Seq<char>, Seq<char>)>,
)
    ensures
        api_step("GET"@, seq!["switch"@, name], query) == (ApiStepView::GetState {
            path_name: name,
            switch_name: spaces_resolved(name),
        }),
        api_step("GET"@, seq!["switches"@], query) is ListSwitches,
        api_step("GET"@, seq!["switch"@], query) is ListSwitchesOrFail,
        api_step("GET"@, Seq::empty(), query) == match last_value(query, "switch"@) {
            Some(switch_name) => ApiStepView::CheckSwitch { switch_name },
            None => ApiStepView::Done {
                resp: api_error("Only top level API URL provided"@, StatusCode::NotFound),
            },
        },
        more.len() > 0 ==> api_step("GET"@, seq!["switch"@, name] + more, query) == (
        ApiStepView::Done {
            resp: api_error("Unknown endpoint element: "@ + more[0], StatusCode::NotFound),
        }),
        api_step("GET"@, seq!["switches"@, name] + more, query) == (ApiStepView::Done {
            resp: api_error("Unknown endpoint element: "@ + name, StatusCode::NotFound),
        }),
        name != "switch"@ && name != "switches"@ ==> api_step("GET"@, seq![name] + more, query) == (
        ApiStepView::Done {
            resp: api_error("Unknown endpoint element: "@ + name, StatusCode::NotFound),
        }),
{
    lemma_words_differ();
    assert(seq!["switch"@, name].skip(1) =~= seq![name]);
    assert(seq!["switches"@].skip(1) =~= Seq::empty());
    assert(seq!["switch"@].skip(1) =~= Seq::empty());
    assert((seq!["switch"@, name] + more).skip(1) =~= seq![name] + more);
    assert((seq!["switches"@, name] + more).skip(1) =~= seq![name] + more);
    assert((seq![name] + more)[0] == name);
    if more.len() > 0 {
        assert((seq![name] + more)[1] == more[0]);
    }
}

/// A POST request sets the switch that its path names to the state that its parameters give, after
/// the delay that they give or at once; without a state, or with a path that names more or less, it
/// is refused.
pub proof fn post_requests_set(
    name: Seq<char>,
    more: Seq<Seq<char>>,
    query: Seq<(Seq<char>, Seq<char>)>,
)
    ensures
        api_step("POST"@, seq!["switch"@, name], query) == match set_params(query) {
            Err(resp) => ApiStepView::Done { resp },
            Ok((None, _)) => ApiStepView::Done {
                resp: api_error(
                    "Endpoint requires 'state' query parameter"@,
                    StatusCode::BadRequest,
                ),
            },
            Ok((Some(state), None)) => ApiStepView::SetState {
                path_name: name,
                switch_name: spaces_resolved(name),
                state,
                delay: 0,
            },
            Ok((Some(state), Some(delay))) => ApiStepView::SetState {
                path_name: name,
                switch_name: spaces_resolved(name),
                state,
                delay,
            },
        },
        api_step("POST"@, Seq::empty(), query) == (ApiStepView::Done {
            resp: api_error("Only top level API URL provided"@, StatusCode::NotFound),
        }),
        api_step("POST"@, seq!["switch"@], query) == (ApiStepView::Done {
            resp: api_error("Only top level API URL provided"@, StatusCode::NotFound),
        }),
        api_step("POST"@, seq!["switches"@] + more, query) == (ApiStepView::Done {
            resp: api_error("POST not allowed for /switches"@, StatusCode::MethodNotAllowed),
        }),
        more.len() > 0 ==> api_step("POST"@, seq!["switch"@, name] + more, query) == (
        ApiStepView::Done {
            resp: api_error("Unknown endpoint element: "@ + more[0], StatusCode::NotFound),
        }),
        name != "switch"@ && name != "switches"@ ==> api_step("POST"@, seq![name] + more, query)
            == (ApiStepView::Done {
            resp: api_error("Unknown endpoint element: "@ + name, StatusCode::NotFound),
        }),
{
    lemma_words_differ();
    assert(seq!["switch"@, name].skip(1) =~= seq![name]);
    assert(seq!["switch"@].skip(1) =~= Seq::empty());
    assert((seq!["switch"@, name] + more).skip(1) =~= seq![name] + more);
    assert((seq!["switches"@] + more)[0] == "switches"@);
    assert((seq![name] + more)[0] == name);
    if more.len() > 0 {
        assert((seq![name] + more)[1] == more[0]);
    }
}

/// The words that requests are told apart by differ.
proof fn lemma_words_differ()
    ensures
        "GET"@ != "POST"@,
        "switch"@ != "switches"@,
{
    reveal_strlit("GET");
    reveal_strlit("POST");
    reveal_strlit("switch");
    reveal_strlit("switches");
    assert("GET"@.len() != "POST"@.len());
    assert("switch"@.len() != "switches"@.len());
}

/// An error answer has the status that it is given, and its message stands between two texts that
/// are the same for all messages.
pub proof fn error_answers_carry_their_message(message: Seq<char>, status: StatusCode)
    ensures
        api_error(message, status).status == status,
        api_error(message, status).body
            == "{\"status\":\"error\",\"error_message\":\""@ + message + "\"}"@,
{
}

/// The answer about a switch names its state, or says that it is unknown, and says where the
/// network has not confirmed it; two answers are the same only where both are.
pub proof fn state_answers_tell_the_state(state: Option<SwitchState>, status: SwitchStatus)
    ensures
        state_answer(state, status).status == StatusCode::Success,
        state_answer(state, status).body == "{\"status\":\"success\",\"state\":\""@ + (if state
            == Some(SwitchState::On) {
            "on"@
        } else if state == Some(SwitchState::Off) {
            "off"@
        } else {
            "unknown"@
        }) + (if status == SwitchStatus::Transitioning {
            "\",\"transitioning\":\"true\"}"@
        } else {
            "\"}"@
        }),
{
    reveal_strlit("");
    reveal_strlit("}");
    reveal_strlit("\"");
    reveal_strlit("\"}");
    reveal_strlit(",\"state\":\"");
    reveal_strlit(",\"transitioning\":\"true\"");
    reveal_strlit("\",\"transitioning\":\"true\"}");
    reveal_strlit("{\"status\":\"success\"");
    reveal_strlit("{\"status\":\"success\",\"state\":\"");
    let name = if state == Some(SwitchState::On) {
        "on"@
    } else if state == Some(SwitchState::Off) {
        "off"@
    } else {
        "unknown"@
    };
    let body = state_answer(state, status).body;
    if status == SwitchStatus::Transitioning {
        assert(body =~= "{\"status\":\"success\",\"state\":\""@ + name
            + "\",\"transitioning\":\"true\"}"@);
    } else {
        assert(body =~= "{\"status\":\"success\",\"state\":\""@ + name + "\"}"@);
    }
}

/// A fault of the core is a bad request that names the switch as the path does, where the switch
/// is invalid, and an internal error with the fault's message in every other case.
pub proof fn faults_are_answered(path_name: Seq<char>, message: Seq<char>)
    ensures
        core_failure(
            path_name,
            CoreErrorView { message, error_type: BeelayCoreErrorType::InvalidSwitch },
        ) == api_error("Unknown switch name: "@ + path_name, StatusCode::BadRequest),
        core_failure(
            path_name,
            CoreErrorView { message, error_type: BeelayCoreErrorType::InternalError },
        ) == api_error(
            "Internal error: BeelayCoreError: "@ + message,
            StatusCode::InternalServerError,
        ),
{
    reveal_strlit("Internal error: ");
    reveal_strlit("BeelayCoreError: ");
    reveal_strlit("Internal error: BeelayCoreError: ");
    assert("Internal error: "@ + ("BeelayCoreError: "@ + message)
        =~= "Internal error: BeelayCoreError: "@ + message);
}

/// The answer that lists the switches holds the list and the table of names as they are, each
/// behind its member's name.
pub proof fn lists_are_answered(switches: Seq<char>, pretty_names: Seq<char>)
    ensures
        list_success(switches, pretty_names).status == StatusCode::Success,
        list_success(switches, pretty_names).body == "{\"switches\":"@ + switches
            + ",\"pretty_names\":"@ + pretty_names + "}"@,
{
}

/// Of two texts with an escaped space between them the escaped spaces are resolved each on its
/// own, and the one between them becomes a space.
pub proof fn escaped_spaces_are_resolved_one_by_one(a: Seq<char>, b: Seq<char>)
    ensures
        spaces_resolved(a + "%20"@ + b) == spaces_resolved(a) + " "@ + spaces_resolved(b),
        !occurs(a, "%20"@) ==> spaces_resolved(a) == a,
    decreases a.len(),
{
    reveal_strlit("%20");
    reveal_strlit(" ");
    let escape = "%20"@;
    let whole = a + escape + b;
    if !occurs(a, escape) {
        replacing_nothing_changes_nothing(a, escape, " "@);
    }
    if a.len() == 0 {
        assert(whole.take(3) =~= escape);
        assert(whole.skip(3) =~= b);
        assert(spaces_resolved(a) =~= Seq::empty());
        assert(Seq::<char>::empty() + " "@ + spaces_resolved(b) =~= " "@ + spaces_resolved(b));
    } else {
        if a.len() >= 3 && a.take(3) == escape {
            assert(whole.take(3) =~= a.take(3));
            assert(whole.skip(3) =~= a.skip(3) + escape + b);
            escaped_spaces_are_resolved_one_by_one(a.skip(3), b);
            assert(" "@ + (spaces_resolved(a.skip(3)) + " "@ + spaces_resolved(b)) =~= (" "@
                + spaces_resolved(a.skip(3))) + " "@ + spaces_resolved(b));
        } else {
            if whole.take(3) == escape {
                assert(whole[1] == whole.take(3)[1] && whole[2] == whole.take(3)[2]);
                if a.len() >= 3 {
                    assert(whole.take(3) =~= a.take(3));
                } else if a.len() == 1 {
                    assert(whole[1] == '%');
                } else {
                    assert(whole[2] == '%');
                }
            }
            assert(whole.skip(1) =~= a.skip(1) + escape + b);
            escaped_spaces_are_resolved_one_by_one(a.skip(1), b);
            if a.len() < 3 {
                lemma_short_is_unchanged(a);
                lemma_short_is_unchanged(a.skip(1));
                assert(seq![a[0]] + a.skip(1) =~= a);
            }
            assert(spaces_resolved(a) == seq![a[0]] + spaces_resolved(a.skip(1)));
            assert(seq![a[0]] + (spaces_resolved(a.skip(1)) + " "@ + spaces_resolved(b)) =~= (seq![
                a[0],
            ] + spaces_resolved(a.skip(1))) + " "@ + spaces_resolved(b));
        }
    }
}

/// A request that names an existing switch by a parameter is answered that nothing is served
/// there, and one that names another switch that there is no such switch.
pub proof fn switches_named_by_a_parameter_are_checked(
    name: Seq<char>,
    switches: Seq<Seq<char>>,
    i: int,
)
    ensures
        0 <= i < switches.len() && switches[i] == name ==> check_answer(name, switches) == (
        ResponseView {
            status: StatusCode::NotFound,
            body: "{\"status\":\"error\",\"error_message\":\""@ + "Only top level API URL provided"@
                + "\"}"@,
        }),
        (forall|j: int| 0 <= j < switches.len() ==> #[trigger] switches[j] != name)
            ==> check_answer(name, switches) == (ResponseView {
            status: StatusCode::BadRequest,
            body: "{\"error_msg\":\"Unknown switch name.\",\"status\":\"error\"}"@,
        }),
{
    error_answers_carry_their_message("Only top level API URL provided"@, StatusCode::NotFound);
}

/// The answer to a request that was served has the state where there is one, and says whether the
/// switch is changing where that is known.
pub proof fn served_answers_have_their_members(text: Seq<char>, changing: bool)
    ensures
        state_success(Some(text), Some(changing)).body
            == "{\"status\":\"success\",\"state\":\""@ + (text + (if changing {
            "\",\"transitioning\":\"true\"}"@
        } else {
            "\",\"transitioning\":\"false\"}"@
        })),
        state_success(Some(text), None).body == "{\"status\":\"success\",\"state\":\""@ + (text
            + "\"}"@),
        state_success(None, Some(changing)).body == (if changing {
            "{\"status\":\"success\",\"transitioning\":\"true\"}"@
        } else {
            "{\"status\":\"success\",\"transitioning\":\"false\"}"@
        }),
        state_success(None, None).body == "{\"status\":\"success\"}"@,
        state_success(Some(text), Some(changing)).status == StatusCode::Success,
        state_success(Some(text), None).status == StatusCode::Success,
        state_success(None, Some(changing)).status == StatusCode::Success,
        state_success(None, None).status == StatusCode::Success,
{
    reveal_strlit("");
    reveal_strlit("}");
    reveal_strlit("\"");
    reveal_strlit("\"}");
    reveal_strlit(",\"state\":\"");
    reveal_strlit("{\"status\":\"success\"");
    reveal_strlit("{\"status\":\"success\"}");
    reveal_strlit("{\"status\":\"success\",\"state\":\"");
    reveal_strlit(",\"transitioning\":\"true\"");
    reveal_strlit(",\"transitioning\":\"false\"");
    reveal_strlit("\",\"transitioning\":\"true\"}");
    reveal_strlit("\",\"transitioning\":\"false\"}");
    reveal_strlit("{\"status\":\"success\",\"transitioning\":\"true\"}");
    reveal_strlit("{\"status\":\"success\",\"transitioning\":\"false\"}");
    let opened = "{\"status\":\"success\""@;
    let member = transitioning_member(Some(changing));
    let before = "{\"status\":\"success\",\"state\":\""@;
    assert(opened + ",\"state\":\""@ =~= before);
    assert("\""@ + member + "}"@ =~= (if changing {
        "\",\"transitioning\":\"true\"}"@
    } else {
        "\",\"transitioning\":\"false\"}"@
    }));
    assert("\""@ + ""@ + "}"@ =~= "\"}"@);
    assert(state_success(Some(text), Some(changing)).body =~= before + (text + ("\""@ + member
        + "}"@)));
    assert(state_success(Some(text), None).body =~= before + (text + ("\""@ + ""@ + "}"@)));
    assert(opened + ""@ + member + "}"@ =~= (if changing {
        "{\"status\":\"success\",\"transitioning\":\"true\"}"@
    } else {
        "{\"status\":\"success\",\"transitioning\":\"false\"}"@
    }));
    assert(opened + ""@ + ""@ + "}"@ =~= "{\"status\":\"success\"}"@);
}

} // verus!
