//! The HTTP service: it takes requests apart and hands them to the API or the browser client.
use vstd::prelude::*;

use crate::api::{api_step, spaces_escaped, ApiStep, ApiStepView, BeelayApi};
use crate::common::{API_ELEM, CLIENT_ELEM, GENERIC_404_PAGE};
use crate::frontend::{client_answer, BeelayFrontend, FrontendView};
use crate::response::{generate_response, Response, ResponseView, StatusCode};
use crate::text::{
    copy_tail, decimal, decimal_text, join, optional_str, pair_texts, same_text, split,
    split_fields_hold_no_separator, split_has_a_field, split_text, split_undoes_join,
    text_without_separator_is_one_field, texts, texts_are_cut_at_a_separator,
};

verus! {

/// The elements of a path: what stands between its slashes, where anything does.
pub open spec fn path_elems(path: Seq<char>) -> Seq<Seq<char>> {
    split(path, '/').filter(|elem: Seq<char>| elem.len() > 0)
}

/// Takes a path apart into its elements.
pub fn parse_path_to_elems(path: &str) -> (r: Vec<String>)
    ensures
        texts(r@) == path_elems(path@),
{
    let fields = split_text(path, '/');
    let ghost parts = texts(fields@);
    let ghost kept = |elem: Seq<char>| elem.len() > 0;
    let mut elems: Vec<String> = Vec::new();
    let mut i: usize = 0;
    proof {
        reveal(Seq::filter);
        assert(parts.take(0).filter(kept) =~= Seq::empty());
        assert(texts(elems@) =~= Seq::empty());
    }
    while i < fields.len()
        invariant
            i <= fields@.len(),
            parts == texts(fields@),
            kept == (|elem: Seq<char>| elem.len() > 0),
            texts(elems@) == parts.take(i as int).filter(kept),
        decreases fields@.len() - i,
    {
        let ghost before = texts(elems@);
        proof {
            reveal(Seq::filter);
            assert(parts.take(i + 1).drop_last() =~= parts.take(i as int));
            assert(parts.take(i + 1).last() == fields@[i as int]@);
        }
        if !same_text(fields[i].as_str(), "") {
            proof {
                reveal_strlit("");
                assert(fields@[i as int]@.len() > 0) by {
                    if fields@[i as int]@.len() == 0 {
                        assert(fields@[i as int]@ =~= ""@);
                    }
                }
            }
            elems.push(fields[i].clone());
            assert(texts(elems@) =~= before.push(parts[i as int]));
        } else {
            proof {
                reveal_strlit("");
            }
        }
        i += 1;
    }
    assert(parts.take(i as int) =~= parts);
    elems
}

/// The pairs that `form_urlencoded::parse` finds in a text.
pub uninterp spec fn form_pairs(text: Seq<char>) -> Seq<(Seq<char>, Seq<char>)>;

/// Whether a text holds no character that has a meaning of its own in a query.
pub open spec fn is_plain(text: Seq<char>) -> bool {
    !text.contains('&') && !text.contains('=') && !text.contains('+') && !text.contains('%')
}

/// The query of a list of pairs: in each the name, `=` and the value, and `&` between each two
/// neighbours.
pub open spec fn query_of(pairs: Seq<(Seq<char>, Seq<char>)>) -> Seq<char> {
    join(pairs.map_values(|pair: (Seq<char>, Seq<char>)| pair.0 + "="@ + pair.1), "&"@)
}

/// A list of pairs with the spaces in them escaped.
pub open spec fn escaped_pairs(pairs: Seq<(Seq<char>, Seq<char>)>) -> Seq<(Seq<char>, Seq<char>)> {
    pairs.map_values(
        |pair: (Seq<char>, Seq<char>)| (spaces_escaped(pair.0), spaces_escaped(pair.1)),
    )
}

/// Whether a text writes down a list of plain pairs as a query, with the spaces in them as they
/// are or escaped.
pub open spec fn writes_query(text: Seq<char>, pairs: Seq<(Seq<char>, Seq<char>)>) -> bool {
    &&& forall|i: int|
        0 <= i < pairs.len() ==> is_plain((#[trigger] pairs[i]).0) && is_plain(pairs[i].1)
    &&& text == query_of(pairs) || text == query_of(escaped_pairs(pairs))
}

/// `form_urlencoded::parse` takes a query apart into the names and values of its pairs, with
/// their escapes resolved; what it finds depends on the text alone. In a text that writes down
/// plain pairs it finds just these pairs, in their order.
#[verifier::external_body]
fn parse_form(text: &str) -> (r: Vec<(String, String)>)
    ensures
        pair_texts(r@) == form_pairs(text@),
        forall|pairs: Seq<(Seq<char>, Seq<char>)>| #[trigger]
            writes_query(text@, pairs) ==> pair_texts(r@) == pairs,
{
    form_urlencoded::parse(text.as_bytes()).into_owned().collect()
}

/// The pairs of a query; a request without a query has none.
pub open spec fn query_pairs(query: Option<Seq<char>>) -> Seq<(Seq<char>, Seq<char>)> {
    match query {
        Some(text) => form_pairs(text),
        None => Seq::empty(),
    }
}

/// Takes the query of a request apart into its pairs.
pub fn parse_query_params_to_pairs(query_params: Option<&str>) -> (r: Vec<(String, String)>)
    ensures
        pair_texts(r@) == query_pairs(optional_str(query_params)),
        query_params matches Some(text) ==> forall|pairs: Seq<(Seq<char>, Seq<char>)>| #[trigger]
            writes_query(text@, pairs) ==> pair_texts(r@) == pairs,
{
    match query_params {
        Some(text) => parse_form(text),
        None => {
            let pairs: Vec<(String, String)> = Vec::new();
            assert(pair_texts(pairs@) =~= Seq::empty());
            pairs
        },
    }
}

/// What a request asks for.
pub enum ServiceStep {
    /// Send the answer.
    Done { resp: Response },
    /// Carry on with a step of the API.
    Api { step: ApiStep },
}

/// A step with its strings as characters.
pub enum ServiceStepView {
    Done { resp: ResponseView },
    Api { step: ApiStepView },
}

impl View for ServiceStep {
    type V = ServiceStepView;

    open spec fn view(&self) -> ServiceStepView {
        match self {
            ServiceStep::Done { resp } => ServiceStepView::Done { resp: resp@ },
            ServiceStep::Api { step } => ServiceStepView::Api { step: step@ },
        }
    }
}

/// What a request asks for, from its method, the elements of its path and the pairs of its
/// query.
pub open spec fn service_step(
    front: FrontendView,
    method: Seq<char>,
    path: Seq<Seq<char>>,
    query: Seq<(Seq<char>, Seq<char>)>,
) -> ServiceStepView {
    if path.len() > 0 && path[0] == API_ELEM@ {
        ServiceStepView::Api { step: api_step(method, path.skip(1), query) }
    } else if path.len() > 0 && path[0] == CLIENT_ELEM@ {
        ServiceStepView::Done { resp: client_answer(front, path.skip(1), query) }
    } else {
        ServiceStepView::Done {
            resp: ResponseView { status: StatusCode::NotFound, body: GENERIC_404_PAGE@ },
        }
    }
}

/// The answer to a request that the API gave up on.
pub open spec fn gave_up() -> ResponseView {
    ResponseView {
        status: StatusCode::InternalServerError,
        body: "{{\"status\":\"error\",\"error_message\":\"Internal error\"}}"@,
    }
}

/// Composes the answer to a request that the API gave up on.
pub fn generate_gave_up_response() -> (r: Response)
    ensures
        r@ == gave_up(),
{
    generate_response(
        "{{\"status\":\"error\",\"error_message\":\"Internal error\"}}",
        StatusCode::InternalServerError,
    )
}

/// The service: the API, the browser client, the address that it listens on, and whether it
/// takes further requests.
pub struct BeelayService {
    api: BeelayApi,
    frontend: BeelayFrontend,
    addr: String,
    should_run: bool,
}

impl BeelayService {
    /// The API.
    pub closed spec fn api(&self) -> BeelayApi {
        self.api
    }

    /// The browser client.
    pub closed spec fn frontend(&self) -> BeelayFrontend {
        self.frontend
    }

    /// The address that the service listens on.
    pub closed spec fn addr(&self) -> Seq<char> {
        self.addr@
    }

    /// Whether the service takes further requests.
    pub closed spec fn running(&self) -> bool {
        self.should_run
    }

    /// A service that listens on the given port of the given address.
    pub fn new(api: BeelayApi, frontend: BeelayFrontend, address: &str, port: &u16) -> (r:
        BeelayService)
        ensures
            r.api() == api,
            r.frontend() == frontend,
            r.addr() == address@ + ":"@ + decimal(*port as nat),
            r.running(),
    {
        let addr = address.to_owned().concat(":").concat(decimal_text(*port).as_str());
        BeelayService { api, frontend, addr, should_run: true }
    }

    /// The API.
    pub fn get_api(&self) -> (r: &BeelayApi)
        ensures
            *r == self.api(),
    {
        &self.api
    }

    /// The address that the service listens on.
    pub fn get_addr(&self) -> (r: &str)
        ensures
            r@ == self.addr(),
    {
        self.addr.as_str()
    }

    /// Whether the service takes further requests.
    pub fn is_running(&self) -> (r: bool)
        ensures
            r == self.running(),
    {
        self.should_run
    }

    /// Works out what a request asks for, from its method, the elements of its path and the
    /// pairs of its query.
    pub fn route(
        &self,
        method: &str,
        path: &Vec<String>,
        query_params: &Vec<(String, String)>,
    ) -> (r: ServiceStep)
        ensures
            r@ == service_step(
                self.frontend()@,
                method@,
                texts(path@),
                pair_texts(query_params@),
            ),
    {
        if path.len() == 0 {
            return ServiceStep::Done {
                resp: generate_response(GENERIC_404_PAGE, StatusCode::NotFound),
            };
        }
        assert(texts(path@)[0] == path@[0]@);
        if same_text(path[0].as_str(), API_ELEM) {
            let api_path = copy_tail(path);
            ServiceStep::Api { step: self.api.handle_hit(method, &api_path, query_params) }
        } else if same_text(path[0].as_str(), CLIENT_ELEM) {
            let client_path = copy_tail(path);
            ServiceStep::Done { resp: self.frontend.handle_hit(&client_path, query_params) }
        } else {
            ServiceStep::Done { resp: generate_response(GENERIC_404_PAGE, StatusCode::NotFound) }
        }
    }

    /// Works out what a request asks for, from its method, its path and its query.
    pub fn process_req(&self, method: &str, path: &str, query: Option<&str>) -> (r: ServiceStep)
        ensures
            r@ == service_step(
                self.frontend()@,
                method@,
                path_elems(path@),
                query_pairs(optional_str(query)),
            ),
            query matches Some(text) ==> forall|pairs: Seq<(Seq<char>, Seq<char>)>| #[trigger]
                writes_query(text@, pairs) ==> r@ == service_step(
                    self.frontend()@,
                    method@,
                    path_elems(path@),
                    pairs,
                ),
    {
        let path = parse_path_to_elems(path);
        let query_params = parse_query_params_to_pairs(query);
        self.route(method, &path, &query_params)
    }

    /// Has the service take no further requests.
    pub fn stop(&mut self)
        ensures
            final(self).api() == old(self).api(),
            final(self).frontend() == old(self).frontend(),
            final(self).addr() == old(self).addr(),
            !final(self).running(),
    {
        self.should_run = false;
    }
}

/// No element of a path is empty or holds a slash.
pub proof fn elements_are_whole(path: Seq<char>)
    ensures
        forall|i: int|
            0 <= i < path_elems(path).len() ==> (#[trigger] path_elems(path)[i]).len() > 0
                && !path_elems(path)[i].contains('/'),
{
    let parts = split(path, '/');
    let kept = |elem: Seq<char>| elem.len() > 0;
    split_fields_hold_no_separator(path, '/');
    assert forall|i: int| 0 <= i < path_elems(path).len() implies (#[trigger] path_elems(
        path,
    )[i]).len() > 0 && !path_elems(path)[i].contains('/') by {
        let elem = path_elems(path)[i];
        assert(parts.filter(kept).contains(elem));
        parts.lemma_filter_pred(kept, i);
        parts.lemma_filter_contains_rev(kept, elem);
        let k = choose|k: int| 0 <= k < parts.len() && parts[k] == elem;
        assert(!parts[k].contains('/'));
    }
}

/// A slash at the end of a path changes nothing.
pub proof fn trailing_slash_does_not_matter(path: Seq<char>)
    ensures
        path_elems(path.push('/')) == path_elems(path),
{
    reveal(Seq::filter);
    assert(path.push('/').drop_last() =~= path);
    assert(split(path.push('/'), '/').drop_last() =~= split(path, '/'));
}

/// A slash in front of a path changes nothing.
pub proof fn leading_slash_does_not_matter(path: Seq<char>)
    ensures
        path_elems(seq!['/'] + path) == path_elems(path),
{
    let kept = |elem: Seq<char>| elem.len() > 0;
    lemma_split_behind_slash(path);
    let first = seq![Seq::<char>::empty()];
    Seq::filter_distributes_over_add(first, split(path, '/'), kept);
    reveal_with_fuel(Seq::filter, 2);
    assert(first.drop_last() =~= Seq::empty());
    assert(first.filter(kept) =~= Seq::empty());
    assert(first.filter(kept) + split(path, '/').filter(kept) =~= split(path, '/').filter(kept));
}

/// A slash in front of a path puts an empty field in front of the others.
proof fn lemma_split_behind_slash(path: Seq<char>)
    ensures
        split(seq!['/'] + path, '/') == seq![Seq::<char>::empty()] + split(path, '/'),
    decreases path.len(),
{
    let whole = seq!['/'] + path;
    let first = seq![Seq::<char>::empty()];
    if path.len() == 0 {
        reveal_with_fuel(split, 2);
        assert(whole.drop_last() =~= Seq::empty());
        assert(split(whole, '/') =~= first + split(path, '/'));
    } else {
        lemma_split_behind_slash(path.drop_last());
        split_has_a_field(path.drop_last(), '/');
        assert(whole.drop_last() =~= seq!['/'] + path.drop_last());
        let before = split(path.drop_last(), '/');
        assert((first + before).drop_last() =~= first + before.drop_last());
        assert(split(whole, '/') =~= first + split(path, '/'));
    }
}

/// The elements of a path that is put together from elements are these elements.
pub proof fn elements_are_found_again(elems: Seq<Seq<char>>)
    requires
        forall|i: int|
            0 <= i < elems.len() ==> (#[trigger] elems[i]).len() > 0 && !elems[i].contains('/'),
    ensures
        path_elems(seq!['/'] + join(elems, seq!['/'])) == elems,
{
    let kept = |elem: Seq<char>| elem.len() > 0;
    leading_slash_does_not_matter(join(elems, seq!['/']));
    reveal(Seq::filter);
    if elems.len() == 0 {
        let nothing = Seq::<char>::empty();
        reveal_with_fuel(Seq::filter, 2);
        assert(split(nothing, '/').drop_last() =~= Seq::empty());
        assert(path_elems(nothing) =~= elems);
    } else {
        split_undoes_join(elems, '/');
        lemma_all_kept(elems);
    }
}

/// A list without an empty element is left as it is when the empty ones are taken out.
proof fn lemma_all_kept(elems: Seq<Seq<char>>)
    requires
        forall|i: int| 0 <= i < elems.len() ==> (#[trigger] elems[i]).len() > 0,
    ensures
        elems.filter(|elem: Seq<char>| elem.len() > 0) == elems,
    decreases elems.len(),
{
    reveal(Seq::filter);
    if elems.len() > 0 {
        lemma_all_kept(elems.drop_last());
        assert(elems[elems.len() - 1].len() > 0);
        assert(elems.drop_last().push(elems.last()) =~= elems);
    }
}

/// A path is taken apart at each of its slashes: its elements are those of what stands in front of
/// a slash and then those of what stands behind it. What holds no slash is an element itself,
/// unless it is empty.
pub proof fn paths_are_taken_apart_at_slashes(a: Seq<char>, b: Seq<char>)
    ensures
        path_elems(a + "/"@ + b) == path_elems(a) + path_elems(b),
        a.len() > 0 && !a.contains('/') ==> path_elems(a) == seq![a],
        a.len() == 0 ==> path_elems(a).len() == 0,
{
    let kept = |elem: Seq<char>| elem.len() > 0;
    reveal_strlit("/");
    assert(a + "/"@ + b =~= a.push('/') + b);
    texts_are_cut_at_a_separator(a, b, '/');
    Seq::filter_distributes_over_add(split(a, '/'), split(b, '/'), kept);
    reveal_with_fuel(Seq::filter, 2);
    if !a.contains('/') {
        text_without_separator_is_one_field(a, '/');
        assert(seq![a].drop_last() =~= Seq::empty());
        assert(Seq::<Seq<char>>::empty().push(a) =~= seq![a]);
    }
}

/// The first element of a path decides who serves a request, from the rest of the path: the API,
/// the browser client, or nobody.
pub proof fn requests_are_routed_by_their_first_element(
    front: FrontendView,
    method: Seq<char>,
    first: Seq<char>,
    rest: Seq<Seq<char>>,
    query: Seq<(Seq<char>, Seq<char>)>,
)
    ensures
        service_step(front, method, seq!["api"@] + rest, query) == (ServiceStepView::Api {
            step: api_step(method, rest, query),
        }),
        service_step(front, method, seq!["client"@] + rest, query) == (ServiceStepView::Done {
            resp: client_answer(front, rest, query),
        }),
        first != "api"@ && first != "client"@ ==> service_step(
            front,
            method,
            seq![first] + rest,
            query,
        ) == (ServiceStepView::Done {
            resp: ResponseView { status: StatusCode::NotFound, body: GENERIC_404_PAGE@ },
        }),
        service_step(front, method, Seq::empty(), query) == (ServiceStepView::Done {
            resp: ResponseView { status: StatusCode::NotFound, body: GENERIC_404_PAGE@ },
        }),
{
    reveal_strlit("api");
    reveal_strlit("client");
    assert("api"@.len() != "client"@.len());
    assert((seq!["api"@] + rest).skip(1) =~= rest);
    assert((seq!["client"@] + rest).skip(1) =~= rest);
    assert((seq![first] + rest)[0] == first);
}

/// A request that the API gave up on is answered as an internal error.
pub proof fn given_up_requests_are_told()
    ensures
        gave_up().status.number() == 500,
        gave_up().body == "{{\"status\":\"error\",\"error_message\":\"Internal error\"}}"@,
{
}

/// A text is plain where none of its characters has a meaning of its own in a query.
pub proof fn plain_texts_hold_no_marks(text: Seq<char>)
    ensures
        is_plain(text) <==> forall|i: int|
            0 <= i < text.len() ==> #[trigger] text[i] != '&' && text[i] != '=' && text[i] != '+'
                && text[i] != '%',
{
    if is_plain(text) {
        assert forall|i: int| 0 <= i < text.len() implies #[trigger] text[i] != '&' && text[i]
            != '=' && text[i] != '+' && text[i] != '%' by {
            assert(text.contains(text[i]));
        }
    }
}

} // verus!
