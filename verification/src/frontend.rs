//! The browser client: a page with a row of buttons for each switch, and its style sheet.
use indexmap::IndexMap;
use std::collections::VecDeque;
use vstd::hash_map::StringHashMap;
use vstd::prelude::*;

use crate::assets::{CSS_MAIN, HTML_BUTTON_ELEM_TEMPLATE, HTML_GUI_TEMPLATE};
use crate::common::{
    SwitchState, GENERIC_404_PAGE, PATH_CSS_DIR, PATH_CSS_MAIN_FILE, PATH_CSS_MAIN_PATH,
};
use crate::pretty_names::{label_of, pretty_label};
use crate::response::{generate_response, Response, ResponseView, StatusCode};
use crate::text::{
    front_without_occurrence_is_kept, join, join_texts, lists_are_joined_piece_by_piece, lowercase,
    lowercase_text, names_differ, occurs, occurs_at, pair_texts, path_queue, queue_texts,
    replace_text, replaced, replacing_nothing_changes_nothing, same_text, texts,
};

verus! {

/// The answer to a request for something that the client does not have.
pub open spec fn not_found() -> ResponseView {
    ResponseView { status: StatusCode::NotFound, body: GENERIC_404_PAGE@ }
}

/// Composes the answer to a request for something that the client does not have.
pub fn generate_not_found_response() -> (r: Response)
    ensures
        r@ == not_found(),
{
    generate_response(GENERIC_404_PAGE, StatusCode::NotFound)
}

/// The answer that hands out a page or a style sheet.
pub open spec fn found(html: Seq<char>) -> ResponseView {
    ResponseView { status: StatusCode::Success, body: html }
}

/// Composes the answer that hands out a page or a style sheet.
pub fn generate_frontend_response(html: &str) -> (r: Response)
    ensures
        r@ == found(html@),
{
    generate_response(html, StatusCode::Success)
}

/// How a tag is written in a template.
pub open spec fn tag_text(tag: Seq<char>) -> Seq<char> {
    "{{{"@ + tag + "}}}"@
}

/// A template with the tags of a list filled in, one after the other.
pub open spec fn filled(template: Seq<char>, subs: Seq<(Seq<char>, Seq<char>)>) -> Seq<char>
    decreases subs.len(),
{
    if subs.len() == 0 {
        template
    } else {
        replaced(filled(template, subs.drop_last()), tag_text(subs.last().0), subs.last().1)
    }
}

/// Fills in the tags of a template, one after the other.
pub fn process_template(template: &str, sub_map: &Vec<(String, String)>) -> (r: String)
    ensures
        r@ == filled(template@, pair_texts(sub_map@)),
{
    let ghost subs = pair_texts(sub_map@);
    let mut output = template.to_owned();
    let mut i: usize = 0;
    while i < sub_map.len()
        invariant
            i <= sub_map@.len(),
            subs == pair_texts(sub_map@),
            output@ == filled(template@, subs.take(i as int)),
        decreases sub_map@.len() - i,
    {
        let tag = "{{{".to_owned().concat(sub_map[i].0.as_str()).concat("}}}");
        proof {
            reveal_strlit("{{{");
            assert(subs.take(i + 1).drop_last() =~= subs.take(i as int));
            assert(subs.take(i + 1).last() == (sub_map@[i as int].0@, sub_map@[i as int].1@));
        }
        output = replace_text(output.as_str(), tag.as_str(), sub_map[i].1.as_str());
        i += 1;
    }
    assert(subs.take(i as int) =~= subs);
    output
}

/// The tags of the page and what they are filled with.
pub open spec fn gui_subs(
    status: Seq<char>,
    buttons: Seq<char>,
    css_path: Seq<char>,
) -> Seq<(Seq<char>, Seq<char>)> {
    seq![("status"@, status), ("buttons"@, buttons), ("css_path"@, css_path)]
}

/// The page with its tags filled in.
pub open spec fn gui_page(
    status: Seq<char>,
    buttons: Seq<char>,
    css_path: Seq<char>,
) -> Seq<char> {
    filled(HTML_GUI_TEMPLATE@, gui_subs(status, buttons, css_path))
}

/// Fills in the tags of the page.
pub fn process_gui_template(status: &str, buttons: &str, css_path: &str) -> (r: String)
    ensures
        r@ == gui_page(status@, buttons@, css_path@),
{
    let mut sub_map: Vec<(String, String)> = Vec::new();
    sub_map.push(("status".to_owned(), status.to_owned()));
    sub_map.push(("buttons".to_owned(), buttons.to_owned()));
    sub_map.push(("css_path".to_owned(), css_path.to_owned()));
    assert(pair_texts(sub_map@) =~= gui_subs(status@, buttons@, css_path@));
    process_template(HTML_GUI_TEMPLATE, &sub_map)
}

/// The tags of the part of the page for one switch and what they are filled with.
pub open spec fn button_subs(
    id: Seq<char>,
    label: Seq<char>,
    post_on_url: Seq<char>,
    post_off_url: Seq<char>,
    get_url: Seq<char>,
) -> Seq<(Seq<char>, Seq<char>)> {
    seq![
        ("id"@, id),
        ("label"@, label),
        ("post_on_url"@, post_on_url),
        ("post_off_url"@, post_off_url),
        ("get_url"@, get_url),
    ]
}

/// The part of the page for one switch with its tags filled in.
pub open spec fn button_elem(
    id: Seq<char>,
    label: Seq<char>,
    post_on_url: Seq<char>,
    post_off_url: Seq<char>,
    get_url: Seq<char>,
) -> Seq<char> {
    filled(
        HTML_BUTTON_ELEM_TEMPLATE@,
        button_subs(id, label, post_on_url, post_off_url, get_url),
    )
}

/// Fills in the tags of the part of the page for one switch.
pub fn process_button_template(
    id: &str,
    label: &str,
    post_on_url: &str,
    post_off_url: &str,
    get_url: &str,
) -> (r: String)
    ensures
        r@ == button_elem(id@, label@, post_on_url@, post_off_url@, get_url@),
{
    let mut sub_map: Vec<(String, String)> = Vec::new();
    sub_map.push(("id".to_owned(), id.to_owned()));
    sub_map.push(("label".to_owned(), label.to_owned()));
    sub_map.push(("post_on_url".to_owned(), post_on_url.to_owned()));
    sub_map.push(("post_off_url".to_owned(), post_off_url.to_owned()));
    sub_map.push(("get_url".to_owned(), get_url.to_owned()));
    assert(pair_texts(sub_map@) =~= button_subs(
        id@,
        label@,
        post_on_url@,
        post_off_url@,
        get_url@,
    ));
    process_template(HTML_BUTTON_ELEM_TEMPLATE, &sub_map)
}

/// The part of the page for a switch: its id is its name with underscores for spaces and small
/// letters for capital ones.
pub open spec fn switch_button(
    name: Seq<char>,
    pretty_map: Option<IndexMap<String, String>>,
) -> Seq<char> {
    button_elem(
        lowercase(replaced(name, " "@, "_"@)),
        label_of(pretty_map, name),
        "/api/switch/"@ + name + "/?state=on"@,
        "/api/switch/"@ + name + "/?state=off"@,
        "/api/switch/"@ + name,
    )
}

/// The parts of the page for a list of switches, one below the other.
pub open spec fn switch_buttons(
    names: Seq<Seq<char>>,
    pretty_map: Option<IndexMap<String, String>>,
) -> Seq<char> {
    join(names.map_values(|name: Seq<char>| switch_button(name, pretty_map)), "\n"@)
}

/// Composes the parts of the page for a list of switches.
pub fn process_buttons(
    switch_names: &Vec<String>,
    pretty_map: &Option<IndexMap<String, String>>,
) -> (r: String)
    ensures
        r@ == switch_buttons(texts(switch_names@), *pretty_map),
{
    let ghost elems = texts(switch_names@).map_values(
        |name: Seq<char>| switch_button(name, *pretty_map),
    );
    let mut button_elems: Vec<String> = Vec::new();
    let mut i: usize = 0;
    while i < switch_names.len()
        invariant
            i <= switch_names@.len(),
            elems == texts(switch_names@).map_values(
                |name: Seq<char>| switch_button(name, *pretty_map),
            ),
            texts(button_elems@) == elems.take(i as int),
        decreases switch_names@.len() - i,
    {
        let ghost before = texts(button_elems@);
        let switch_name = switch_names[i].as_str();
        proof {
            reveal_strlit(" ");
        }
        let id = lowercase_text(replace_text(switch_name, " ", "_").as_str());
        let post_on_url = "/api/switch/".to_owned().concat(switch_name).concat("/?state=on");
        let post_off_url = "/api/switch/".to_owned().concat(switch_name).concat("/?state=off");
        let get_url = "/api/switch/".to_owned().concat(switch_name);
        let label = pretty_label(pretty_map, switch_name);
        button_elems.push(
            process_button_template(
                id.as_str(),
                label.as_str(),
                post_on_url.as_str(),
                post_off_url.as_str(),
                get_url.as_str(),
            ),
        );
        assert(texts(button_elems@) =~= before.push(elems[i as int]));
        assert(texts(button_elems@) =~= elems.take(i + 1));
        i += 1;
    }
    assert(elems.take(i as int) =~= elems);
    join_texts(&button_elems, "\n")
}

/// The page for a list of switches.
pub open spec fn switch_page(
    names: Seq<Seq<char>>,
    pretty_map: Option<IndexMap<String, String>>,
) -> Seq<char> {
    gui_page(""@, switch_buttons(names, pretty_map), PATH_CSS_MAIN_PATH@)
}

/// Composes the page for a list of switches.
fn build_page(switch_names: &Vec<String>, pretty_map: &Option<IndexMap<String, String>>) -> (r:
    String)
    ensures
        r@ == switch_page(texts(switch_names@), *pretty_map),
{
    let buttons = process_buttons(switch_names, pretty_map);
    process_gui_template("", buttons.as_str(), PATH_CSS_MAIN_PATH)
}

/// The filters with their strings as characters: the name of each, and the switches that it
/// lets through.
pub open spec fn filter_texts(filters: Seq<(String, Vec<String>)>) -> Seq<
    (Seq<char>, Seq<Seq<char>>),
> {
    filters.map_values(|filter: (String, Vec<String>)| (filter.0@, texts(filter.1@)))
}

/// The page of each filter; of two filters with the same name the later one counts.
pub open spec fn filter_pages(
    filters: Seq<(Seq<char>, Seq<Seq<char>>)>,
    pretty_map: Option<IndexMap<String, String>>,
) -> Map<Seq<char>, Seq<char>>
    decreases filters.len(),
{
    if filters.len() == 0 {
        Map::empty()
    } else {
        filter_pages(filters.drop_last(), pretty_map).insert(
            filters.last().0,
            switch_page(filters.last().1, pretty_map),
        )
    }
}

/// The browser client: the page for all switches, and a page for each filter.
pub struct BeelayFrontend {
    default_frontend_body: String,
    filtered_frontend_body_map: StringHashMap<String>,
}

/// The browser client with its pages as characters.
#[verifier::ext_equal]
pub struct FrontendView {
    pub default_page: Seq<char>,
    pub filtered_pages: Map<Seq<char>, Seq<char>>,
}

impl View for BeelayFrontend {
    type V = FrontendView;

    closed spec fn view(&self) -> FrontendView {
        FrontendView {
            default_page: self.default_frontend_body@,
            filtered_pages: self.filtered_frontend_body_map@.map_values(|page: String| page@),
        }
    }
}

/// Whether a parameter asks for a filter that does not exist.
pub open spec fn asks_unknown_filter(front: FrontendView, param: (Seq<char>, Seq<char>)) -> bool {
    param.0 == "filter"@ && !front.filtered_pages.contains_key(param.1)
}

/// The answer to a request for a style sheet, from the path below the style sheets.
pub open spec fn css_answer(sub_path: Seq<Seq<char>>) -> ResponseView {
    if sub_path.len() > 0 && sub_path[0] == PATH_CSS_MAIN_FILE@ {
        found(CSS_MAIN@)
    } else {
        not_found()
    }
}

/// The answer to a request for the client, from the path below the client and the query: the
/// style sheet, or the page for all switches, unless a filter is asked for that does not exist.
pub open spec fn client_answer(
    front: FrontendView,
    sub_path: Seq<Seq<char>>,
    query: Seq<(Seq<char>, Seq<char>)>,
) -> ResponseView {
    if sub_path.len() > 0 {
        if sub_path[0] == PATH_CSS_DIR@ {
            css_answer(sub_path.skip(1))
        } else {
            not_found()
        }
    } else if exists|i: int|
        0 <= i < query.len() && asks_unknown_filter(front, #[trigger] query[i]) {
        not_found()
    } else {
        found(front.default_page)
    }
}

impl BeelayFrontend {
    /// Composes the pages for the given switches and filters.
    pub fn new(
        switch_names: &Vec<String>,
        pretty_map: &Option<IndexMap<String, String>>,
        filter_map: &Vec<(String, Vec<String>)>,
    ) -> (r: BeelayFrontend)
        ensures
            r@ == (FrontendView {
                default_page: switch_page(texts(switch_names@), *pretty_map),
                filtered_pages: filter_pages(filter_texts(filter_map@), *pretty_map),
            }),
    {
        let ghost filters = filter_texts(filter_map@);
        let mut filtered_bodies: StringHashMap<String> = StringHashMap::new();
        assert(filtered_bodies@.map_values(|page: String| page@) =~= Map::empty());
        let mut i: usize = 0;
        while i < filter_map.len()
            invariant
                i <= filter_map@.len(),
                filters == filter_texts(filter_map@),
                filtered_bodies@.map_values(|page: String| page@) == filter_pages(
                    filters.take(i as int),
                    *pretty_map,
                ),
            decreases filter_map@.len() - i,
        {
            let ghost before = filtered_bodies@;
            let body = build_page(&filter_map[i].1, pretty_map);
            proof {
                assert(filters.take(i + 1).drop_last() =~= filters.take(i as int));
                assert(filters.take(i + 1).last() == (
                    filter_map@[i as int].0@,
                    texts(filter_map@[i as int].1@),
                ));
                assert(before.insert(filter_map@[i as int].0@, body).map_values(
                    |page: String| page@,
                ) =~= before.map_values(|page: String| page@).insert(
                    filter_map@[i as int].0@,
                    body@,
                ));
            }
            filtered_bodies.insert(filter_map[i].0.clone(), body);
            i += 1;
        }
        assert(filters.take(i as int) =~= filters);
        BeelayFrontend {
            default_frontend_body: build_page(switch_names, pretty_map),
            filtered_frontend_body_map: filtered_bodies,
        }
    }

    /// Answers a request for the client.
    pub fn handle_hit(
        &self,
        gui_sub_path: &Vec<String>,
        query_params: &Vec<(String, String)>,
    ) -> (r: Response)
        ensures
            r@ == client_answer(self@, texts(gui_sub_path@), pair_texts(query_params@)),
    {
        let mut sub_path = path_queue(gui_sub_path);
        let ghost path = queue_texts(sub_path@);
        let ghost query = pair_texts(query_params@);
        match sub_path.pop_front() {
            Some(sub_elem) => {
                proof {
                    assert(path[0] == sub_elem@);
                    assert(queue_texts(sub_path@) =~= path.skip(1));
                }
                if same_text(sub_elem.as_str(), PATH_CSS_DIR) {
                    self.handle_css_req(&mut sub_path)
                } else {
                    generate_not_found_response()
                }
            },
            None => {
                let mut i: usize = 0;
                while i < query_params.len()
                    invariant
                        i <= query_params@.len(),
                        query == pair_texts(query_params@),
                        path == texts(gui_sub_path@),
                        path.len() == 0,
                        forall|j: int|
                            0 <= j < i ==> !asks_unknown_filter(self@, #[trigger] query[j]),
                    decreases query_params@.len() - i,
                {
                    assert(query[i as int] == (
                        query_params@[i as int].0@,
                        query_params@[i as int].1@,
                    ));
                    if same_text(query_params[i].0.as_str(), "filter")
                        && !self.filtered_frontend_body_map.contains_key(
                        query_params[i].1.as_str(),
                    ) {
                        assert(asks_unknown_filter(self@, query[i as int]));
                        return generate_not_found_response();
                    }
                    i += 1;
                }
                generate_frontend_response(self.default_frontend_body.as_str())
            },
        }
    }

    /// Answers a request for a style sheet, from the path below the style sheets, whose first
    /// element it takes.
    fn handle_css_req(&self, gui_sub_path: &mut VecDeque<&String>) -> (r: Response)
        ensures
            r@ == css_answer(queue_texts(old(gui_sub_path)@)),
    {
        let ghost path = queue_texts(gui_sub_path@);
        match gui_sub_path.pop_front() {
            Some(sub_elem) => {
                assert(path[0] == sub_elem@);
                if same_text(sub_elem.as_str(), PATH_CSS_MAIN_FILE) {
                    generate_frontend_response(CSS_MAIN)
                } else {
                    generate_not_found_response()
                }
            },
            None => generate_not_found_response(),
        }
    }
}

/// A template that holds none of the tags of a list is left as it is when they are filled in.
pub proof fn template_without_tags_is_unchanged(
    template: Seq<char>,
    subs: Seq<(Seq<char>, Seq<char>)>,
)
    requires
        forall|i: int| 0 <= i < subs.len() ==> !occurs(template, tag_text(#[trigger] subs[i].0)),
    ensures
        filled(template, subs) == template,
    decreases subs.len(),
{
    if subs.len() > 0 {
        let rest = subs.drop_last();
        assert forall|i: int| 0 <= i < rest.len() implies !occurs(
            template,
            tag_text(#[trigger] rest[i].0),
        ) by {
            assert(rest[i].0 == subs[i].0);
        }
        template_without_tags_is_unchanged(template, rest);
        assert(!occurs(template, tag_text(subs[subs.len() - 1].0)));
        replacing_nothing_changes_nothing(template, tag_text(subs.last().0), subs.last().1);
    }
}

/// The page for all switches answers every request for the client that names nothing below it
/// and asks for no filter.
pub proof fn page_is_always_there(front: FrontendView, query: Seq<(Seq<char>, Seq<char>)>)
    requires
        forall|i: int| 0 <= i < query.len() ==> (#[trigger] query[i]).0 != "filter"@,
    ensures
        client_answer(front, Seq::empty(), query) == found(front.default_page),
{
}

/// No tag of the page, nor of the part for one switch, is filled in twice.
pub proof fn tags_differ(
    status: Seq<char>,
    buttons: Seq<char>,
    css_path: Seq<char>,
    id: Seq<char>,
    label: Seq<char>,
    post_on_url: Seq<char>,
    post_off_url: Seq<char>,
    get_url: Seq<char>,
)
    ensures
        names_differ(gui_subs(status, buttons, css_path)),
        names_differ(button_subs(id, label, post_on_url, post_off_url, get_url)),
{
    reveal_strlit("status");
    reveal_strlit("buttons");
    reveal_strlit("css_path");
    assert("status"@.len() == 6 && "buttons"@.len() == 7 && "css_path"@.len() == 8);
    reveal_strlit("id");
    reveal_strlit("label");
    reveal_strlit("post_on_url");
    reveal_strlit("post_off_url");
    reveal_strlit("get_url");
    assert("id"@.len() == 2 && "label"@.len() == 5 && "get_url"@.len() == 7);
    assert("post_on_url"@.len() == 11 && "post_off_url"@.len() == 12);
}

/// Where no two filters have the same name, each filter has the page for its own switches, and
/// nothing else has a page.
pub proof fn each_filter_has_its_page(
    filters: Seq<(Seq<char>, Seq<Seq<char>>)>,
    pretty_map: Option<IndexMap<String, String>>,
)
    requires
        names_differ(filters),
    ensures
        forall|i: int|
            0 <= i < filters.len() ==> {
                &&& filter_pages(filters, pretty_map).contains_key((#[trigger] filters[i]).0)
                &&& filter_pages(filters, pretty_map)[filters[i].0] == switch_page(
                    filters[i].1,
                    pretty_map,
                )
            },
        forall|name: Seq<char>| #[trigger]
            filter_pages(filters, pretty_map).contains_key(name) ==> exists|i: int|
                0 <= i < filters.len() && (#[trigger] filters[i]).0 == name,
    decreases filters.len(),
{
    if filters.len() > 0 {
        let rest = filters.drop_last();
        let last = filters.len() - 1;
        assert forall|i: int, j: int| 0 <= i < j < rest.len() implies (#[trigger] rest[i]).0 != (
        #[trigger] rest[j]).0 by {
            assert(filters[i].0 != filters[j].0);
        }
        each_filter_has_its_page(rest, pretty_map);
        let pages = filter_pages(filters, pretty_map);
        assert forall|i: int| 0 <= i < filters.len() implies {
            &&& pages.contains_key((#[trigger] filters[i]).0)
            &&& pages[filters[i].0] == switch_page(filters[i].1, pretty_map)
        } by {
            if i < last {
                assert(rest[i] == filters[i]);
                assert(filters[i].0 != filters[last].0);
            }
        }
        assert forall|name: Seq<char>| #[trigger] pages.contains_key(name) implies exists|i: int|
            0 <= i < filters.len() && (#[trigger] filters[i]).0 == name by {
            if name == filters.last().0 {
                assert(filters[last].0 == name);
            } else {
                assert(filter_pages(rest, pretty_map).contains_key(name));
                let i = choose|i: int| 0 <= i < rest.len() && (#[trigger] rest[i]).0 == name;
                assert(filters[i].0 == name);
            }
        }
    }
}

/// A part of a template: text that stays, or a tag that is filled in.
pub enum TemplatePart {
    Plain(Seq<char>),
    Tag(Seq<char>),
}

/// Whether a text cannot be taken for the beginning of a tag: it holds no three opening braces in
/// a row and does not end in one.
pub open spec fn is_no_tag(text: Seq<char>) -> bool {
    !occurs(text, "{{{"@) && (text.len() > 0 ==> text.last() != '{')
}

/// Whether a name can stand in a tag: it holds no brace.
pub open spec fn is_tag_name(name: Seq<char>) -> bool {
    !name.contains('{') && !name.contains('}')
}

/// Whether the parts of a template can be told apart.
pub open spec fn are_parts(parts: Seq<TemplatePart>) -> bool {
    forall|i: int|
        0 <= i < parts.len() ==> match #[trigger] parts[i] {
            TemplatePart::Plain(text) => is_no_tag(text),
            TemplatePart::Tag(name) => is_tag_name(name),
        }
}

/// A part with a value for some of the tags: a tag without one stays as it is written.
pub open spec fn part_text(part: TemplatePart, values: Map<Seq<char>, Seq<char>>) -> Seq<char> {
    match part {
        TemplatePart::Plain(text) => text,
        TemplatePart::Tag(name) => if values.contains_key(name) {
            values[name]
        } else {
            "{{{"@ + name + "}}}"@
        },
    }
}

/// The parts of a template one after the other, with a value for some of the tags.
pub open spec fn parts_text(
    parts: Seq<TemplatePart>,
    values: Map<Seq<char>, Seq<char>>,
) -> Seq<char>
    decreases parts.len(),
{
    if parts.len() == 0 {
        Seq::empty()
    } else {
        part_text(parts[0], values) + parts_text(parts.skip(1), values)
    }
}

/// The characters of a tag.
proof fn lemma_tag_chars(tag: Seq<char>)
    ensures
        tag_text(tag).len() == tag.len() + 6,
        tag_text(tag)[0] == '{' && tag_text(tag)[1] == '{' && tag_text(tag)[2] == '{',
        forall|k: int| 3 <= k < 3 + tag.len() ==> #[trigger] tag_text(tag)[k] == tag[k - 3],
        forall|k: int|
            3 + tag.len() <= k < 6 + tag.len() ==> #[trigger] tag_text(tag)[k] == '}',
{
    reveal_strlit("{{{");
    reveal_strlit("}}}");
}

/// Text that is no tag is kept when a tag behind it is filled in.
proof fn lemma_plain_is_kept(text: Seq<char>, rest: Seq<char>, tag: Seq<char>, value: Seq<char>)
    requires
        is_no_tag(text),
    ensures
        replaced(text + rest, tag_text(tag), value) == text + replaced(rest, tag_text(tag), value),
{
    let whole = text + rest;
    let from = tag_text(tag);
    lemma_tag_chars(tag);
    reveal_strlit("{{{");
    assert forall|j: int| 0 <= j < text.len() implies !occurs_at(whole, from, j) by {
        if occurs_at(whole, from, j) {
            let there = whole.subrange(j, j + from.len());
            assert(whole[j] == there[0] && whole[j + 1] == there[1] && whole[j + 2] == there[2]);
            if j + 3 <= text.len() {
                assert(text.subrange(j, j + 3) =~= "{{{"@);
                assert(occurs_at(text, "{{{"@, j));
            } else {
                assert(whole[text.len() - 1] == text.last());
            }
        }
    }
    front_without_occurrence_is_kept(whole, from, value, text.len() as int);
    assert(whole.take(text.len() as int) =~= text);
    assert(whole.skip(text.len() as int) =~= rest);
}

/// Another tag is written neither at the beginning of a tag nor further on in it.
proof fn lemma_tag_holds_no_other(name: Seq<char>, rest: Seq<char>, tag: Seq<char>, at: int)
    requires
        is_tag_name(name),
        is_tag_name(tag),
        name != tag,
        0 <= at < tag_text(name).len(),
    ensures
        !occurs_at(tag_text(name) + rest, tag_text(tag), at),
{
    let written = tag_text(name);
    let from = tag_text(tag);
    let whole = written + rest;
    let n = name.len() as int;
    let t = tag.len() as int;
    lemma_tag_chars(tag);
    lemma_tag_chars(name);
    assert forall|k: int| 0 <= k < n implies name[k] != '{' && name[k] != '}' by {
        assert(name.contains(name[k]));
    }
    assert forall|k: int| 0 <= k < t implies tag[k] != '{' && tag[k] != '}' by {
        assert(tag.contains(tag[k]));
    }
    if occurs_at(whole, from, at) {
        assert forall|k: int|
            0 <= k < from.len() && at + k < written.len() implies #[trigger] from[k] == written[at
            + k] by {
            assert(whole.subrange(at, at + from.len())[k] == whole[at + k]);
        }
        if at == 0 {
            if n < t {
                assert(from[3 + n] == written[at + (3 + n)]);
            } else if t < n {
                assert(from[3 + t] == written[at + (3 + t)]);
            } else {
                assert forall|k: int| 0 <= k < n implies name[k] == tag[k] by {
                    assert(from[3 + k] == written[at + (3 + k)]);
                }
                assert(name =~= tag);
            }
        } else if at < 3 {
            assert(from[3 - at] == written[at + (3 - at)]);
            assert(from[2] == '{' && from[1] == '{');
        } else {
            assert(from[0] == written[at + 0]);
        }
    }
}

/// A tag is kept when another one is filled in, and replaced when it is filled in itself.
proof fn lemma_tag_is_filled(name: Seq<char>, rest: Seq<char>, tag: Seq<char>, value: Seq<char>)
    requires
        is_tag_name(name),
        is_tag_name(tag),
    ensures
        name != tag ==> replaced(tag_text(name) + rest, tag_text(tag), value) == tag_text(name)
            + replaced(rest, tag_text(tag), value),
        name == tag ==> replaced(tag_text(name) + rest, tag_text(tag), value) == value + replaced(
            rest,
            tag_text(tag),
            value,
        ),
{
    let written = tag_text(name);
    let whole = written + rest;
    let from = tag_text(tag);
    lemma_tag_chars(tag);
    assert(whole.take(written.len() as int) =~= written);
    assert(whole.skip(written.len() as int) =~= rest);
    if name != tag {
        assert forall|j: int| 0 <= j < written.len() implies !occurs_at(whole, from, j) by {
            lemma_tag_holds_no_other(name, rest, tag, j);
        }
        front_without_occurrence_is_kept(whole, from, value, written.len() as int);
    }
}

/// Filling in a tag that has no value yet gives it its value wherever it stands, and leaves
/// everything else as it is.
proof fn lemma_tag_gets_its_value(
    parts: Seq<TemplatePart>,
    values: Map<Seq<char>, Seq<char>>,
    tag: Seq<char>,
    value: Seq<char>,
)
    requires
        are_parts(parts),
        is_tag_name(tag),
        !values.contains_key(tag),
        forall|name: Seq<char>| #[trigger] values.contains_key(name) ==> is_no_tag(values[name]),
    ensures
        replaced(parts_text(parts, values), tag_text(tag), value) == parts_text(
            parts,
            values.insert(tag, value),
        ),
    decreases parts.len(),
{
    lemma_tag_chars(tag);
    if parts.len() > 0 {
        let rest = parts.skip(1);
        assert(match parts[0] {
            TemplatePart::Plain(text) => is_no_tag(text),
            TemplatePart::Tag(name) => is_tag_name(name),
        });
        assert forall|i: int| 0 <= i < rest.len() implies match #[trigger] rest[i] {
            TemplatePart::Plain(text) => is_no_tag(text),
            TemplatePart::Tag(name) => is_tag_name(name),
        } by {
            assert(rest[i] == parts[i + 1]);
        }
        lemma_tag_gets_its_value(rest, values, tag, value);
        let behind = parts_text(rest, values);
        match parts[0] {
            TemplatePart::Plain(text) => {
                lemma_plain_is_kept(text, behind, tag, value);
            },
            TemplatePart::Tag(name) => {
                if values.contains_key(name) {
                    lemma_plain_is_kept(values[name], behind, tag, value);
                } else {
                    lemma_tag_is_filled(name, behind, tag, value);
                }
            },
        }
    }
}

/// Filling in a template gives every tag of the list its value wherever the tag stands, leaves a
/// tag that the list does not have as it is written, and changes nothing else. The values must not
/// be taken for tags themselves.
pub proof fn templates_are_filled_in(
    parts: Seq<TemplatePart>,
    subs: Seq<(Seq<char>, Seq<char>)>,
    values: Map<Seq<char>, Seq<char>>,
)
    requires
        are_parts(parts),
        names_differ(subs),
        forall|i: int|
            0 <= i < subs.len() ==> is_tag_name((#[trigger] subs[i]).0) && is_no_tag(subs[i].1),
        forall|i: int|
            0 <= i < subs.len() ==> values.contains_key((#[trigger] subs[i]).0)
                && values[subs[i].0] == subs[i].1,
        forall|name: Seq<char>| #[trigger]
            values.contains_key(name) ==> exists|i: int|
                0 <= i < subs.len() && (#[trigger] subs[i]).0 == name,
    ensures
        filled(parts_text(parts, Map::empty()), subs) == parts_text(parts, values),
    decreases subs.len(),
{
    if subs.len() == 0 {
        assert(values =~= Map::empty());
    } else {
        let rest = subs.drop_last();
        let last = subs.len() - 1;
        let (tag, value) = subs[last];
        let earlier = values.remove(tag);
        assert forall|i: int, j: int| 0 <= i < j < rest.len() implies (#[trigger] rest[i]).0 != (
        #[trigger] rest[j]).0 by {
            assert(subs[i].0 != subs[j].0);
        }
        assert forall|i: int| 0 <= i < rest.len() implies is_tag_name((#[trigger] rest[i]).0)
            && is_no_tag(rest[i].1) && earlier.contains_key(rest[i].0) && earlier[rest[i].0]
            == rest[i].1 by {
            assert(rest[i] == subs[i]);
            assert(subs[i].0 != subs[last].0);
        }
        assert forall|name: Seq<char>| #[trigger] earlier.contains_key(name) implies exists|i: int|
            0 <= i < rest.len() && (#[trigger] rest[i]).0 == name by {
            assert(values.contains_key(name));
            let i = choose|i: int| 0 <= i < subs.len() && (#[trigger] subs[i]).0 == name;
            assert(rest[i].0 == name);
        }
        templates_are_filled_in(parts, rest, earlier);
        assert forall|name: Seq<char>| #[trigger] earlier.contains_key(name) implies is_no_tag(
            earlier[name],
        ) by {
            let i = choose|i: int| 0 <= i < rest.len() && (#[trigger] rest[i]).0 == name;
            assert(is_no_tag(rest[i].1));
        }
        lemma_tag_gets_its_value(parts, earlier, tag, value);
        assert(earlier.insert(tag, value) =~= values);
    }
}

/// The page and the part of it for one switch are their templates with each tag filled with the
/// value that goes by the tag's name.
pub proof fn pages_are_their_templates_filled_in(
    status: Seq<char>,
    buttons: Seq<char>,
    css_path: Seq<char>,
    id: Seq<char>,
    label: Seq<char>,
    post_on_url: Seq<char>,
    post_off_url: Seq<char>,
    get_url: Seq<char>,
)
    ensures
        gui_page(status, buttons, css_path) == replaced(
            replaced(
                replaced(HTML_GUI_TEMPLATE@, "{{{status}}}"@, status),
                "{{{buttons}}}"@,
                buttons,
            ),
            "{{{css_path}}}"@,
            css_path,
        ),
        button_elem(id, label, post_on_url, post_off_url, get_url) == replaced(
            replaced(
                replaced(
                    replaced(
                        replaced(HTML_BUTTON_ELEM_TEMPLATE@, "{{{id}}}"@, id),
                        "{{{label}}}"@,
                        label,
                    ),
                    "{{{post_on_url}}}"@,
                    post_on_url,
                ),
                "{{{post_off_url}}}"@,
                post_off_url,
            ),
            "{{{get_url}}}"@,
            get_url,
        ),
{
    reveal_strlit("{{{");
    reveal_strlit("}}}");
    reveal_strlit("status");
    reveal_strlit("{{{status}}}");
    assert(tag_text("status"@) =~= "{{{status}}}"@);
    reveal_strlit("buttons");
    reveal_strlit("{{{buttons}}}");
    assert(tag_text("buttons"@) =~= "{{{buttons}}}"@);
    reveal_strlit("css_path");
    reveal_strlit("{{{css_path}}}");
    assert(tag_text("css_path"@) =~= "{{{css_path}}}"@);
    reveal_strlit("id");
    reveal_strlit("{{{id}}}");
    assert(tag_text("id"@) =~= "{{{id}}}"@);
    reveal_strlit("label");
    reveal_strlit("{{{label}}}");
    assert(tag_text("label"@) =~= "{{{label}}}"@);
    reveal_strlit("post_on_url");
    reveal_strlit("{{{post_on_url}}}");
    assert(tag_text("post_on_url"@) =~= "{{{post_on_url}}}"@);
    reveal_strlit("post_off_url");
    reveal_strlit("{{{post_off_url}}}");
    assert(tag_text("post_off_url"@) =~= "{{{post_off_url}}}"@);
    reveal_strlit("get_url");
    reveal_strlit("{{{get_url}}}");
    assert(tag_text("get_url"@) =~= "{{{get_url}}}"@);
    lemma_filled_step_by_step(
        HTML_GUI_TEMPLATE@,
        seq![("status"@, status), ("buttons"@, buttons), ("css_path"@, css_path)],
    );
    lemma_filled_step_by_step(
        HTML_BUTTON_ELEM_TEMPLATE@,
        seq![
            ("id"@, id),
            ("label"@, label),
            ("post_on_url"@, post_on_url),
            ("post_off_url"@, post_off_url),
            ("get_url"@, get_url),
        ],
    );
}

/// Filling in three tags, or five, is filling them in one after the other.
proof fn lemma_filled_step_by_step(template: Seq<char>, subs: Seq<(Seq<char>, Seq<char>)>)
    ensures
        subs.len() == 3 ==> filled(template, subs) == replaced(
            replaced(
                replaced(template, tag_text(subs[0].0), subs[0].1),
                tag_text(subs[1].0),
                subs[1].1,
            ),
            tag_text(subs[2].0),
            subs[2].1,
        ),
        subs.len() == 5 ==> filled(template, subs) == replaced(
            replaced(filled(template, subs.take(3)), tag_text(subs[3].0), subs[3].1),
            tag_text(subs[4].0),
            subs[4].1,
        ) && filled(template, subs.take(3)) == replaced(
            replaced(
                replaced(template, tag_text(subs[0].0), subs[0].1),
                tag_text(subs[1].0),
                subs[1].1,
            ),
            tag_text(subs[2].0),
            subs[2].1,
        ),
{
    reveal_with_fuel(filled, 4);
    if subs.len() == 5 {
        let three = subs.take(3);
        assert(subs.drop_last().drop_last() =~= three);
        assert(three.drop_last().drop_last().drop_last() =~= Seq::empty());
    }
}

/// The part of the page for a switch has the addresses of that switch alone: to set it on, to set
/// it off and to read it. A table of names changes the label and nothing else.
pub proof fn tables_change_the_label_alone(
    name: Seq<char>,
    pretty_map: Option<IndexMap<String, String>>,
)
    ensures
        switch_button(name, pretty_map) == button_elem(
            lowercase(replaced(name, " "@, "_"@)),
            label_of(pretty_map, name),
            "/api/switch/"@ + (name + ("/?state="@ + SwitchState::On.text())),
            "/api/switch/"@ + (name + ("/?state="@ + SwitchState::Off.text())),
            "/api/switch/"@ + name,
        ),
        label_of(pretty_map, name) == name ==> switch_button(name, pretty_map) == switch_button(
            name,
            None,
        ),
{
    reveal_strlit("on");
    reveal_strlit("off");
    reveal_strlit("/?state=");
    reveal_strlit("/?state=on");
    reveal_strlit("/?state=off");
    assert("/?state="@ + "on"@ =~= "/?state=on"@);
    assert("/?state="@ + "off"@ =~= "/?state=off"@);
    assert("/api/switch/"@ + name + "/?state=on"@ =~= "/api/switch/"@ + (name + "/?state=on"@));
    assert("/api/switch/"@ + name + "/?state=off"@ =~= "/api/switch/"@ + (name + "/?state=off"@));
}

/// The page shows the switches of its list in their order, each by its own part, one below the
/// other, and nothing depends on the other switches.
pub proof fn pages_show_each_switch(
    a: Seq<Seq<char>>,
    b: Seq<Seq<char>>,
    name: Seq<char>,
    pretty_map: Option<IndexMap<String, String>>,
)
    ensures
        switch_buttons(seq![name], pretty_map) == switch_button(name, pretty_map),
        switch_buttons(Seq::empty(), pretty_map).len() == 0,
        a.len() > 0 && b.len() > 0 ==> switch_buttons(a + b, pretty_map) == switch_buttons(
            a,
            pretty_map,
        ) + "\n"@ + switch_buttons(b, pretty_map),
        switch_page(a, pretty_map) == gui_page(
            ""@,
            switch_buttons(a, pretty_map),
            "client/.css/main.css"@,
        ),
{
    let part = |n: Seq<char>| switch_button(n, pretty_map);
    assert(seq![name].map_values(part) =~= seq![part(name)]);
    assert(Seq::<Seq<char>>::empty().map_values(part) =~= Seq::empty());
    assert((a + b).map_values(part) =~= a.map_values(part) + b.map_values(part));
    lists_are_joined_piece_by_piece(
        a.map_values(part),
        b.map_values(part),
        part(name),
        "\n"@,
    );
}

/// Below the client there is the main style sheet and nothing else; the client itself is the page
/// for all switches, unless the query asks for a filter that does not exist.
pub proof fn client_serves_its_page_and_style_sheet(
    front: FrontendView,
    first: Seq<char>,
    rest: Seq<Seq<char>>,
    query: Seq<(Seq<char>, Seq<char>)>,
    i: int,
)
    ensures
        client_answer(front, seq![".css"@, "main.css"@] + rest, query) == (ResponseView {
            status: StatusCode::Success,
            body: CSS_MAIN@,
        }),
        client_answer(front, seq![".css"@], query) == (ResponseView {
            status: StatusCode::NotFound,
            body: GENERIC_404_PAGE@,
        }),
        first != "main.css"@ ==> client_answer(front, seq![".css"@, first] + rest, query) == (
        ResponseView { status: StatusCode::NotFound, body: GENERIC_404_PAGE@ }),
        first != ".css"@ ==> client_answer(front, seq![first] + rest, query) == (ResponseView {
            status: StatusCode::NotFound,
            body: GENERIC_404_PAGE@,
        }),
        0 <= i < query.len() && query[i].0 == "filter"@ && !front.filtered_pages.contains_key(
            query[i].1,
        ) ==> client_answer(front, Seq::empty(), query) == (ResponseView {
            status: StatusCode::NotFound,
            body: GENERIC_404_PAGE@,
        }),
        (forall|j: int|
            0 <= j < query.len() ==> ((#[trigger] query[j]).0 == "filter"@
                ==> front.filtered_pages.contains_key(query[j].1))) ==> client_answer(
            front,
            Seq::empty(),
            query,
        ) == (ResponseView { status: StatusCode::Success, body: front.default_page }),
{
    assert((seq![".css"@, "main.css"@] + rest).skip(1)[0] == "main.css"@);
    assert((seq![".css"@, first] + rest).skip(1)[0] == first);
    assert((seq![first] + rest)[0] == first);
    assert(seq![".css"@].skip(1) =~= Seq::empty());
    if 0 <= i < query.len() && query[i].0 == "filter"@ && !front.filtered_pages.contains_key(
        query[i].1,
    ) {
        assert(asks_unknown_filter(front, query[i]));
    }
}

/// Text in which every opening brace has something else behind it is no tag.
proof fn lemma_single_braces_are_no_tag(text: Seq<char>)
    requires
        forall|i: int|
            0 <= i < text.len() && #[trigger] text[i] == '{' ==> i + 1 < text.len() && text[i + 1]
                != '{',
    ensures
        is_no_tag(text),
{
    reveal_strlit("{{{");
    if text.len() > 0 && text.last() == '{' {
        assert(text[text.len() - 1] == '{');
    }
    if occurs(text, "{{{"@) {
        let at = choose|at: int| occurs_at(text, "{{{"@, at);
        assert(text.subrange(at, at + 3)[0] == text[at]);
        assert(text.subrange(at, at + 3)[1] == text[at + 1]);
    }
}

/// The parts of the template for one switch.
spec fn button_parts() -> Seq<TemplatePart> {
    seq![
        TemplatePart::Plain("        <div class=\"switch\">
            <span class=\"switch-label\">"@),
        TemplatePart::Tag("label"@),
        TemplatePart::Plain("</span>
            <span class=\"switch-state\" id=\""@),
        TemplatePart::Tag("id"@),
        TemplatePart::Plain("\"></span>
            <button onclick=\"command('"@),
        TemplatePart::Tag("id"@),
        TemplatePart::Plain("', '"@),
        TemplatePart::Tag("post_on_url"@),
        TemplatePart::Plain("', '"@),
        TemplatePart::Tag("get_url"@),
        TemplatePart::Plain("')\">On</button>
            <button onclick=\"command('"@),
        TemplatePart::Tag("id"@),
        TemplatePart::Plain("', '"@),
        TemplatePart::Tag("post_off_url"@),
        TemplatePart::Plain("', '"@),
        TemplatePart::Tag("get_url"@),
        TemplatePart::Plain("')\">Off</button>
            <button onclick=\"show('"@),
        TemplatePart::Tag("id"@),
        TemplatePart::Plain("', '"@),
        TemplatePart::Tag("get_url"@),
        TemplatePart::Plain("')\">State</button>
        </div>"@),
    ]
}

/// The template for one switch is made of its parts.
#[verifier::rlimit(50)]
proof fn lemma_button_parts()
    ensures
        are_parts(button_parts()),
        parts_text(button_parts(), Map::empty()) == HTML_BUTTON_ELEM_TEMPLATE@,
{
    reveal_strlit("{{{");
    reveal_strlit("}}}");
    reveal_strlit("        <div class=\"switch\">
            <span class=\"switch-label\">{{{label}}}</span>
            <span class=\"switch-state\" id=\"{{{id}}}\"></span>
            <button onclick=\"command('{{{id}}}', '{{{post_on_url}}}', '{{{get_url}}}')\">On</button>
            <button onclick=\"command('{{{id}}}', '{{{post_off_url}}}', '{{{get_url}}}')\">Off</button>
            <button onclick=\"show('{{{id}}}', '{{{get_url}}}')\">State</button>
        </div>");
    reveal_strlit("        <div class=\"switch\">
            <span class=\"switch-label\">");
    reveal_strlit("{{{label}}}");
    reveal_strlit("</span>
            <span class=\"switch-state\" id=\"");
    reveal_strlit("{{{id}}}");
    reveal_strlit("\"></span>
            <button onclick=\"command('");
    reveal_strlit("', '");
    reveal_strlit("{{{post_on_url}}}");
    reveal_strlit("{{{get_url}}}");
    reveal_strlit("')\">On</button>
            <button onclick=\"command('");
    reveal_strlit("{{{post_off_url}}}");
    reveal_strlit("')\">Off</button>
            <button onclick=\"show('");
    reveal_strlit("')\">State</button>
        </div>");
    reveal_strlit("label");
    reveal_strlit("id");
    reveal_strlit("post_on_url");
    reveal_strlit("post_off_url");
    reveal_strlit("get_url");
    reveal_with_fuel(parts_text, 22);
    assert("{{{"@ + "label"@ + "}}}"@ =~= "{{{label}}}"@);
    assert(is_tag_name("label"@));
    assert("{{{"@ + "id"@ + "}}}"@ =~= "{{{id}}}"@);
    assert(is_tag_name("id"@));
    assert("{{{"@ + "post_on_url"@ + "}}}"@ =~= "{{{post_on_url}}}"@);
    assert(is_tag_name("post_on_url"@));
    assert("{{{"@ + "post_off_url"@ + "}}}"@ =~= "{{{post_off_url}}}"@);
    assert(is_tag_name("post_off_url"@));
    assert("{{{"@ + "get_url"@ + "}}}"@ =~= "{{{get_url}}}"@);
    assert(is_tag_name("get_url"@));
    lemma_single_braces_are_no_tag("        <div class=\"switch\">
            <span class=\"switch-label\">"@);
    lemma_single_braces_are_no_tag("</span>
            <span class=\"switch-state\" id=\""@);
    lemma_single_braces_are_no_tag("\"></span>
            <button onclick=\"command('"@);
    lemma_single_braces_are_no_tag("', '"@);
    lemma_single_braces_are_no_tag("')\">On</button>
            <button onclick=\"command('"@);
    lemma_single_braces_are_no_tag("')\">Off</button>
            <button onclick=\"show('"@);
    lemma_single_braces_are_no_tag("')\">State</button>
        </div>"@);
    assert(parts_text(button_parts(), Map::empty()) =~= HTML_BUTTON_ELEM_TEMPLATE@);
}

/// The names in the tags of the templates hold no brace.
proof fn lemma_tag_names()
    ensures
        is_tag_name("status"@) && is_tag_name("buttons"@) && is_tag_name("css_path"@),
        is_tag_name("id"@) && is_tag_name("label"@) && is_tag_name("get_url"@),
        is_tag_name("post_on_url"@) && is_tag_name("post_off_url"@),
{
    reveal_strlit("status");
    reveal_strlit("buttons");
    reveal_strlit("css_path");
    reveal_strlit("id");
    reveal_strlit("label");
    reveal_strlit("get_url");
    reveal_strlit("post_on_url");
    reveal_strlit("post_off_url");
}

/// The template for one switch, filled in, is made of its parts with a value for each tag.
proof fn lemma_button_values(
    id: Seq<char>,
    label: Seq<char>,
    post_on_url: Seq<char>,
    post_off_url: Seq<char>,
    get_url: Seq<char>,
    values: Map<Seq<char>, Seq<char>>,
)
    requires
        is_no_tag(id),
        is_no_tag(label),
        is_no_tag(post_on_url),
        is_no_tag(post_off_url),
        is_no_tag(get_url),
        values == map![
            "id"@ => id,
            "label"@ => label,
            "post_on_url"@ => post_on_url,
            "post_off_url"@ => post_off_url,
            "get_url"@ => get_url,
        ],
    ensures
        values.contains_key("id"@) && values["id"@] == id,
        values.contains_key("label"@) && values["label"@] == label,
        values.contains_key("post_on_url"@) && values["post_on_url"@] == post_on_url,
        values.contains_key("post_off_url"@) && values["post_off_url"@] == post_off_url,
        values.contains_key("get_url"@) && values["get_url"@] == get_url,
        button_elem(id, label, post_on_url, post_off_url, get_url) == parts_text(
            button_parts(),
            values,
        ),
{
    let subs = button_subs(id, label, post_on_url, post_off_url, get_url);
    lemma_button_parts();
    lemma_tag_names();
    tags_differ(label, label, label, id, label, post_on_url, post_off_url, get_url);
    assert(subs[0].0 != subs[1].0 && subs[0].0 != subs[2].0 && subs[0].0 != subs[3].0);
    assert(subs[0].0 != subs[4].0 && subs[1].0 != subs[2].0 && subs[1].0 != subs[3].0);
    assert(subs[1].0 != subs[4].0 && subs[2].0 != subs[3].0 && subs[2].0 != subs[4].0);
    assert(subs[3].0 != subs[4].0);
    templates_are_filled_in(button_parts(), subs, values);
}

/// The part of the page for a switch shows the label, and its buttons set the switch on at the one
/// address, off at the other, and read it at the third.
pub proof fn buttons_stand_for_their_addresses(
    id: Seq<char>,
    label: Seq<char>,
    post_on_url: Seq<char>,
    post_off_url: Seq<char>,
    get_url: Seq<char>,
)
    requires
        is_no_tag(id),
        is_no_tag(label),
        is_no_tag(post_on_url),
        is_no_tag(post_off_url),
        is_no_tag(get_url),
    ensures
        button_elem(id, label, post_on_url, post_off_url, get_url)
            == "        <div class=\"switch\">
            <span class=\"switch-label\">"@ + (label + ("</span>
            <span class=\"switch-state\" id=\""@ + (id + ("\"></span>
            <button onclick=\"command('"@ + (id + ("', '"@ + (post_on_url + ("', '"@ + (get_url
            + ("')\">On</button>
            <button onclick=\"command('"@ + (id + ("', '"@ + (post_off_url + ("', '"@ + (get_url
            + ("')\">Off</button>
            <button onclick=\"show('"@ + (id + ("', '"@ + (get_url + "')\">State</button>
        </div>"@))))))))))))))))))),
{
    let values = map![
        "id"@ => id,
        "label"@ => label,
        "post_on_url"@ => post_on_url,
        "post_off_url"@ => post_off_url,
        "get_url"@ => get_url,
    ];
    lemma_button_values(id, label, post_on_url, post_off_url, get_url, values);
    reveal_with_fuel(parts_text, 22);
    let end = "')\">State</button>
        </div>"@;
    assert(end + Seq::empty() =~= end);
}

/// The page up to the path of its style sheet.
pub open spec fn page_start() -> Seq<char> {
    "<!DOCTYPE html>
<html>
    <head>
        <title>Beelay</title>
        <meta name=\"viewport\" content=\"width=device-width, initial-scale=1\">
        <link rel=\"stylesheet\" href=\"/"@
}

/// The page from its style sheet to its status.
pub open spec fn page_middle() -> Seq<char> {
    "\">
        <script>
            function show(id, url) {
                fetch(url).then(resp => resp.json()).then(answer => {
                    document.getElementById(id).textContent = answer.state || answer.error_message;
                });
            }
            function command(id, postUrl, getUrl) {
                fetch(postUrl, { method: \"POST\" }).then(() => show(id, getUrl));
            }
        </script>
    </head>
    <body>
        <h1>Beelay</h1>
        <p>"@
}

/// The parts of the template for the page.
spec fn gui_parts() -> Seq<TemplatePart> {
    seq![
        TemplatePart::Plain(page_start()),
        TemplatePart::Tag("css_path"@),
        TemplatePart::Plain(page_middle()),
        TemplatePart::Tag("status"@),
        TemplatePart::Plain("</p>\n"@),
        TemplatePart::Tag("buttons"@),
        TemplatePart::Plain("\n    </body>\n</html>\n"@),
    ]
}

/// The template for the page is made of its parts.
#[verifier::rlimit(100)]
proof fn lemma_gui_parts()
    ensures
        are_parts(gui_parts()),
        parts_text(gui_parts(), Map::empty()) == HTML_GUI_TEMPLATE@,
{
    reveal_strlit("{{{");
    reveal_strlit("}}}");
    reveal_strlit("css_path");
    reveal_strlit("status");
    reveal_strlit("buttons");
    reveal_strlit("<!DOCTYPE html>
<html>
    <head>
        <title>Beelay</title>
        <meta name=\"viewport\" content=\"width=device-width, initial-scale=1\">
        <link rel=\"stylesheet\" href=\"/{{{css_path}}}\">
        <script>
            function show(id, url) {
                fetch(url).then(resp => resp.json()).then(answer => {
                    document.getElementById(id).textContent = answer.state || answer.error_message;
                });
            }
            function command(id, postUrl, getUrl) {
                fetch(postUrl, { method: \"POST\" }).then(() => show(id, getUrl));
            }
        </script>
    </head>
    <body>
        <h1>Beelay</h1>
        <p>{{{status}}}</p>
{{{buttons}}}
    </body>
</html>
");
    reveal_strlit("<!DOCTYPE html>
<html>
    <head>
        <title>Beelay</title>
        <meta name=\"viewport\" content=\"width=device-width, initial-scale=1\">
        <link rel=\"stylesheet\" href=\"/");
    reveal_strlit("\">
        <script>
            function show(id, url) {
                fetch(url).then(resp => resp.json()).then(answer => {
                    document.getElementById(id).textContent = answer.state || answer.error_message;
                });
            }
            function command(id, postUrl, getUrl) {
                fetch(postUrl, { method: \"POST\" }).then(() => show(id, getUrl));
            }
        </script>
    </head>
    <body>
        <h1>Beelay</h1>
        <p>");
    reveal_strlit("</p>\n");
    reveal_strlit("\n    </body>\n</html>\n");
    reveal_with_fuel(parts_text, 8);
    lemma_tag_names();
    lemma_single_braces_are_no_tag(page_start());
    lemma_single_braces_are_no_tag(page_middle());
    lemma_single_braces_are_no_tag("</p>\n"@);
    lemma_single_braces_are_no_tag("\n    </body>\n</html>\n"@);
    assert(parts_text(gui_parts(), Map::empty()) =~= HTML_GUI_TEMPLATE@);
}

/// The page links the style sheet at its path, and shows the status and the buttons.
pub proof fn pages_show_their_buttons(
    status: Seq<char>,
    buttons: Seq<char>,
    css_path: Seq<char>,
)
    requires
        is_no_tag(status),
        is_no_tag(buttons),
        is_no_tag(css_path),
    ensures
        gui_page(status, buttons, css_path) == page_start() + (css_path + (page_middle() + (status
            + ("</p>\n"@ + (buttons + "\n    </body>\n</html>\n"@))))),
{
    let values = map!["status"@ => status, "buttons"@ => buttons, "css_path"@ => css_path];
    let subs = gui_subs(status, buttons, css_path);
    lemma_gui_parts();
    lemma_tag_names();
    tags_differ(status, buttons, css_path, status, status, status, status, status);
    assert(subs[0].0 != subs[1].0 && subs[0].0 != subs[2].0 && subs[1].0 != subs[2].0);
    templates_are_filled_in(gui_parts(), subs, values);
    reveal_with_fuel(parts_text, 8);
    let end = "\n    </body>\n</html>\n"@;
    assert(end + Seq::empty() =~= end);
}

/// A filter has the page for its own switches unless a later one has the same name.
pub proof fn last_filter_of_a_name_counts(
    filters: Seq<(Seq<char>, Seq<Seq<char>>)>,
    pretty_map: Option<IndexMap<String, String>>,
    i: int,
)
    requires
        0 <= i < filters.len(),
        forall|j: int| i < j < filters.len() ==> (#[trigger] filters[j]).0 != filters[i].0,
    ensures
        filter_pages(filters, pretty_map).contains_key(filters[i].0),
        filter_pages(filters, pretty_map)[filters[i].0] == switch_page(filters[i].1, pretty_map),
    decreases filters.len(),
{
    if i < filters.len() - 1 {
        let rest = filters.drop_last();
        assert(filters[filters.len() - 1].0 != filters[i].0);
        assert forall|j: int| i < j < rest.len() implies (#[trigger] rest[j]).0 != rest[i].0 by {
            assert(rest[j] == filters[j]);
        }
        last_filter_of_a_name_counts(rest, pretty_map, i);
    }
}

} // verus!
