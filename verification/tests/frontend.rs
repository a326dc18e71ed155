use beelay::assets::CSS_MAIN;
use beelay::common::GENERIC_404_PAGE;
use beelay::frontend::{
    process_button_template, process_buttons, process_gui_template, process_template,
    BeelayFrontend,
};
use beelay::pretty_names::pretty_label;
use beelay::refine_filters;
use indexmap::IndexMap;

fn list(elems: &[&str]) -> Vec<String> {
    elems.iter().map(|elem| elem.to_string()).collect()
}

fn pairs(elems: &[(&str, &str)]) -> Vec<(String, String)> {
    elems.iter().map(|elem| (elem.0.to_string(), elem.1.to_string())).collect()
}

fn pretty() -> Option<IndexMap<String, String>> {
    let mut names: IndexMap<String, String> = IndexMap::new();
    names.insert("Bedroom TV".to_string(), "Telly".to_string());
    Some(names)
}

fn frontend() -> BeelayFrontend {
    BeelayFrontend::new(
        &list(&["Bedroom TV", "lamp"]),
        &pretty(),
        &vec![("up".to_string(), list(&["Bedroom TV"]))],
    )
}

#[test]
fn templates_are_filled_in() {
    assert_eq!(
        process_template("a {{{x}}} b {{{y}}} {{{x}}} {{x}}", &pairs(&[("x", "1"), ("y", "2")])),
        "a 1 b 2 1 {{x}}"
    );
    assert_eq!(process_template("no tag", &pairs(&[("x", "1")])), "no tag");
    assert_eq!(process_template("{{{x}}}", &pairs(&[("x", "{{{y}}}"), ("y", "2")])), "2");
    assert_eq!(process_template("{{{x}}}", &pairs(&[])), "{{{x}}}");
}

#[test]
fn pages_leave_no_tag_open() {
    let page = process_gui_template("fine", "BUTTONS", "some.css");
    assert!(page.contains("<p>fine</p>"));
    assert!(page.contains("\nBUTTONS\n"));
    assert!(page.contains("href=\"/some.css\""));
    assert!(!page.contains("{{{"));
    let button = process_button_template("the_id", "The Label", "/on", "/off", "/get");
    assert!(button.contains("id=\"the_id\""));
    assert!(button.contains(">The Label<"));
    assert!(button.contains("'/on', '/get'"));
    assert!(button.contains("'/off', '/get'"));
    assert!(!button.contains("{{{"));
}

#[test]
fn buttons_are_made_for_each_switch() {
    let buttons = process_buttons(&list(&["Bedroom TV", "LAMP"]), &pretty());
    let tv = process_button_template(
        "bedroom_tv",
        "Telly",
        "/api/switch/Bedroom TV/?state=on",
        "/api/switch/Bedroom TV/?state=off",
        "/api/switch/Bedroom TV",
    );
    let lamp = process_button_template(
        "lamp",
        "LAMP",
        "/api/switch/LAMP/?state=on",
        "/api/switch/LAMP/?state=off",
        "/api/switch/LAMP",
    );
    assert_eq!(buttons, format!("{}\n{}", tv, lamp));
    assert_eq!(process_buttons(&list(&[]), &None), "");
}

#[test]
fn labels_come_from_the_table() {
    assert_eq!(pretty_label(&pretty(), "Bedroom TV"), "Telly");
    assert_eq!(pretty_label(&pretty(), "lamp"), "lamp");
    assert_eq!(pretty_label(&None, "Bedroom TV"), "Bedroom TV");
}

#[test]
fn page_is_served() {
    let page = process_gui_template(
        "",
        &process_buttons(&list(&["Bedroom TV", "lamp"]), &pretty()),
        "client/.css/main.css",
    );
    for params in [pairs(&[]), pairs(&[("filter", "up")]), pairs(&[("other", "down")])] {
        let resp = frontend().handle_hit(&list(&[]), &params);
        assert_eq!(resp.status.as_u16(), 200);
        assert_eq!(resp.body, page);
    }
}

#[test]
fn unknown_filters_are_not_found() {
    for params in [pairs(&[("filter", "down")]), pairs(&[("filter", "up"), ("filter", "down")])] {
        let resp = frontend().handle_hit(&list(&[]), &params);
        assert_eq!(resp.status.as_u16(), 404);
        assert_eq!(resp.body, GENERIC_404_PAGE);
    }
}

#[test]
fn style_sheet_is_served() {
    let resp = frontend().handle_hit(&list(&[".css", "main.css"]), &pairs(&[]));
    assert_eq!(resp.status.as_u16(), 200);
    assert_eq!(resp.body, CSS_MAIN);
    for path in [list(&[".css"]), list(&[".css", "other.css"]), list(&["main.css"])] {
        let resp = frontend().handle_hit(&path, &pairs(&[]));
        assert_eq!(resp.status.as_u16(), 404);
        assert_eq!(resp.body, GENERIC_404_PAGE);
    }
}

#[test]
fn filters_are_refined() {
    let master = list(&["a", "b", "c"]);
    let proposed = vec![
        ("x".to_string(), list(&["c", "z", "a", "c"])),
        ("y".to_string(), list(&["z"])),
    ];
    let refined = refine_filters(&master, &proposed);
    assert_eq!(
        refined,
        vec![("x".to_string(), list(&["c", "a", "c"])), ("y".to_string(), list(&[]))]
    );
    assert_eq!(refine_filters(&master, &refined), refined);
}
