use beelay::launch::{derive_context, parse_context, syslog_line, waiting_for_tasks, ExeContext};
use beelay::text::{
    ascii_lowercase_text, chars_of, contains_text, copy_tail, copy_texts, decimal_text, join_texts,
    parse_u16, path_queue, replace_text, same_text, split_text,
};

fn list(elems: &[&str]) -> Vec<String> {
    elems.iter().map(|elem| elem.to_string()).collect()
}

#[test]
fn splitting_and_joining_undo_each_other() {
    for text in ["", ",", "a,b", ",,a,", "äö,ü"] {
        assert_eq!(join_texts(&split_text(text, ','), ","), text);
    }
    let fields = list(&["a", "", "b c"]);
    assert_eq!(split_text(&join_texts(&fields, ","), ','), fields);
    assert_eq!(split_text("", ','), list(&[""]));
    assert_eq!(join_texts(&list(&[]), ", "), "");
    assert_eq!(join_texts(&list(&["a", "b"]), ", "), "a, b");
}

#[test]
fn texts_are_replaced_left_to_right() {
    assert_eq!(replace_text("aaa", "aa", "b"), "ba");
    assert_eq!(replace_text("abcabc", "bc", ""), "aa");
    assert_eq!(replace_text("abc", "x", "y"), "abc");
    assert_eq!(replace_text("", "x", "y"), "");
    for text in ["%20%20", "a%20", "%2%200", "aé%20ü"] {
        assert_eq!(replace_text(text, "%20", " "), text.replace("%20", " "));
    }
}

#[test]
fn ascii_letters_are_made_small() {
    assert_eq!(ascii_lowercase_text("On,CONFIRMED Ä[@`z"), "on,confirmed Ä[@`z");
    let once = ascii_lowercase_text("AbC");
    assert_eq!(ascii_lowercase_text(&once), once);
}

#[test]
fn numbers_are_read() {
    for text in ["0", "5", "+5", "0065535", "65535", "65536", "", "+", "-1", "1 ", "１", "99999999999"] {
        assert_eq!(parse_u16(text), text.parse::<u16>().ok());
    }
}

#[test]
fn numbers_are_read_back() {
    for number in [0, 9, 10, 99, 100, 1883, 9999, 65535] {
        assert_eq!(decimal_text(number), number.to_string());
        assert_eq!(parse_u16(&decimal_text(number)), Some(number));
    }
}

#[test]
fn lists_are_searched_and_copied() {
    let texts = list(&["a", "b"]);
    assert!(contains_text(&texts, "b"));
    assert!(!contains_text(&texts, "c"));
    assert_eq!(copy_texts(&texts), texts);
    assert_eq!(copy_tail(&texts), list(&["b"]));
    let queue = path_queue(&texts);
    assert_eq!(queue.len(), 2);
    assert_eq!(queue[0], "a");
    assert_eq!(chars_of("aé"), vec!['a', 'é']);
    assert!(same_text("x", "x"));
    assert!(!same_text("x", "X"));
}

#[test]
fn contexts_are_told_apart() {
    assert_eq!(parse_context("RUN").unwrap(), ExeContext::Run);
    assert_eq!(parse_context("CONFIG").unwrap(), ExeContext::Config);
    assert_eq!(parse_context("run").unwrap_err(), "Invalid execution context name: run");
    assert_eq!(derive_context("beelay").unwrap(), ExeContext::Run);
    assert_eq!(derive_context("beelay-config").unwrap(), ExeContext::Config);
    assert_eq!(derive_context("bee").unwrap_err(), "Invalid exe name: bee");
}

#[test]
fn log_lines_carry_their_priority() {
    assert_eq!(syslog_line(1, "broken"), "<3>broken");
    assert_eq!(syslog_line(5, ""), "<7>");
}

#[test]
fn end_waits_for_all_three_tasks() {
    assert!(waiting_for_tasks(true, true, true));
    assert!(!waiting_for_tasks(true, true, false));
    assert!(!waiting_for_tasks(true, false, true));
    assert!(!waiting_for_tasks(false, true, true));
}
