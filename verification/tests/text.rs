use tiny_v1::text::{split_once, str_eq, strip_cr, Fields};

#[test]
fn split_once_cuts_at_the_first_separator() {
    assert_eq!(split_once("a\tb\tc", '\t'), Some(("a", "b\tc")));
    assert_eq!(split_once("\tb", '\t'), Some(("", "b")));
    assert_eq!(split_once("a\t", '\t'), Some(("a", "")));
    assert_eq!(split_once("\n\n", '\n'), Some(("", "\n")));
}

#[test]
fn split_once_without_separator() {
    assert_eq!(split_once("abc", '\t'), None);
    assert_eq!(split_once("", '\t'), None);
    assert_eq!(split_once("a\tb", '\n'), None);
}

#[test]
fn split_once_agrees_with_std() {
    let samples = ["", "\t", "a\tb", "\u{e9}\t\u{1f600}\tz", "\u{109}\u{2009}\tq", "no tab", "\t\t"];
    for s in samples {
        assert_eq!(split_once(s, '\t'), s.split_once('\t'));
    }
}

#[test]
fn strip_cr_takes_one_carriage_return_from_the_end() {
    assert_eq!(strip_cr("abc\r"), "abc");
    assert_eq!(strip_cr("abc\r\r"), "abc\r");
    assert_eq!(strip_cr("\r"), "");
    assert_eq!(strip_cr("abc"), "abc");
    assert_eq!(strip_cr("\rabc"), "\rabc");
    assert_eq!(strip_cr(""), "");
    assert_eq!(strip_cr("\u{e9}\r"), "\u{e9}");
    assert_eq!(strip_cr("\u{10d}"), "\u{10d}");
}

#[test]
fn str_eq_compares_characters() {
    assert!(str_eq("", ""));
    assert!(str_eq("v1", "v1"));
    assert!(str_eq("\u{e9}t\u{e9}", "\u{e9}t\u{e9}"));
    assert!(!str_eq("v1", "v2"));
    assert!(!str_eq("v1", "v"));
    assert!(!str_eq("v", "v1"));
    assert!(!str_eq("", "v1"));
    assert!(!str_eq("CLASS", "class"));
}

#[test]
fn fields_come_in_order() {
    let mut f = Fields::new("a\t\tb");
    assert_eq!(f.next(), Some("a"));
    assert_eq!(f.next(), Some(""));
    assert_eq!(f.next(), Some("b"));
    assert_eq!(f.next(), None);
    assert_eq!(f.next(), None);
}

#[test]
fn empty_line_has_one_empty_field() {
    let mut f = Fields::new("");
    assert_eq!(f.next(), Some(""));
    assert_eq!(f.next(), None);
}

#[test]
fn collect_takes_what_is_left() {
    let mut f = Fields::new("a\tb\tc\t");
    assert_eq!(f.next(), Some("a"));
    assert_eq!(f.collect(), vec!["b", "c", ""]);
    let mut g = Fields::new("a");
    assert_eq!(g.next(), Some("a"));
    assert!(g.collect().is_empty());
}

#[test]
fn fields_agree_with_std() {
    let samples = ["", "\t", "a\tb", "\u{e9}\t\u{1f600}\tz", "CLASS\tfoo/Bar\t\t", "no tab"];
    for s in samples {
        let expected: Vec<&str> = s.split('\t').collect();
        assert_eq!(Fields::new(s).collect(), expected);
    }
}
