use tiny_v1::{Header, TinyV1Error};

fn message(r: Result<Header<'_>, TinyV1Error<'static>>) -> &'static str {
    match r {
        Ok(h) => panic!("accepted: {:?}", h),
        Err(e) => e.0,
    }
}

#[test]
fn header_with_two_namespaces() {
    let h = Header::from_str("v1\tA\tB").unwrap();
    assert_eq!(h.namespace_a, "A");
    assert_eq!(h.namespace_b, "B");
    assert!(h.namespaces.is_empty());
}

#[test]
fn header_with_extra_namespaces() {
    let h = Header::from_str("v1\tA\tB\tC\tD").unwrap();
    assert_eq!(h.namespace_a, "A");
    assert_eq!(h.namespace_b, "B");
    assert_eq!(h.namespaces, vec!["C", "D"]);
}

#[test]
fn header_of_another_format_is_refused() {
    assert_eq!(message(Header::from_str("v2\tA\tB")), "Wrong Format");
}

#[test]
fn header_without_second_namespace_is_refused() {
    assert_eq!(message(Header::from_str("v1\tA")), "Namespace b not found");
}

#[test]
fn header_without_namespaces_is_refused() {
    assert_eq!(message(Header::from_str("v1")), "Namespace a not found");
}

#[test]
fn empty_header_line_is_of_the_wrong_format() {
    assert_eq!(message(Header::from_str("")), "Wrong Format");
}

#[test]
fn header_format_must_match_exactly() {
    assert_eq!(message(Header::from_str("v1 \tA\tB")), "Wrong Format");
    assert_eq!(message(Header::from_str("V1\tA\tB")), "Wrong Format");
    assert_eq!(message(Header::from_str("v\tA\tB")), "Wrong Format");
    assert_eq!(message(Header::from_str("v11\tA\tB")), "Wrong Format");
    assert_eq!(message(Header::from_str(" v1\tA\tB")), "Wrong Format");
}

#[test]
fn header_keeps_empty_names() {
    let h = Header::from_str("v1\t\t\t\t").unwrap();
    assert_eq!(h.namespace_a, "");
    assert_eq!(h.namespace_b, "");
    assert_eq!(h.namespaces, vec!["", ""]);
}

#[test]
fn header_names_may_hold_any_character_but_a_tab() {
    let h = Header::from_str("v1\tofficiel\u{e9}\t\u{4e2d}\u{6587} x\t\u{1f600}\r").unwrap();
    assert_eq!(h.namespace_a, "officiel\u{e9}");
    assert_eq!(h.namespace_b, "\u{4e2d}\u{6587} x");
    assert_eq!(h.namespaces, vec!["\u{1f600}\r"]);
}

#[test]
fn header_names_borrow_from_the_line() {
    let line = String::from("v1\tleft\tright\tthird");
    let h = Header::from_str(&line).unwrap();
    let start = line.as_ptr() as usize;
    assert_eq!(h.namespace_a.as_ptr() as usize, start + 3);
    assert_eq!(h.namespace_b.as_ptr() as usize, start + 8);
    assert_eq!(h.namespaces[0].as_ptr() as usize, start + 14);
}

#[test]
fn header_has_no_limit_on_namespaces() {
    let mut line = String::from("v1\ta\tb");
    for i in 0..500 {
        line.push('\t');
        line.push_str(&format!("n{}", i));
    }
    let h = Header::from_str(&line).unwrap();
    assert_eq!(h.namespaces.len(), 500);
    assert_eq!(h.namespaces[0], "n0");
    assert_eq!(h.namespaces[499], "n499");
}
