use tiny_v1::{from_str, Content, File, Header, MappingEntry, TinyV1Error};

fn refused(text: &str) -> &'static str {
    let r: Result<File<'_>, TinyV1Error<'static>> = from_str(text);
    match r {
        Ok(f) => panic!("accepted: {:?}", f),
        Err(e) => e.0,
    }
}

fn content_refused(text: &str) -> &'static str {
    let r: Result<Content<'_>, TinyV1Error<'static>> = Content::from_str(text);
    match r {
        Ok(c) => panic!("accepted: {:?}", c),
        Err(e) => e.0,
    }
}

#[test]
fn file_with_two_entries() {
    let text = "v1\tA\tB\nCLASS\tfoo\nFIELD\tfoo\tI\ta\tb";
    let f = from_str(text).unwrap();
    assert_eq!(f.header, Header::from_str("v1\tA\tB").unwrap());
    assert_eq!(f.header.namespace_a, "A");
    assert_eq!(f.header.namespace_b, "B");
    assert!(f.header.namespaces.is_empty());
    assert_eq!(f.content.mapping_entries.len(), 2);
    assert_eq!(f.content.mapping_entries[0], MappingEntry::from_str("CLASS\tfoo").unwrap());
    assert_eq!(f.content.mapping_entries[1], MappingEntry::from_str("FIELD\tfoo\tI\ta\tb").unwrap());
    assert_eq!(f.content.mapping_entries[0], MappingEntry::CLASS { class_names: vec!["foo"] });
    assert_eq!(
        f.content.mapping_entries[1],
        MappingEntry::FIELD {
            parent_class_name_a: "foo",
            field_desc_a: "I",
            field_name_a: "a",
            field_name_b: "b",
            extra_ns_field_names: vec![],
        }
    );
}

#[test]
fn text_without_line_break_is_refused() {
    assert_eq!(refused(""), "There is no line break");
    assert_eq!(refused("v1\tA\tB"), "There is no line break");
    assert_eq!(refused("v2"), "There is no line break");
    assert_eq!(refused("CLASS\tfoo\rFIELD"), "There is no line break");
    assert_eq!(refused("\u{e9}\u{10a}\u{200a}"), "There is no line break");
}

#[test]
fn method_of_the_type_and_function_agree() {
    let text = "v1\tA\tB\tC\nMETHOD\tfoo\t()V\ta\tb\tc\nCLASS\tfoo\tbar\tbaz\n";
    assert_eq!(File::from_str(text).unwrap(), from_str(text).unwrap());
}

#[test]
fn reading_twice_gives_equal_files() {
    let text = "v1\tA\tB\nCLASS\tfoo\tbar\nMETHOD\tfoo\t()V\ta\tb\nFIELD\tfoo\tI\tx\ty\n";
    let first = from_str(text).unwrap();
    let second = from_str(text).unwrap();
    assert_eq!(first, second);
    let bad = "v1\tA\tB\nCLASS\tfoo\nFIELD\tfoo\n";
    assert_eq!(refused(bad), "descriptor not found");
    assert_eq!(refused(bad), "descriptor not found");
}

#[test]
fn header_only_file_has_no_entries() {
    let f = from_str("v1\tA\tB\n").unwrap();
    assert_eq!(f.header.namespace_b, "B");
    assert!(f.content.mapping_entries.is_empty());
}

#[test]
fn last_line_may_end_in_a_line_break() {
    let f = from_str("v1\tA\tB\nCLASS\tfoo\n").unwrap();
    assert_eq!(f.content.mapping_entries, vec![MappingEntry::CLASS { class_names: vec!["foo"] }]);
}

#[test]
fn header_error_comes_before_content_error() {
    assert_eq!(refused("v2\tA\tB\nWIDGET"), "Wrong Format");
    assert_eq!(refused("v1\tA\nWIDGET"), "Namespace b not found");
    assert_eq!(refused("v1\nCLASS\tfoo"), "Namespace a not found");
    assert_eq!(refused("\n"), "Wrong Format");
}

#[test]
fn content_error_is_that_of_the_first_refused_line() {
    assert_eq!(refused("v1\tA\tB\nCLASS\tfoo\nMETHOD\tfoo\t()V\ta\nWIDGET\n"), "name b not found");
    assert_eq!(refused("v1\tA\tB\nWIDGET\nMETHOD\tfoo\t()V\ta\n"), "Invalid Identifier");
}

#[test]
fn empty_line_in_the_content_is_refused() {
    assert_eq!(refused("v1\tA\tB\nCLASS\tfoo\n\nCLASS\tbar\n"), "Invalid Identifier");
    assert_eq!(refused("v1\tA\tB\n\n"), "Invalid Identifier");
    assert_eq!(refused("v1\tA\tB\nCLASS\tfoo\n\n"), "Invalid Identifier");
}

#[test]
fn carriage_return_before_a_line_break_ends_a_content_line() {
    let f = from_str("v1\tA\tB\nCLASS\tfoo\r\nCLASS\tbar\r\n").unwrap();
    assert_eq!(
        f.content.mapping_entries,
        vec![
            MappingEntry::CLASS { class_names: vec!["foo"] },
            MappingEntry::CLASS { class_names: vec!["bar"] },
        ]
    );
}

#[test]
fn carriage_return_elsewhere_is_kept() {
    let c = Content::from_str("CLASS\tfoo\r\r\nCLASS\tb\rar\nCLASS\tbaz\r").unwrap();
    assert_eq!(
        c.mapping_entries,
        vec![
            MappingEntry::CLASS { class_names: vec!["foo\r"] },
            MappingEntry::CLASS { class_names: vec!["b\rar"] },
            MappingEntry::CLASS { class_names: vec!["baz\r"] },
        ]
    );
}

#[test]
fn header_line_keeps_its_carriage_return() {
    let f = from_str("v1\tA\tB\r\nCLASS\tfoo\r\n").unwrap();
    assert_eq!(f.header.namespace_b, "B\r");
    assert_eq!(refused("v1\r\n"), "Wrong Format");
}

#[test]
fn only_the_first_line_break_ends_the_header() {
    let f = from_str("v1\tA\tB\nCLASS\tv1\nCLASS\tx").unwrap();
    assert_eq!(f.header.namespace_b, "B");
    assert_eq!(f.content.mapping_entries.len(), 2);
}

#[test]
fn empty_content_has_no_entries() {
    let c = Content::from_str("").unwrap();
    assert!(c.mapping_entries.is_empty());
}

#[test]
fn content_keeps_the_order_of_the_lines() {
    let mut text = String::new();
    for i in 0..200 {
        text.push_str(&format!("CLASS\tc{}\n", i));
    }
    let c = Content::from_str(&text).unwrap();
    assert_eq!(c.mapping_entries.len(), 200);
    for i in 0..200 {
        let name = format!("c{}", i);
        assert_eq!(c.mapping_entries[i], MappingEntry::CLASS { class_names: vec![name.as_str()] });
    }
}

#[test]
fn content_of_a_lone_line_break_is_refused() {
    assert_eq!(content_refused("\n"), "Invalid Identifier");
    assert_eq!(content_refused("\r\n"), "Invalid Identifier");
    assert_eq!(content_refused("\r"), "Invalid Identifier");
}

#[test]
fn entries_borrow_from_the_text() {
    let text = String::from("v1\tA\tB\nCLASS\tfoo\n");
    let f = from_str(&text).unwrap();
    let start = text.as_ptr() as usize;
    match &f.content.mapping_entries[0] {
        MappingEntry::CLASS { class_names } => {
            assert_eq!(class_names[0].as_ptr() as usize, start + 13);
        }
        other => panic!("not a class: {:?}", other),
    }
}

#[test]
fn error_does_not_borrow_from_the_text() {
    let e: TinyV1Error<'static> = {
        let text = String::from("v1\tA\tB\nWIDGET\n");
        from_str(&text).unwrap_err()
    };
    assert_eq!(e.0, "Invalid Identifier");
}
