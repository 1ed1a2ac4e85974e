use y2j::check_convert_preconditions;
use y2j::convert_text;
use y2j::decode_json;
use y2j::derive_output_name;
use y2j::is_eligible_name;
use y2j::plan_directory;
use y2j::Error;
use y2j::Notes;

#[test]
fn end_to_end_root_and_child() {
    let out = convert_text("title: root\nnotes:\n  - title: child\n").unwrap();
    assert_eq!(
        out,
        "{\"title\":\"root\",\"notes\":[{\"title\":\"child\",\"notes\":null}]}"
    );
    let back = decode_json(&out).unwrap();
    assert_eq!(back.title, "root");
    let children = back.notes.unwrap();
    assert_eq!(children.len(), 1);
    assert_eq!(children[0].title, "child");
    assert!(children[0].notes.is_none());
}

#[test]
fn end_to_end_flow_style_input() {
    let out = convert_text("{title: \"root\", notes: [{title: \"child\"}]}").unwrap();
    assert_eq!(
        out,
        "{\"title\":\"root\",\"notes\":[{\"title\":\"child\",\"notes\":null}]}"
    );
}

#[test]
fn empty_input_is_rejected() {
    assert!(matches!(Notes::from_yaml(""), Err(Error::DecodeError(_))));
    assert!(matches!(decode_json(""), Err(Error::DecodeError(_))));
}

#[test]
fn end_to_end_leaf_keeps_children_absent() {
    let n = Notes::from_yaml("title: leaf\n").unwrap();
    assert_eq!(n.title, "leaf");
    assert!(n.notes.is_none());
    let text = n.to_json().unwrap();
    assert_eq!(text, "{\"title\":\"leaf\",\"notes\":null}");
    let back = decode_json(&text).unwrap();
    assert_eq!(back.title, "leaf");
    assert!(back.notes.is_none());
}

#[test]
fn round_trip_keeps_empty_children_distinct_from_absent() {
    let with_empty = Notes {
        title: String::from("a"),
        notes: Some(vec![]),
    };
    let text = with_empty.to_json().unwrap();
    assert_eq!(text, "{\"title\":\"a\",\"notes\":[]}");
    let back = decode_json(&text).unwrap();
    assert_eq!(back.title, "a");
    assert_eq!(back.notes.map(|v| v.len()), Some(0));

    let without = Notes {
        title: String::from("a"),
        notes: None,
    };
    let text2 = without.to_json().unwrap();
    assert_eq!(text2, "{\"title\":\"a\",\"notes\":null}");
    let back2 = decode_json(&text2).unwrap();
    assert!(back2.notes.is_none());
}

#[test]
fn round_trip_nested_tree() {
    let tree = Notes {
        title: String::from("root"),
        notes: Some(vec![
            Notes {
                title: String::from("left"),
                notes: Some(vec![Notes {
                    title: String::from("deep"),
                    notes: None,
                }]),
            },
            Notes {
                title: String::from("right"),
                notes: None,
            },
        ]),
    };
    let text = tree.to_json().unwrap();
    let back = decode_json(&text).unwrap();
    assert_eq!(back.title, "root");
    let kids = back.notes.unwrap();
    assert_eq!(kids.len(), 2);
    assert_eq!(kids[0].title, "left");
    assert_eq!(kids[0].notes.as_ref().unwrap()[0].title, "deep");
    assert_eq!(kids[1].title, "right");
    assert!(kids[1].notes.is_none());
}

#[test]
fn round_trip_escaped_title() {
    let n = Notes {
        title: String::from("a\"b\\c\nd\te\u{7}f"),
        notes: None,
    };
    let text = n.to_json().unwrap();
    assert_eq!(
        text,
        "{\"title\":\"a\\\"b\\\\c\\nd\\te\\u0007f\",\"notes\":null}"
    );
    let back = decode_json(&text).unwrap();
    assert_eq!(back.title, "a\"b\\c\nd\te\u{7}f");
}

#[test]
fn decode_accepts_unicode_escape() {
    let back = decode_json("{\"title\":\"\\u0007\",\"notes\":null}").unwrap();
    assert_eq!(back.title, "\u{7}");
}

#[test]
fn yaml_title_with_newline_encodes_with_escape() {
    let out = convert_text("title: \"a\\nb\"\n").unwrap();
    assert_eq!(out, "{\"title\":\"a\\nb\",\"notes\":null}");
}

#[test]
fn missing_title_is_rejected() {
    assert!(matches!(
        Notes::from_yaml("notes: []\n"),
        Err(Error::DecodeError(_))
    ));
    assert!(matches!(
        Notes::from_yaml("other: 1\n"),
        Err(Error::DecodeError(_))
    ));
    assert!(matches!(
        decode_json("{\"notes\":null}"),
        Err(Error::DecodeError(_))
    ));
}

#[test]
fn non_string_title_is_rejected() {
    assert!(matches!(
        Notes::from_yaml("title: 3\n"),
        Err(Error::DecodeError(_))
    ));
    assert!(matches!(
        Notes::from_yaml("title:\n  - a\n"),
        Err(Error::DecodeError(_))
    ));
    assert!(matches!(
        decode_json("{\"title\":7,\"notes\":null}"),
        Err(Error::DecodeError(_))
    ));
}

#[test]
fn malformed_yaml_is_rejected() {
    assert!(matches!(
        Notes::from_yaml(": : :\n"),
        Err(Error::DecodeError(_))
    ));
    assert!(convert_text("[unclosed\n").is_err());
}

#[test]
fn extra_fields_are_ignored() {
    let out = convert_text("title: x\nextra: 42\nmore: 1.5\n").unwrap();
    assert_eq!(out, "{\"title\":\"x\",\"notes\":null}");
}

#[test]
fn key_order_does_not_matter() {
    let out = convert_text("notes:\n  - title: a\ntitle: root\n").unwrap();
    assert_eq!(
        out,
        "{\"title\":\"root\",\"notes\":[{\"title\":\"a\",\"notes\":null}]}"
    );
}

#[test]
fn missing_input_fails_with_io_error() {
    let r = check_convert_preconditions(false, true);
    assert!(matches!(r, Err(Error::IoError(_))));
    let msg_holder = check_convert_preconditions(false, true).unwrap_err();
    assert_eq!(msg_holder.message(), "infile does not exist");
}

#[test]
fn missing_output_directory_fails_with_io_error() {
    let r = check_convert_preconditions(true, false);
    assert!(matches!(r, Err(Error::IoError(_))));
    assert_eq!(
        check_convert_preconditions(true, false).unwrap_err().message(),
        "outfile directory does not exist"
    );
    assert!(check_convert_preconditions(true, true).is_ok());
}

#[test]
fn directory_plan_keeps_only_eligible_files() {
    let entries = vec![
        (String::from("a.yaml"), true),
        (String::from("b.yml"), true),
        (String::from("c.txt"), true),
        (String::from("sub"), false),
    ];
    let plan = plan_directory(&entries);
    assert_eq!(plan.len(), 2);
    assert_eq!(plan[0].0, "a.yaml");
    assert_eq!(plan[0].1, "a.json");
    assert_eq!(plan[1].0, "b.yml");
    assert_eq!(plan[1].1, "b.json");
}

#[test]
fn directory_plan_ignores_directories_with_eligible_names() {
    let entries = vec![
        (String::from("dir.yaml"), false),
        (String::from("real.yml"), true),
    ];
    let plan = plan_directory(&entries);
    assert_eq!(plan.len(), 1);
    assert_eq!(plan[0].0, "real.yml");
}

#[test]
fn eligibility_is_case_sensitive_suffix_match() {
    assert!(is_eligible_name("a.yaml"));
    assert!(is_eligible_name("a.yml"));
    assert!(is_eligible_name(".yaml"));
    assert!(!is_eligible_name("a.YAML"));
    assert!(!is_eligible_name("a.yamlx"));
    assert!(!is_eligible_name("ayaml"));
    assert!(!is_eligible_name("c.txt"));
}

#[test]
fn derived_names_replace_the_extension() {
    assert_eq!(derive_output_name("a.yaml"), "a.json");
    assert_eq!(derive_output_name("notes.yml"), "notes.json");
    assert_eq!(derive_output_name("a.b.yaml"), "a.b.json");
    assert_eq!(derive_output_name(".yaml"), ".yaml.json");
    assert_eq!(derive_output_name("no_ext"), "no_ext.json");
}

#[test]
fn batch_plans_all_files_and_second_failure_aborts() {
    let entries = vec![
        (String::from("a.yaml"), true),
        (String::from("b.yaml"), true),
        (String::from("c.yaml"), true),
    ];
    let plan = plan_directory(&entries);
    assert_eq!(plan.len(), 3);
    // a caller walking the plan in order stops at the first failure,
    // so the file after a malformed one is never processed
    let contents = ["title: ok\n", "title: [broken\n", "title: never\n"];
    let mut converted = 0;
    let mut failed = false;
    for (k, _) in plan.iter().enumerate() {
        match convert_text(contents[k]) {
            Ok(_) => converted += 1,
            Err(_) => {
                failed = true;
                break;
            }
        }
    }
    assert!(failed);
    assert_eq!(converted, 1);
}

#[test]
fn error_messages_are_carried() {
    let e = Error::DecodeError(String::from("bad input"));
    assert_eq!(e.message(), "bad input");
    let e2 = Error::EncodeError(String::from("cannot write"));
    assert_eq!(e2.message(), "cannot write");
    let e3 = Error::IoError(String::from("gone"));
    assert_eq!(e3.message(), "gone");
}
