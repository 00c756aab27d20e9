use whence::{present, Lookup, Output, OutputError, Stamped, Timestamp};

fn st(secs: i64, shown: &str) -> Stamped {
    Stamped { at: Timestamp { secs, nanos: 0 }, shown: shown.to_string() }
}

#[test]
fn success_json_exact_shape() {
    let o = Output {
        command: "ls".to_string(),
        path: "/bin/ls".to_string(),
        created: "C".to_string(),
        updated: None,
        modified: None,
        accessed: "A".to_string(),
        legend: None,
    };
    assert_eq!(
        o.to_json(),
        "{\n  \"command\": \"ls\",\n  \"path\": \"/bin/ls\",\n  \"created\": \"C\",\n  \"accessed\": \"A\"\n}"
    );
}

#[test]
fn error_json_has_exactly_three_fields() {
    let e = OutputError {
        command: "x".to_string(),
        path: "/p".to_string(),
        error: "boom".to_string(),
    };
    let s = e.to_json();
    assert_eq!(s, "{\n  \"command\": \"x\",\n  \"path\": \"/p\",\n  \"error\": \"boom\"\n}");
    let v: serde_json::Value = serde_json::from_str(&s).unwrap();
    let obj = v.as_object().unwrap();
    assert_eq!(obj.len(), 3);
    assert_eq!(obj["command"], "x");
    assert_eq!(obj["path"], "/p");
    assert_eq!(obj["error"], "boom");
}

#[test]
fn optional_fields_are_omitted_not_null() {
    let o = Output {
        command: "ls".to_string(),
        path: "/bin/ls".to_string(),
        created: "C".to_string(),
        updated: None,
        modified: Some("M".to_string()),
        accessed: "A".to_string(),
        legend: None,
    };
    let v: serde_json::Value = serde_json::from_str(&o.to_json()).unwrap();
    let obj = v.as_object().unwrap();
    assert_eq!(obj.len(), 5);
    assert!(obj.get("updated").is_none());
    assert!(obj.get("legend").is_none());
    assert_eq!(obj["modified"], "M");
}

#[test]
fn escapes_are_valid_json_for_serde() {
    let tricky = "a\"b\\c\nd\te\u{1}f\u{1f}g\u{8}h\u{c}i\rj {}[],:";
    let e = OutputError {
        command: tricky.to_string(),
        path: "/p".to_string(),
        error: "x".to_string(),
    };
    let v: serde_json::Value = serde_json::from_str(&e.to_json()).unwrap();
    assert_eq!(v["command"].as_str().unwrap(), tricky);
}

#[test]
fn success_json_round_trips_through_the_decoder() {
    let o = Output {
        command: "a\"b\\c\nd\te\u{1}f".to_string(),
        path: "/bin/x y".to_string(),
        created: "Tuesday, March 04, 2025 at 02:15 PM".to_string(),
        updated: Some("U\"\\\u{1f}".to_string()),
        modified: None,
        accessed: "A".to_string(),
        legend: Some("L1\nL2\n".to_string()),
    };
    let back = Output::from_json(&o.to_json()).unwrap();
    assert_eq!(back.command, o.command);
    assert_eq!(back.path, o.path);
    assert_eq!(back.created, o.created);
    assert_eq!(back.updated, o.updated);
    assert_eq!(back.modified, o.modified);
    assert_eq!(back.accessed, o.accessed);
    assert_eq!(back.legend, o.legend);
}

#[test]
fn error_json_round_trips_through_the_decoder() {
    let e = OutputError {
        command: "we\u{8}ird".to_string(),
        path: "/tmp/\"q\"".to_string(),
        error: "os said: no\r\n".to_string(),
    };
    let back = OutputError::from_json(&e.to_json()).unwrap();
    assert_eq!(back.command, e.command);
    assert_eq!(back.path, e.path);
    assert_eq!(back.error, e.error);
}

#[test]
fn decoder_rejects_other_shapes() {
    assert!(Output::from_json("").is_none());
    assert!(Output::from_json("{}").is_none());
    assert!(Output::from_json("{\n  \"command\": \"a\"\n}").is_none());
    let valid = "{\n  \"command\": \"x\",\n  \"path\": \"/p\",\n  \"error\": \"boom\"\n}";
    assert!(OutputError::from_json(valid).is_some());
    let trailing = format!("{} ", valid);
    assert!(OutputError::from_json(&trailing).is_none());
    assert!(OutputError::from_json("{\n  \"command\": \"x\",\n  \"path\": \"/p\"\n}").is_none());
}

#[test]
fn structured_error_output_through_the_pipeline() {
    let lookup = Lookup::MetadataError { message: "denied".to_string() };
    let out = present("x".to_string(), "/p".to_string(), lookup, false, true).unwrap();
    assert_eq!(out, "{\n  \"command\": \"x\",\n  \"path\": \"/p\",\n  \"error\": \"denied\"\n}");
}

#[test]
fn pipeline_output_decodes_back_to_the_record() {
    let lookup = Lookup::Found { created: st(10, "C"), modified: st(4, "M"), accessed: st(11, "A") };
    let out = present("git".to_string(), "/usr/bin/git".to_string(), lookup, true, true).unwrap();
    let o = Output::from_json(&out).unwrap();
    assert_eq!(o.command, "git");
    assert_eq!(o.path, "/usr/bin/git");
    assert_eq!(o.created, "C");
    assert_eq!(o.updated, Some("M".to_string()));
    assert_eq!(o.modified, None);
    assert_eq!(o.accessed, "A");
    assert!(o.legend.unwrap().starts_with("Updated: "));
}

#[test]
fn structured_verbose_before_case_has_updated_and_legend() {
    let lookup = Lookup::Found { created: st(10, "C"), modified: st(4, "M"), accessed: st(11, "A") };
    let out = present("git".to_string(), "/usr/bin/git".to_string(), lookup, true, true).unwrap();
    let v: serde_json::Value = serde_json::from_str(&out).unwrap();
    assert_eq!(v["updated"].as_str().unwrap(), "M");
    assert!(v.as_object().unwrap().get("modified").is_none());
    assert!(!v["legend"].as_str().unwrap().is_empty());
    assert_eq!(v["command"], "git");
    assert_eq!(v["path"], "/usr/bin/git");
}
