use whence::{found, present, Lookup, Output, OutputError, Stamped, Timestamp};

fn st(secs: i64, shown: &str) -> Stamped {
    Stamped { at: Timestamp { secs, nanos: 0 }, shown: shown.to_string() }
}

const LEGEND: &str = "Updated: This is when the command was likely last modified by its developers before being added to your computer.\nCreated: This is when the command was first added to your computer.\nModified: This is when the command was last changed or updated on your computer.\nAccessed: This is when the command was last accessed or executed on your computer.\n";

#[test]
fn timestamp_order() {
    assert!(Timestamp { secs: 1, nanos: 5 }.is_before(&Timestamp { secs: 2, nanos: 0 }));
    assert!(Timestamp { secs: 1, nanos: 5 }.is_before(&Timestamp { secs: 1, nanos: 6 }));
    assert!(!Timestamp { secs: 1, nanos: 5 }.is_before(&Timestamp { secs: 1, nanos: 5 }));
    assert!(!Timestamp { secs: 2, nanos: 0 }.is_before(&Timestamp { secs: 1, nanos: 9 }));
}

#[test]
fn equal_timestamps_text_has_no_updated_or_modified_line() {
    let lookup = Lookup::Found { created: st(5, "C"), modified: st(5, "M"), accessed: st(7, "A") };
    let out = present("ls".to_string(), "/bin/ls".to_string(), lookup, false, false).unwrap();
    assert_eq!(out, "Path          : /bin/ls\nCreated       : C\nAccessed      : A\n");
}

#[test]
fn modified_after_created_gets_modified_line() {
    let lookup = Lookup::Found { created: st(5, "C"), modified: st(9, "M"), accessed: st(7, "A") };
    let out = present("x".to_string(), "/p".to_string(), lookup, false, false).unwrap();
    assert_eq!(out, "Path          : /p\nCreated       : C\nModified  : M\nAccessed      : A\n");
}

#[test]
fn modified_before_created_gets_updated_line() {
    let lookup = Lookup::Found { created: st(5, "C"), modified: st(2, "M"), accessed: st(7, "A") };
    let out = present("x".to_string(), "/p".to_string(), lookup, false, false).unwrap();
    assert_eq!(out, "Path          : /p\nUpdated   : M\nCreated       : C\nAccessed      : A\n");
}

#[test]
fn verbose_text_has_legend_block_and_command_line() {
    let lookup = Lookup::Found { created: st(5, "C"), modified: st(5, "M"), accessed: st(5, "A") };
    let out = present("ls".to_string(), "/bin/ls".to_string(), lookup, true, false).unwrap();
    let expected = format!(
        "Legend\n{}\nCommand       : ls\nPath          : /bin/ls\nCreated       : C\nAccessed      : A\n",
        LEGEND
    );
    assert_eq!(out, expected);
}

#[test]
fn not_found_prints_nothing_under_every_flag() {
    for &(verbose, structured) in &[(false, false), (true, false), (false, true), (true, true)] {
        let r = present(
            "doesnotexist123".to_string(),
            "".to_string(),
            Lookup::NotFound,
            verbose,
            structured,
        );
        assert!(r.is_none());
    }
}

#[test]
fn stat_failure_verbose_is_the_single_error_line() {
    let lookup = Lookup::MetadataError {
        message: "No such file or directory (os error 2)".to_string(),
    };
    let out = present("x".to_string(), "/p/x".to_string(), lookup, true, false).unwrap();
    assert_eq!(
        out,
        "Error: could not get the metadata for command: x at path: /p/x. Error: No such file or directory (os error 2)"
    );
}

#[test]
fn stat_failure_is_silent_by_default() {
    let lookup = Lookup::MetadataError { message: "denied".to_string() };
    assert!(present("x".to_string(), "/p/x".to_string(), lookup, false, false).is_none());
}

#[test]
fn error_to_string_matches_fixed_wording() {
    let e = OutputError {
        command: "git".to_string(),
        path: "/usr/bin/git".to_string(),
        error: "boom".to_string(),
    };
    assert_eq!(
        e.to_string(),
        "Error: could not get the metadata for command: git at path: /usr/bin/git. Error: boom"
    );
}

#[test]
fn output_to_string_non_verbose_ignores_legend() {
    let o = Output {
        command: "ls".to_string(),
        path: "/bin/ls".to_string(),
        created: "C".to_string(),
        updated: None,
        modified: None,
        accessed: "A".to_string(),
        legend: Some(LEGEND.to_string()),
    };
    assert_eq!(o.to_string(false), "Path          : /bin/ls\nCreated       : C\nAccessed      : A\n");
}

#[test]
fn same_inputs_render_identically() {
    let mk = || Lookup::Found { created: st(5, "C"), modified: st(9, "M"), accessed: st(7, "A") };
    let a = present("x".to_string(), "/p".to_string(), mk(), true, false);
    let b = present("x".to_string(), "/p".to_string(), mk(), true, false);
    assert_eq!(a, b);
}

#[test]
fn stamp_local_renders_ordinary_instants() {
    let t = Timestamp { secs: 1_700_000_000, nanos: 0 };
    let s = whence::stamp_local(t);
    assert_eq!(s.at, t);
    assert!(s.shown.contains("2023"));
    assert!(s.shown.contains(" at "));
}

#[test]
fn found_keeps_the_instants() {
    let c = Timestamp { secs: 3, nanos: 1 };
    let m = Timestamp { secs: 4, nanos: 2 };
    let a = Timestamp { secs: 5, nanos: 3 };
    match found(c, m, a) {
        Lookup::Found { created, modified, accessed } => {
            assert_eq!(created.at, c);
            assert_eq!(modified.at, m);
            assert_eq!(accessed.at, a);
        },
        _ => panic!("expected a metadata snapshot"),
    }
}
