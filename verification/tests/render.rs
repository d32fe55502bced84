use tcap::capture::Capture;
use tcap::cli::{Mode, Select};
use tcap::render::{
    apply_line_selection, format_duration, header, prepare, printed_or_error, render, render_one,
    shorten_home, to_json, truncate_middle,
};

fn cap_with_output(output: &str) -> Capture {
    Capture::new(output.to_string(), "test")
}

fn full_capture() -> Capture {
    Capture {
        command: Some("npm run build".into()),
        exit_code: Some(1),
        cwd: Some("/tmp/app".into()),
        duration_ms: Some(3200),
        output: "Error: Cannot find module 'foo'".into(),
        source: "tmux".into(),
        approximate: false,
    }
}

#[test]
fn last_lines_keeps_the_tail() {
    let s = Select {
        last_lines: Some(2),
        ..Default::default()
    };
    assert_eq!(apply_line_selection("a\nb\nc\nd", &s), "c\nd");
}

#[test]
fn last_lines_tolerates_asking_for_too_many() {
    let s = Select {
        last_lines: Some(99),
        ..Default::default()
    };
    assert_eq!(apply_line_selection("a\nb", &s), "a\nb");
}

#[test]
fn line_index_counts_from_the_end() {
    let one = Select {
        line_index: Some(1),
        ..Default::default()
    };
    let two = Select {
        line_index: Some(2),
        ..Default::default()
    };
    assert_eq!(apply_line_selection("a\nb\nc", &one), "c");
    assert_eq!(apply_line_selection("a\nb\nc", &two), "b");
}

#[test]
fn line_index_past_the_start_is_empty() {
    let s = Select {
        line_index: Some(9),
        ..Default::default()
    };
    assert_eq!(apply_line_selection("a\nb", &s), "");
}

#[test]
fn no_line_flags_passes_text_through() {
    assert_eq!(apply_line_selection("a\nb", &Select::default()), "a\nb");
}

#[test]
fn truncation_keeps_both_ends_and_marks_the_cut() {
    let text: String = (0..500)
        .map(|i| format!("line {i}"))
        .collect::<Vec<_>>()
        .join("\n");
    let out = truncate_middle(&text, 400);
    assert!(out.contains("line 0"), "head should survive");
    assert!(out.contains("line 499"), "tail should survive");
    assert!(out.contains("lines omitted"), "cut must be visible");
    assert!(out.len() < text.len());
}

#[test]
fn truncation_is_a_noop_when_it_fits_or_is_disabled() {
    assert_eq!(truncate_middle("short", 400), "short");
    let long = "x".repeat(10_000);
    assert_eq!(truncate_middle(&long, 0), long);
}

#[test]
fn annotated_output_has_header_then_blank_line_then_body() {
    let out = render(&[full_capture()], Mode::Annotated, None);
    assert_eq!(
        out,
        "$ npm run build\n# exit: 1  cwd: /tmp/app  took: 3.2s\n\nError: Cannot find module 'foo'"
    );
}

/// Without shell integration there is no metadata, but an approximate body
/// still has to say so.
#[test]
fn approximate_is_labelled_even_with_no_metadata() {
    let mut c = cap_with_output("mystery output");
    c.source = "kitty".into();
    c.approximate = true;
    let out = render(&[c], Mode::Annotated, None);
    assert!(out.contains("# note:"), "{out}");
    assert!(out.contains("mystery output"), "{out}");
}

#[test]
fn annotated_falls_back_to_bare_output_without_metadata() {
    let out = render(&[cap_with_output("just text")], Mode::Annotated, None);
    assert_eq!(out, "just text");
}

/// Metadata over a body the backend cannot vouch for must say so, or the
/// header reads as authoritative for text it may not describe.
#[test]
fn approximate_captures_are_labelled() {
    let mut c = full_capture();
    c.source = "kitty".into();
    c.approximate = true;
    let out = render(&[c], Mode::Annotated, None);
    assert!(
        out.contains("# note: kitty returns the last non-empty output"),
        "{out}"
    );

    // Exact backends must stay unqualified.
    let exact = render(&[full_capture()], Mode::Annotated, None);
    assert!(!exact.contains("# note:"), "{exact}");
}

#[test]
fn approximate_is_only_serialised_when_true() {
    let mut c = full_capture();
    c.approximate = true;
    assert!(render(&[c], Mode::Json, None).contains("\"approximate\": true"));
    assert!(!render(&[full_capture()], Mode::Json, None).contains("approximate"));
}

#[test]
fn exit_zero_is_still_reported() {
    let mut c = full_capture();
    c.exit_code = Some(0);
    assert!(render(&[c], Mode::Annotated, None).contains("exit: 0"));
}

#[test]
fn output_and_command_modes_are_narrow() {
    let c = full_capture();
    assert_eq!(
        render(std::slice::from_ref(&c), Mode::Output, None),
        "Error: Cannot find module 'foo'"
    );
    assert_eq!(render(&[c], Mode::Command, None), "npm run build");
}

#[test]
fn raw_mode_preserves_ansi_while_others_strip_it() {
    let mut raw = [cap_with_output("\x1b[31mred\x1b[0m")];
    prepare(&mut raw, Mode::Raw, &Select::default(), 0);
    assert!(raw[0].output.contains('\x1b'));

    let mut clean = [cap_with_output("\x1b[31mred\x1b[0m")];
    prepare(&mut clean, Mode::Output, &Select::default(), 0);
    assert_eq!(clean[0].output, "red");
}

#[test]
fn json_is_an_object_for_one_block_and_an_array_for_many() {
    let one = render(&[full_capture()], Mode::Json, None);
    assert!(one.trim_start().starts_with('{'));
    assert!(one.contains("\"exit_code\": 1"));

    let many = render(&[full_capture(), full_capture()], Mode::Json, None);
    assert!(many.trim_start().starts_with('['));
}

#[test]
fn json_omits_absent_metadata() {
    let out = render(&[cap_with_output("hi")], Mode::Json, None);
    assert!(!out.contains("exit_code"));
    assert!(out.contains("\"output\""));
}

#[test]
fn multiple_blocks_are_separated_by_a_blank_line() {
    let out = render(&[full_capture(), full_capture()], Mode::Annotated, None);
    assert_eq!(out.matches("$ npm run build").count(), 2);
    assert!(out.contains("'foo'\n\n$ npm run build"));
}

#[test]
fn durations_scale_by_magnitude() {
    assert_eq!(format_duration(250), "250ms");
    assert_eq!(format_duration(3200), "3.2s");
    assert_eq!(format_duration(65_000), "1m 5s");
}

#[test]
fn a_selection_is_stable_as_output_grows() {
    for n in 1..=2usize {
        let last = Select {
            last_lines: Some(n),
            ..Default::default()
        };
        let index = Select {
            line_index: Some(n),
            ..Default::default()
        };
        for s in [last, index] {
            assert_eq!(
                apply_line_selection("more\nlines\na\nb", &s),
                apply_line_selection("a\nb", &s)
            );
        }
    }
}

#[test]
fn an_index_is_the_first_of_a_count() {
    let text = "a\nb\nc";
    for n in 0..=3usize {
        let last = Select {
            last_lines: Some(n),
            ..Default::default()
        };
        let index = Select {
            line_index: Some(n),
            ..Default::default()
        };
        let tail = apply_line_selection(text, &last);
        assert_eq!(
            apply_line_selection(text, &index),
            tail.split('\n').next().unwrap()
        );
        // Taking the last lines again changes nothing.
        assert_eq!(apply_line_selection(&tail, &last), tail);
    }
}

#[test]
fn an_index_wins_over_a_count() {
    let both = Select {
        line_index: Some(2),
        last_lines: Some(3),
        ..Default::default()
    };
    assert_eq!(apply_line_selection("a\nb\nc", &both), "b");
}

#[test]
fn a_cut_text_has_an_exact_shape() {
    let text: String = (0..50)
        .map(|i| format!("line {i:02}"))
        .collect::<Vec<_>>()
        .join("\n");
    // A budget of 36 bytes for lines of 8 with their ends: two at the start,
    // two at the end.
    let out = truncate_middle(&text, 100);
    assert_eq!(
        out,
        "line 00\nline 01\n\n[... 46 lines omitted by tcap --max-bytes ...]\n\nline 48\nline 49"
    );
    assert!(out.len() <= 100);
    assert_eq!(truncate_middle(&out, 100), out);
}

#[test]
fn a_small_budget_leaves_only_the_mark() {
    let text = "x\n".repeat(60);
    assert_eq!(
        truncate_middle(&text, 10),
        "\n\n[... 61 lines omitted by tcap --max-bytes ...]\n\n"
    );
}

#[test]
fn one_long_line_is_cut_whole() {
    let text = "é".repeat(500);
    assert_eq!(
        truncate_middle(&text, 900),
        "\n\n[... 1 lines omitted by tcap --max-bytes ...]\n\n"
    );
    // 1000 bytes in UTF-8.
    assert_eq!(truncate_middle(&text, 1000), text);
    assert_ne!(truncate_middle(&text, 999), text);
}

#[test]
fn cut_texts_keep_to_their_budget() {
    let text: String = (0..300)
        .map(|i| "ab✓".repeat(i % 13))
        .collect::<Vec<_>>()
        .join("\n");
    for max in 1..800 {
        assert!(truncate_middle(&text, max).len() <= max.max(64), "{max}");
    }
}

#[test]
fn durations_round_as_binary_fractions_do() {
    for ms in 1000..60_000u64 {
        assert_eq!(format_duration(ms), format!("{:.1}s", ms as f64 / 1000.0));
    }
    assert_eq!(format_duration(0), "0ms");
    assert_eq!(format_duration(999), "999ms");
    assert_eq!(format_duration(1050), "1.1s");
    assert_eq!(format_duration(1150), "1.1s");
    assert_eq!(format_duration(1250), "1.2s");
    assert_eq!(format_duration(59_999), "60.0s");
    assert_eq!(format_duration(60_000), "1m 0s");
    assert_eq!(format_duration(3_600_000), "60m 0s");
}

#[test]
fn the_home_directory_is_shortened() {
    assert_eq!(shorten_home("/home/u/x", Some("/home/u")), "~/x");
    assert_eq!(shorten_home("/home/u", Some("/home/u")), "~");
    assert_eq!(shorten_home("/home/user", Some("/home/u")), "~ser");
    assert_eq!(shorten_home("/srv", Some("/home/u")), "/srv");
    assert_eq!(shorten_home("/srv", Some("")), "/srv");
    assert_eq!(shorten_home("/srv", None), "/srv");
}

#[test]
fn the_header_says_all_that_is_known() {
    let mut c = full_capture();
    c.exit_code = Some(-7);
    c.cwd = Some("/home/u/app".into());
    assert_eq!(
        header(&c, Some("/home/u")),
        "$ npm run build\n# exit: -7  cwd: ~/app  took: 3.2s\n"
    );
    c.approximate = true;
    c.source = "kitty".into();
    assert_eq!(
        header(&c, None),
        "$ npm run build\n# exit: -7  cwd: /home/u/app  took: 3.2s\n\
         # note: kitty returns the last non-empty output, which may not be this command's\n"
    );
    assert_eq!(header(&cap_with_output("x"), None), "");
}

#[test]
fn a_block_without_output_is_its_header() {
    let mut c = full_capture();
    c.output = String::new();
    assert_eq!(
        render(&[c], Mode::Annotated, None),
        "$ npm run build\n# exit: 1  cwd: /tmp/app  took: 3.2s"
    );
    let mut quiet = cap_with_output("");
    quiet.exit_code = Some(0);
    assert_eq!(render(&[quiet], Mode::Annotated, None), "# exit: 0");
}

#[test]
fn raw_output_is_verbatim_and_other_output_has_no_escapes() {
    let text = "\n\x1b[31m a \x1b[0m  \r\n\nb\x1b]0;t\x07  \n\n";
    let mut caps = [cap_with_output(text), cap_with_output(text)];
    prepare(&mut caps, Mode::Raw, &Select::default(), 0);
    assert_eq!(caps[0].output, text);
    prepare(&mut caps, Mode::Annotated, &Select::default(), 0);
    assert_eq!(caps[0].output, " a\n\nb");
    assert_eq!(caps[1].output, " a\n\nb");
}

/// The line flags apply to each block on its own.
#[test]
fn preparing_cleans_then_selects_then_cuts() {
    let select = Select {
        last_lines: Some(2),
        ..Default::default()
    };
    let mut caps = [cap_with_output("1\n2\n3\n\n"), cap_with_output("x")];
    prepare(&mut caps, Mode::Output, &select, 64_000);
    assert_eq!(caps[0].output, "2\n3");
    assert_eq!(caps[1].output, "x");
    assert_eq!(caps[1].source, "test");
}

#[test]
fn a_json_object_is_exact() {
    assert_eq!(
        render(&[full_capture()], Mode::Json, None),
        "{\n  \"command\": \"npm run build\",\n  \"cwd\": \"/tmp/app\",\n  \"duration_ms\": 3200,\n  \
         \"exit_code\": 1,\n  \"output\": \"Error: Cannot find module 'foo'\",\n  \"source\": \"tmux\"\n}"
    );
}

#[test]
fn json_can_be_read_back() {
    let mut c = full_capture();
    c.output = "\"quoted\"\n\ttab \u{1b} ✓".into();
    c.approximate = true;
    c.exit_code = Some(-1);
    let text = render(&[c, cap_with_output("y")], Mode::Json, None);
    let value: serde_json::Value = serde_json::from_str(&text).unwrap();
    let list = value.as_array().unwrap();
    assert_eq!(list.len(), 2);
    let first = list[0].as_object().unwrap();
    assert_eq!(first["output"].as_str(), Some("\"quoted\"\n\ttab \u{1b} ✓"));
    assert_eq!(first["approximate"].as_bool(), Some(true));
    assert_eq!(first["exit_code"].as_i64(), Some(-1));
    assert_eq!(first["duration_ms"].as_u64(), Some(3200));
    assert_eq!(first["command"].as_str(), Some("npm run build"));
    assert_eq!(first["cwd"].as_str(), Some("/tmp/app"));
    assert_eq!(first["source"].as_str(), Some("tmux"));
    let second = list[1].as_object().unwrap();
    let names: Vec<&String> = second.keys().collect();
    assert_eq!(names, ["output", "source"]);
}

#[test]
fn no_captures_are_an_empty_array() {
    assert_eq!(render(&[], Mode::Json, None), "[]");
    assert_eq!(render(&[], Mode::Output, None), "");
}

#[test]
fn one_capture_becomes_one_value() {
    let v = to_json(&cap_with_output("hi"));
    assert_eq!(v["output"].as_str(), Some("hi"));
    assert_eq!(v["source"].as_str(), Some("test"));
    assert!(v.get("command").is_none());
}

#[test]
fn a_value_that_cannot_be_printed_says_why() {
    assert_eq!(printed_or_error(Ok("{}".into())), "{}");
    assert_eq!(printed_or_error(Err("bad".into())), "{\"error\": \"bad\"}");
}

#[test]
fn every_mode_renders_one_block() {
    let c = full_capture();
    assert_eq!(render_one(&c, Mode::Raw, None), c.output);
    assert_eq!(render_one(&c, Mode::Output, None), c.output);
    assert_eq!(render_one(&c, Mode::Command, None), "npm run build");
    assert_eq!(render_one(&cap_with_output("x"), Mode::Command, None), "");
}
