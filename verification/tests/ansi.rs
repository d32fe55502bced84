use tcap::ansi::{clean, strip};

#[test]
fn strips_sgr_colour() {
    assert_eq!(strip("\x1b[31mred\x1b[0m"), "red");
    assert_eq!(strip("\x1b[1;38;5;204mbold\x1b[m!"), "bold!");
}

#[test]
fn strips_osc_with_both_terminators() {
    // BEL-terminated
    assert_eq!(strip("\x1b]0;title\x07text"), "text");
    // ST-terminated
    assert_eq!(strip("\x1b]133;D;1\x1b\\text"), "text");
    // OSC 8 hyperlink wrapping a label
    assert_eq!(strip("\x1b]8;;http://x\x1b\\label\x1b]8;;\x1b\\"), "label");
}

#[test]
fn preserves_multibyte_utf8() {
    assert_eq!(strip("\x1b[32m✓ 日本語\x1b[0m"), "✓ 日本語");
}

#[test]
fn tolerates_truncated_escape() {
    assert_eq!(strip("ok\x1b"), "ok");
    assert_eq!(strip("ok\x1b["), "ok");
}

#[test]
fn resolves_carriage_returns() {
    assert_eq!(clean("10%\r50%\r100% done"), "100% done");
    assert_eq!(clean("plain\r\nsecond"), "plain\nsecond");
}

#[test]
fn trims_pane_padding_and_blank_edges() {
    assert_eq!(
        clean("\n\n  hello     \n\nworld   \n\n\n"),
        "  hello\n\nworld"
    );
}

#[test]
fn strips_string_sequences_of_every_kind() {
    for opener in ["]", "P", "_", "^", "X"] {
        assert_eq!(strip(&format!("a\x1b{opener}hidden\x07b")), "ab");
        assert_eq!(strip(&format!("a\x1b{opener}hidden\x1b\\b")), "ab");
        assert_eq!(strip(&format!("a\x1b{opener}hid\x1bden\x1b\x07b")), "ab");
        assert_eq!(strip(&format!("a\x1b{opener}hid\x1bden\x1b\\b")), "ab");
        assert_eq!(strip(&format!("a\x1b{opener}never ends")), "a");
    }
}

#[test]
fn a_two_byte_escape_takes_one_byte() {
    assert_eq!(strip("a\x1bcb"), "ab");
    assert_eq!(strip("a\x1b7b\x1b8c"), "abc");
    assert_eq!(strip("\x1b\x1bx"), "x");
}

/// Escape sequences are all ASCII, so other characters are never part of one.
#[test]
fn an_escape_before_a_wide_character_leaves_the_character() {
    assert_eq!(strip("\x1béx"), "éx");
    assert_eq!(strip("a\x1b✓x"), "a✓x");
    assert_eq!(strip("\x1b😀x"), "😀x");
}

/// What `tput sgr0` prints, before a word.
#[test]
fn charset_selection_disappears() {
    assert_eq!(strip("\x1b(B\x1b[mok"), "ok");
    assert_eq!(strip("a\x1b)0b\x1b#8c\x1b%Gd"), "abcd");
    assert_eq!(strip("a\x1b$(Cb"), "ab");
    assert_eq!(strip("ok\x1b("), "ok");
    assert_eq!(strip("ok\x1b$("), "ok");
    // Without a final character it is no selection.
    assert_eq!(strip("a\x1b(\nb"), "a\nb");
    assert_eq!(strip("a\x1b(éb"), "aéb");
    assert_eq!(strip("\x1b(\x1b[mok"), "ok");
}

#[test]
fn a_control_sequence_ends_at_its_final_character() {
    assert_eq!(strip("\x1b[2Jx"), "x");
    assert_eq!(strip("\x1b[?25l~"), "~");
    assert_eq!(strip("\x1b[日1mx"), "x");
    assert_eq!(strip("\x1b[~x"), "x");
}

#[test]
fn stripped_text_is_left_alone() {
    let once = strip("a\x1b[31mb\x1b]0;t\x07c\x1b✓d");
    assert_eq!(once, "abc✓d");
    assert_eq!(strip(&once), once);
    assert_eq!(strip("no escapes at all"), "no escapes at all");
    assert_eq!(strip("before\x1b[0m"), "before");
    assert!(!once.contains('\x1b'));
}

#[test]
fn cleaned_text_is_left_alone() {
    for s in ["", "\n \n", "a\r\n\r\n b \x1b[0m\r", "10%\r100%\n\x1b[K\nend  "] {
        let once = clean(s);
        assert_eq!(clean(&once), once, "{s:?}");
        for row in once.split('\n') {
            assert_eq!(row.trim_end(), row);
            assert!(!row.contains('\r'));
        }
    }
}

#[test]
fn a_carriage_return_of_a_line_end_does_not_blank_the_line() {
    assert_eq!(clean("one\r\ntwo\r\n"), "one\ntwo");
    assert_eq!(clean("old\rnew\r\nnext"), "new\nnext");
    assert_eq!(clean("gone\r\r\nkept"), "kept");
}
