use tcap::cli::{Cli, Format, Mode, Select, Settings, DEFAULT_MAX_BYTES};
use tcap::config::{Config, FormatName};

/// A command line without any flag.
fn bare() -> Cli {
    Cli {
        select: Select::default(),
        format: Format::default(),
        copy: false,
        no_copy: false,
        quiet: false,
        no_quiet: false,
        backend: None,
        max_bytes: None,
    }
}

#[test]
fn defaults_to_one_block_at_index_one() {
    assert_eq!(Select::default().block_range(), (1, 1));
}

#[test]
fn lowercase_c_is_an_index() {
    let s = Select {
        cmd_index: Some(3),
        ..Default::default()
    };
    assert_eq!(s.block_range(), (1, 3));
}

#[test]
fn uppercase_c_is_a_count() {
    let s = Select {
        commands: Some(3),
        ..Default::default()
    };
    assert_eq!(s.block_range(), (3, 1));
}

#[test]
fn format_flags_map_to_modes() {
    let none = Format::default();
    assert_eq!(none.mode(), None, "no flag must not claim a mode");
    assert_eq!(Format { output: true, ..none }.mode(), Some(Mode::Output));
    assert_eq!(
        Format { command_only: true, ..none }.mode(),
        Some(Mode::Command)
    );
    assert_eq!(Format { raw: true, ..none }.mode(), Some(Mode::Raw));
    assert_eq!(Format { json: true, ..none }.mode(), Some(Mode::Json));
}

#[test]
fn bare_defaults_apply_with_no_flags_and_no_config() {
    let s = bare().resolve(&Config::default());
    assert_eq!(s.max_bytes, DEFAULT_MAX_BYTES);
    assert_eq!(s.mode, Mode::Annotated);
    assert!(!s.quiet);
    assert!(!s.copy);
    assert_eq!(s.backend, None);
}

#[test]
fn config_fills_in_where_no_flag_was_given() {
    let s = bare().resolve(&Config {
        backend: Some("tmux".into()),
        max_bytes: Some(8000),
        format: Some(FormatName::Json),
        quiet: Some(true),
        copy: Some(true),
    });
    assert_eq!(s.backend.as_deref(), Some("tmux"));
    assert_eq!(s.max_bytes, 8000);
    assert_eq!(s.mode, Mode::Json);
    assert!(s.quiet);
    assert!(s.copy);
}

#[test]
fn flags_beat_the_config_file() {
    let c = Config {
        backend: Some("kitty".into()),
        max_bytes: Some(8000),
        format: Some(FormatName::Json),
        ..Config::default()
    };
    let mut cli = bare();
    cli.backend = Some("tmux".into());
    cli.max_bytes = Some(100);
    cli.format.raw = true;
    let s = cli.resolve(&c);
    assert_eq!(s.backend.as_deref(), Some("tmux"));
    assert_eq!(s.max_bytes, 100);
    assert_eq!(s.mode, Mode::Raw);
}

/// A config boolean must be escapable from the command line, otherwise
/// `quiet = true` would be a one-way door.
#[test]
fn negative_flags_override_config_booleans() {
    let c = Config {
        quiet: Some(true),
        copy: Some(true),
        ..Config::default()
    };
    assert!(bare().resolve(&c).quiet);
    let mut no_quiet = bare();
    no_quiet.no_quiet = true;
    assert!(!no_quiet.resolve(&c).quiet);
    let mut no_copy = bare();
    no_copy.no_copy = true;
    assert!(!no_copy.resolve(&c).copy);
}

/// `max_bytes = 0` means "no truncation" and must survive as 0 rather than
/// being mistaken for absent and replaced by the default.
#[test]
fn zero_max_bytes_from_config_is_not_treated_as_unset() {
    let c = Config {
        max_bytes: Some(0),
        ..Config::default()
    };
    assert_eq!(bare().resolve(&c).max_bytes, 0);
}

#[test]
fn explicit_flag_value_matching_the_default_still_counts_as_set() {
    let c = Config {
        max_bytes: Some(10),
        ..Config::default()
    };
    let mut cli = bare();
    cli.max_bytes = Some(64000);
    let s: Settings = cli.resolve(&c);
    assert_eq!(s.max_bytes, DEFAULT_MAX_BYTES);
}

#[test]
fn nothing_is_counted_from_zero() {
    let zero_index = Select {
        cmd_index: Some(0),
        ..Default::default()
    };
    assert_eq!(zero_index.block_range(), (1, 1));
    let zero_count = Select {
        commands: Some(0),
        ..Default::default()
    };
    assert_eq!(zero_count.block_range(), (1, 1));
    let both = Select {
        cmd_index: Some(4),
        commands: Some(2),
        ..Default::default()
    };
    assert_eq!(both.block_range(), (2, 1));
}

#[test]
fn a_positive_flag_wins_over_its_opposite() {
    let mut cli = bare();
    cli.quiet = true;
    cli.no_quiet = true;
    cli.copy = true;
    cli.no_copy = true;
    let s = cli.resolve(&Config::default());
    assert!(s.quiet && s.copy);
    let off = Config {
        quiet: Some(false),
        copy: Some(false),
        ..Config::default()
    };
    let mut on = bare();
    on.quiet = true;
    on.copy = true;
    assert!(on.resolve(&off).quiet && on.resolve(&off).copy);
}

#[test]
fn every_format_name_is_a_mode() {
    for (name, mode, spelled) in [
        (FormatName::Annotated, Mode::Annotated, "annotated"),
        (FormatName::Output, Mode::Output, "output"),
        (FormatName::Command, Mode::Command, "command"),
        (FormatName::Raw, Mode::Raw, "raw"),
        (FormatName::Json, Mode::Json, "json"),
    ] {
        assert_eq!(Mode::from(name), mode);
        assert_eq!(name.spelling(), spelled);
        let c = Config {
            format: Some(name),
            ..Config::default()
        };
        assert_eq!(bare().resolve(&c).mode, mode);
    }
}
