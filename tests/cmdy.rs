use cmdy::cli::{parse_args, CliCommand};
use cmdy::config::{CommandSet, Config};
use cmdy::log::{config_text, log_entry, log_line, logs_text, EMPTY_CONFIG, NO_LOGS};
use cmdy::menu::{directory_choice, set_choice, DirectoryChoice, SetChoice};
use cmdy::runner::{mode_of, spinner_glyph, Execution, Mode, Step};
use cmdy::split::split_commands;

fn strings(v: &[&str]) -> Vec<String> {
    v.iter().map(|s| s.to_string()).collect()
}

fn sample_config() -> Config {
    let mut c = Config::empty();
    c.add_directory("/srv/app".to_string());
    c.add_directory("/home/me/site".to_string());
    c.add_command_set(CommandSet::new("build".to_string(), strings(&["make", "make test"])));
    c.add_command_set(CommandSet::new("deploy".to_string(), strings(&["npm run dev"])));
    c
}

fn set_names(c: &Config) -> Vec<String> {
    c.command_sets.iter().map(|s| s.name.clone()).collect()
}

#[test]
fn split_keeps_trailing_empty_command() {
    assert_eq!(split_commands("a, b ,c,"), strings(&["a", "b", "c", ""]));
}

#[test]
fn split_trims_each_piece() {
    assert_eq!(
        split_commands("  cargo build ,\tcargo test  "),
        strings(&["cargo build", "cargo test"])
    );
}

#[test]
fn split_empty_input_gives_one_empty_command() {
    assert_eq!(split_commands(""), strings(&[""]));
    assert_eq!(split_commands(","), strings(&["", ""]));
}

#[test]
fn split_single_command() {
    assert_eq!(split_commands("npm run dev"), strings(&["npm run dev"]));
}

#[test]
fn empty_config_when_nothing_stored() {
    let text = config_text(None);
    assert_eq!(text, EMPTY_CONFIG);
    let v: serde_json::Value = serde_json::from_str(&text).unwrap();
    assert!(v["directories"].as_array().unwrap().is_empty());
    assert!(v["command_sets"].as_array().unwrap().is_empty());
    let c = Config::empty();
    assert!(c.directories.is_empty());
    assert!(c.command_sets.is_empty());
}

#[test]
fn stored_config_text_is_kept() {
    let stored = "{\"directories\": [\"/x\"], \"command_sets\": []}".to_string();
    assert_eq!(config_text(Some(stored.clone())), stored);
}

#[test]
fn run_halts_at_first_failure() {
    let mut e = Execution::new(strings(&["true", "false", "true"]));
    assert_eq!(e.step(), Step::Run { index: 0, mode: Mode::Foreground });
    e.record(true);
    assert_eq!(e.step(), Step::Run { index: 1, mode: Mode::Foreground });
    e.record(false);
    assert_eq!(e.step(), Step::Halt(1));
    assert!(!e.should_log());
    e.record(true);
    assert_eq!(e.step(), Step::Halt(1));
    assert_eq!(e.done, 1);
    assert!(!e.should_log());
}

#[test]
fn run_completes_and_logs_once() {
    let mut e = Execution::new(strings(&["true", "true"]));
    assert!(!e.should_log());
    e.record(true);
    assert!(!e.should_log());
    e.record(true);
    assert_eq!(e.step(), Step::Log);
    assert!(e.should_log());
    let line = log_entry("build");
    assert_eq!(line.lines().count(), 1);
    assert!(line.ends_with(" - Executed: build\n"));
    let stamp = &line[..line.len() - " - Executed: build\n".len()];
    assert_eq!(stamp.len(), 19);
    for (i, c) in stamp.chars().enumerate() {
        match i {
            4 | 7 => assert_eq!(c, '-'),
            10 => assert_eq!(c, ' '),
            13 | 16 => assert_eq!(c, ':'),
            _ => assert!(c.is_ascii_digit()),
        }
    }
}

#[test]
fn bounded_command_never_fails() {
    let mut e = Execution::new(strings(&["npm run dev", "true"]));
    assert_eq!(e.step(), Step::Run { index: 0, mode: Mode::Bounded });
    e.record(false);
    assert_eq!(e.step(), Step::Run { index: 1, mode: Mode::Foreground });
    e.record(true);
    assert!(e.should_log());
}

#[test]
fn empty_set_logs_at_once() {
    let e = Execution::new(Vec::new());
    assert_eq!(e.step(), Step::Log);
    assert!(e.should_log());
}

#[test]
fn only_the_exact_literal_is_bounded() {
    assert_eq!(mode_of(&"npm run dev".to_string()), Mode::Bounded);
    assert_eq!(mode_of(&"npm run dev ".to_string()), Mode::Foreground);
    assert_eq!(mode_of(&"npm run build".to_string()), Mode::Foreground);
}

#[test]
fn spinner_cycles_through_four_glyphs() {
    let seen: Vec<&str> = (0..6).map(spinner_glyph).collect();
    assert_eq!(seen, vec!["|", "/", "-", "\\", "|", "/"]);
}

#[test]
fn log_line_layout() {
    assert_eq!(
        log_line("2024-01-02 03:04:05", "deploy"),
        "2024-01-02 03:04:05 - Executed: deploy\n"
    );
}

#[test]
fn logs_fall_back_to_notice() {
    assert_eq!(logs_text(None), NO_LOGS);
    assert_eq!(logs_text(None), "No logs found.");
    assert_eq!(logs_text(Some("a\nb\n".to_string())), "a\nb\n");
}

#[test]
fn index_zero_is_current_directory() {
    for stored in 0..5 {
        assert_eq!(directory_choice(0, stored), Some(DirectoryChoice::Current));
    }
    let mut c = sample_config();
    let dir = c.resolve_directory(DirectoryChoice::Current, "/work".to_string(), String::new());
    assert_eq!(dir, "/work");
    assert_eq!(c.directories, strings(&["/srv/app", "/home/me/site"]));
}

#[test]
fn directory_menu_entries() {
    let c = sample_config();
    assert_eq!(
        c.directory_menu(),
        strings(&["Current Directory", "/srv/app", "/home/me/site", "Enter New Directory"])
    );
    assert_eq!(directory_choice(1, 2), Some(DirectoryChoice::Stored(0)));
    assert_eq!(directory_choice(2, 2), Some(DirectoryChoice::Stored(1)));
    assert_eq!(directory_choice(3, 2), Some(DirectoryChoice::New));
    assert_eq!(directory_choice(4, 2), None);
}

#[test]
fn stored_directory_is_resolved_by_position() {
    let mut c = sample_config();
    let dir = c.resolve_directory(DirectoryChoice::Stored(1), "/work".to_string(), String::new());
    assert_eq!(dir, "/home/me/site");
    assert_eq!(c.directories.len(), 2);
}

#[test]
fn new_directory_is_appended() {
    let mut c = sample_config();
    let dir = c.resolve_directory(DirectoryChoice::New, "/work".to_string(), "/tmp/new".to_string());
    assert_eq!(dir, "/tmp/new");
    assert_eq!(c.directories, strings(&["/srv/app", "/home/me/site", "/tmp/new"]));
    assert_eq!(c.command_sets.len(), 2);
}

#[test]
fn set_menu_entries() {
    let c = sample_config();
    assert_eq!(c.set_menu(), strings(&["build", "deploy", "Create new command set"]));
    assert!(c.offers_set_menu());
    assert!(!Config::empty().offers_set_menu());
    assert_eq!(set_choice(0, 2), Some(SetChoice::Existing(0)));
    assert_eq!(set_choice(2, 2), Some(SetChoice::New));
    assert_eq!(set_choice(3, 2), None);
    assert_eq!(set_choice(0, 0), Some(SetChoice::New));
}

#[test]
fn create_set_splits_input() {
    let mut c = sample_config();
    let i = c.create_command_set("lint".to_string(), "cargo fmt , cargo clippy,");
    assert_eq!(i, 2);
    assert_eq!(c.command_sets[2].name, "lint");
    assert_eq!(c.command_sets[2].commands, strings(&["cargo fmt", "cargo clippy", ""]));
    assert_eq!(c.find_command_set(&"lint".to_string()), Some(2));
}

#[test]
fn lookup_returns_first_match() {
    let mut c = sample_config();
    c.add_command_set(CommandSet::new("build".to_string(), strings(&["cargo build"])));
    assert_eq!(c.find_command_set(&"build".to_string()), Some(0));
    assert_eq!(c.find_command_set(&"deploy".to_string()), Some(1));
    assert_eq!(c.find_command_set(&"missing".to_string()), None);
    assert_eq!(c.command_set_names(), strings(&["build", "deploy", "build"]));
}

#[test]
fn delete_absent_name_changes_nothing() {
    let mut c = sample_config();
    c.delete_command_set(&"missing".to_string());
    assert_eq!(set_names(&c), strings(&["build", "deploy"]));
    assert_eq!(c.command_sets[0].commands, strings(&["make", "make test"]));
    assert_eq!(c.directories.len(), 2);
}

#[test]
fn delete_removes_every_set_with_the_name() {
    let mut c = sample_config();
    c.add_command_set(CommandSet::new("build".to_string(), strings(&["cargo build"])));
    c.delete_command_set(&"build".to_string());
    assert_eq!(set_names(&c), strings(&["deploy"]));
    assert_eq!(c.command_sets[0].commands, strings(&["npm run dev"]));
}

#[test]
fn parse_subcommands() {
    assert_eq!(parse_args(&strings(&["cmdy", "run"])), CliCommand::Run);
    assert_eq!(parse_args(&strings(&["cmdy", "list"])), CliCommand::List);
    assert_eq!(parse_args(&strings(&["cmdy", "logs"])), CliCommand::Logs);
    assert_eq!(
        parse_args(&strings(&["cmdy", "delete", "build"])),
        CliCommand::Delete("build".to_string())
    );
    assert_eq!(parse_args(&strings(&["cmdy", "help"])), CliCommand::Help);
    assert_eq!(parse_args(&strings(&["cmdy", "--help"])), CliCommand::Help);
}

#[test]
fn parse_falls_back_to_usage() {
    assert_eq!(parse_args(&strings(&["cmdy"])), CliCommand::Usage);
    assert_eq!(parse_args(&strings(&[])), CliCommand::Usage);
    assert_eq!(parse_args(&strings(&["cmdy", "delete"])), CliCommand::Usage);
    assert_eq!(parse_args(&strings(&["cmdy", "frobnicate"])), CliCommand::Usage);
    assert_eq!(parse_args(&strings(&["cmdy", "RUN"])), CliCommand::Usage);
}
