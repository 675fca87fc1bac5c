use jacquewm::installer::{parse, quoted_command, run_command_target, Subcommand};

const DEFAULT: &str = "C:\\Users\\me\\AppData\\Roaming\\JacqueWM";

#[test]
fn parses_install_minimal() {
    let r = parse(&["install".into()], DEFAULT);
    assert!(matches!(r, Ok(Subcommand::Install { auto_start: false, .. })));
}

#[test]
fn parses_install_with_auto_start() {
    let r = parse(&["install".into(), "--auto-start".into()], DEFAULT);
    assert!(matches!(r, Ok(Subcommand::Install { auto_start: true, .. })));
}

#[test]
fn parses_install_with_dir() {
    let r = parse(&["install".into(), "--dir".into(), "C:\\JacqueWM".into()], DEFAULT);
    if let Ok(Subcommand::Install { dir, auto_start }) = r {
        assert_eq!(dir, "C:\\JacqueWM");
        assert!(!auto_start);
    } else {
        panic!();
    }
}

#[test]
fn parse_errors_and_help() {
    assert_eq!(parse(&[], DEFAULT), Ok(Subcommand::Help));
    assert_eq!(parse(&["install".into(), "-h".into()], DEFAULT), Ok(Subcommand::Help));
    assert_eq!(
        parse(&["frobnicate".into()], DEFAULT),
        Err("first argument must be install|uninstall|portable".to_string())
    );
    assert_eq!(parse(&["portable".into(), "--dir".into()], DEFAULT), Err("missing value after --dir".to_string()));
    assert_eq!(parse(&["uninstall".into(), "--fast".into()], DEFAULT), Err("unknown flag: --fast".to_string()));
    assert_eq!(parse(&["uninstall".into()], DEFAULT), Ok(Subcommand::Uninstall { dir: DEFAULT.to_string() }));
    assert_eq!(
        parse(&["install".into(), "--auto-start".into(), "--no-auto-start".into()], DEFAULT),
        Ok(Subcommand::Install { dir: DEFAULT.to_string(), auto_start: false })
    );
    assert_eq!(
        parse(&["portable".into(), "--dir".into(), "D:\\x".into()], DEFAULT),
        Ok(Subcommand::Portable { dir: "D:\\x".to_string() })
    );
}

#[test]
fn run_key_round_trip() {
    let cmd = quoted_command("C:\\JacqueWM\\jacquewm.exe");
    assert_eq!(cmd, "\"C:\\JacqueWM\\jacquewm.exe\"");
    assert_eq!(run_command_target(&cmd), Some("C:\\JacqueWM\\jacquewm.exe".to_string()));
    assert_eq!(run_command_target("no quotes"), None);
    assert_eq!(run_command_target("\"open"), Some("open".to_string()));
}
