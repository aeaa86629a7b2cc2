//! Tests for version discovery, argument assembly and the small
//! utilities.

use gpgproc::args::generate_cmd_args;
use gpgproc::enums::{DeleteProblem, Operation, TrustLevel};
use gpgproc::response::CmdResult;
use gpgproc::text::u8_to_dec;
use gpgproc::utils::{get_file_extension, is_passphrase_valid, set_output_without_confirmation};
use gpgproc::version::{get_gpg_version, GpgVersion};

fn outcome_with(raw: &str) -> CmdResult {
    let mut r = CmdResult::init(Operation::Verify);
    r.set_raw_data(raw.to_string());
    r
}

#[test]
fn version_is_read_from_the_config_listing() {
    let r = outcome_with("cfg:version:2.4.7\ncfg:pubkey:1;16;17\n");
    let v = get_gpg_version(&r);
    assert_eq!(v.major, 2);
    assert_eq!(v.minor, 4);
    assert_eq!(v.full, "2.4.7");
}

#[test]
fn version_with_one_component_has_minor_zero() {
    let v = get_gpg_version(&outcome_with("cfg:version:3\n"));
    assert_eq!(v.major, 3);
    assert_eq!(v.minor, 0);
    assert_eq!(v.full, "3");
}

#[test]
fn version_capture_stops_at_the_first_malformed_character() {
    let v = get_gpg_version(&outcome_with("cfg:version:1.10.x:extra\n"));
    assert_eq!(v.full, "1.10");
    assert_eq!(v.major, 1);
    assert_eq!(v.minor, 10);
}

#[test]
fn missing_version_line_gives_the_fallback() {
    let v = get_gpg_version(&outcome_with("cfg:pubkey:1;16;17\n"));
    assert_eq!((v.major, v.minor), (0, 0));
    assert_eq!(v.full, "0.0.0");
    // the marker must stand at the very start of the output
    let shifted = get_gpg_version(&outcome_with("x cfg:version:2.4.7\n"));
    assert_eq!(shifted.full, "0.0.0");
    let empty = get_gpg_version(&CmdResult::init(Operation::Verify));
    assert_eq!(empty.full, "0.0.0");
}

#[test]
fn version_threshold_comparison() {
    let v = GpgVersion {
        major: 2,
        minor: 1,
        full: "2.1.0".to_string(),
    };
    assert!(v.at_least(2, 1));
    assert!(v.at_least(1, 9));
    assert!(!v.at_least(2, 2));
    assert!(!v.at_least(3, 0));
}

#[test]
fn cmd_args_for_plain_invocation() {
    let version = GpgVersion {
        major: 2,
        minor: 4,
        full: "2.4.7".to_string(),
    };
    let args = generate_cmd_args(
        vec!["--list-keys".to_string()],
        &None,
        &version,
        "/tmp/home".to_string(),
        false,
        None,
    );
    assert_eq!(
        args,
        vec![
            "gpg",
            "--status-fd",
            "2",
            "--no-tty",
            "--no-verbose",
            "--fixed-list-mode",
            "--batch",
            "--with-colons",
            "--homedir",
            "/tmp/home",
            "--list-keys",
        ]
        .into_iter()
        .map(|s| s.to_string())
        .collect::<Vec<String>>()
    );
}

#[test]
fn cmd_args_with_passphrase_on_a_new_engine_use_loopback() {
    let version = GpgVersion {
        major: 2,
        minor: 1,
        full: "2.1.0".to_string(),
    };
    let args = generate_cmd_args(
        vec!["--gen-key".to_string()],
        &Some("secret".to_string()),
        &version,
        "/h".to_string(),
        true,
        Some(vec!["--armor".to_string()]),
    );
    assert_eq!(
        args,
        vec![
            "gpg",
            "--pinentry-mode",
            "loopback",
            "--status-fd",
            "2",
            "--no-tty",
            "--no-verbose",
            "--fixed-list-mode",
            "--batch",
            "--with-colons",
            "--homedir",
            "/h",
            "--passphrase-fd",
            "0",
            "--use-agent",
            "--armor",
            "--gen-key",
        ]
        .into_iter()
        .map(|s| s.to_string())
        .collect::<Vec<String>>()
    );
}

#[test]
fn cmd_args_with_passphrase_on_an_old_engine_skip_loopback() {
    let version = GpgVersion {
        major: 2,
        minor: 0,
        full: "2.0.22".to_string(),
    };
    let args = generate_cmd_args(
        vec!["--gen-key".to_string()],
        &Some("secret".to_string()),
        &version,
        "/h".to_string(),
        false,
        None,
    );
    assert!(!args.contains(&"--pinentry-mode".to_string()));
    assert!(args.contains(&"--passphrase-fd".to_string()));
}

#[test]
fn trust_levels_encode_their_numeric_values() {
    assert_eq!(TrustLevel::Expired.value(), 1);
    assert_eq!(TrustLevel::Undefined.value(), 2);
    assert_eq!(TrustLevel::Never.value(), 3);
    assert_eq!(TrustLevel::Marginal.value(), 4);
    assert_eq!(TrustLevel::Fully.value(), 5);
    assert_eq!(TrustLevel::Ultimate.value(), 6);
}

#[test]
fn delete_problem_messages_from_codes() {
    assert_eq!(DeleteProblem::from_int(1), "No Such Key");
    assert_eq!(DeleteProblem::from_int(2), "Must delete secret key first");
    assert_eq!(DeleteProblem::from_int(3), "Ambiguous specification");
    assert_eq!(DeleteProblem::from_int(4), "Key is stored on a smartcard.");
    assert_eq!(DeleteProblem::from_int(0), "Unknown error: 0");
    assert_eq!(DeleteProblem::from_int(42), "Unknown error: 42");
    assert_eq!(DeleteProblem::from_int(255), "Unknown error: 255");
}

#[test]
fn decimal_rendering_of_bytes() {
    assert_eq!(u8_to_dec(0), "0");
    assert_eq!(u8_to_dec(7), "7");
    assert_eq!(u8_to_dec(10), "10");
    assert_eq!(u8_to_dec(99), "99");
    assert_eq!(u8_to_dec(100), "100");
    assert_eq!(u8_to_dec(255), "255");
}

#[test]
fn passphrase_validity() {
    assert!(is_passphrase_valid("correct horse battery staple"));
    assert!(is_passphrase_valid(""));
    assert!(!is_passphrase_valid("line\nbreak"));
    assert!(!is_passphrase_valid("carriage\rreturn"));
    assert!(!is_passphrase_valid("nul\u{0}byte"));
}

#[test]
fn output_arguments_confirm_only_when_the_file_exists() {
    let mut args: Vec<String> = vec!["--export".to_string()];
    set_output_without_confirmation(&mut args, "/tmp/out.asc", false);
    assert_eq!(
        args,
        vec![
            "--export".to_string(),
            "--output".to_string(),
            "/tmp/out.asc".to_string(),
        ]
    );
    let mut args2: Vec<String> = Vec::new();
    set_output_without_confirmation(&mut args2, "/tmp/out.asc", true);
    assert_eq!(
        args2,
        vec![
            "--yes".to_string(),
            "--output".to_string(),
            "/tmp/out.asc".to_string(),
        ]
    );
}

#[test]
fn file_extensions_fall_back_to_the_engine_default() {
    assert_eq!(get_file_extension(None), "gpg");
    assert_eq!(get_file_extension(Some("/a/b/report.txt".to_string())), "txt");
    assert_eq!(get_file_extension(Some("archive.tar.gz".to_string())), "gz");
    assert_eq!(get_file_extension(Some("/a/b/noext".to_string())), "gpg");
    assert_eq!(get_file_extension(Some("/a/b.c/noext".to_string())), "gpg");
    assert_eq!(get_file_extension(Some("/a/.hidden".to_string())), "gpg");
    assert_eq!(get_file_extension(Some("/a/.hidden.conf".to_string())), "conf");
    assert_eq!(get_file_extension(Some("trailing.".to_string())), "");
    // a parent-directory component has no extension
    assert_eq!(get_file_extension(Some("a/..".to_string())), "gpg");
    assert_eq!(get_file_extension(Some("..".to_string())), "gpg");
    assert_eq!(get_file_extension(Some("b..".to_string())), "");
}

#[test]
fn version_digits_are_ascii_only() {
    // an Arabic-Indic digit after the marker is not a version digit
    let v = get_gpg_version(&outcome_with("cfg:version:\u{0663}\n"));
    assert_eq!((v.major, v.minor), (0, 0));
    assert_eq!(v.full, "0.0.0");
}
