//! Tests for the command outcome record and the status-channel decoder.

use gpgproc::enums::Operation;
use gpgproc::response::{CmdResult, Problem};

#[test]
fn init_defaults_to_success() {
    let r = CmdResult::init(Operation::Verify);
    assert!(r.is_success());
    assert!(r.raw_data.is_none());
    assert!(r.return_code.is_none());
    assert!(r.status.is_none());
    assert!(r.status_message.is_none());
    assert!(r.debug_log.is_none());
    assert!(r.problem.is_none());
}

#[test]
fn set_raw_data_appends() {
    let mut r = CmdResult::init(Operation::Verify);
    r.set_raw_data("abc".to_string());
    r.set_raw_data("def".to_string());
    assert_eq!(r.get_raw_data(), Some("abcdef".to_string()));
}

#[test]
fn raw_data_length_is_order_independent() {
    // the concurrent drains may append their chunks in either order;
    // the total length must not depend on which came first
    let a = "engine output bytes";
    let b = "[GNUPG:] ok\n";
    let mut first = CmdResult::init(Operation::Verify);
    first.set_raw_data(a.to_string());
    first.set_raw_data(b.to_string());
    let mut second = CmdResult::init(Operation::Verify);
    second.set_raw_data(b.to_string());
    second.set_raw_data(a.to_string());
    let len1 = first.get_raw_data().unwrap().chars().count();
    let len2 = second.get_raw_data().unwrap().chars().count();
    assert_eq!(len1, a.chars().count() + b.chars().count());
    assert_eq!(len1, len2);
}

#[test]
fn failure_fails_ordinary_operations() {
    let mut r = CmdResult::init(Operation::Decrypt);
    r.handle_status("FAILURE", "decrypt 83918950".to_string());
    assert!(!r.is_success());
    assert_eq!(r.status, Some("FAILURE".to_string()));
    assert_eq!(r.status_message, Some("decrypt 83918950".to_string()));
}

#[test]
fn failure_after_partial_secret_export_is_success() {
    let mut r = CmdResult::init(Operation::ExportSecretKey);
    r.set_raw_data("some exported key material".to_string());
    r.handle_status("FAILURE", "export-secret-key 12345".to_string());
    assert!(r.is_success());
}

#[test]
fn failure_with_nothing_exported_fails_secret_export() {
    let mut r = CmdResult::init(Operation::ExportSecretKey);
    r.set_raw_data("gpg: WARNING: nothing exported".to_string());
    r.handle_status("FAILURE", "export-secret-key 12345".to_string());
    assert!(!r.is_success());
}

#[test]
fn badsig_records_signer_details() {
    let mut r = CmdResult::init(Operation::VerifyFile);
    r.handle_status("BADSIG", "ABCD1234 Alice Tester".to_string());
    assert!(!r.is_success());
    assert_eq!(r.status, Some("bad signature".to_string()));
    let problems = r.problem.as_ref().unwrap();
    assert_eq!(problems.len(), 1);
    match &problems[0] {
        Problem::BadSignature {
            status,
            key_id,
            username,
        } => {
            assert_eq!(status.as_str(), "bad signature");
            assert_eq!(key_id.as_str(), "ABCD1234");
            assert_eq!(username.as_str(), "Alice Tester");
        }
        _ => panic!("expected a bad-signature problem"),
    }
}

#[test]
fn nodata_fails_only_with_marker_in_output() {
    let mut quiet = CmdResult::init(Operation::ImportKey);
    quiet.set_raw_data("gpg: key import done".to_string());
    quiet.handle_status("NODATA", "1".to_string());
    assert!(quiet.is_success());

    let mut bad = CmdResult::init(Operation::ImportKey);
    bad.set_raw_data("gpg: no valid OpenPGP data found".to_string());
    bad.handle_status("NODATA", "1".to_string());
    assert!(!bad.is_success());
}

#[test]
fn delete_problem_uses_code_table() {
    let cases = [
        ("1", "No Such Key"),
        ("2", "Must delete secret key first"),
        ("3", "Ambiguous specification"),
        ("4", "Key is stored on a smartcard."),
        ("7", "Unknown error: 7"),
    ];
    for (code, message) in cases.iter() {
        let mut r = CmdResult::init(Operation::DeleteKey);
        r.handle_status("DELETE_PROBLEM", code.to_string());
        assert!(!r.is_success());
        match &r.problem.as_ref().unwrap()[0] {
            Problem::Delete { message: m } => assert_eq!(m.as_str(), *message),
            _ => panic!("expected a delete problem"),
        }
    }
}

#[test]
fn verbatim_problem_keywords_fail_and_record_payload() {
    let mut r = CmdResult::init(Operation::SignKey);
    r.handle_status("UNKNOWN_KEYWORD", "mystery".to_string());
    r.handle_status("NO_PASSPHRASE", "".to_string());
    r.handle_status("INVALID_FINGERPRINT", "xyz".to_string());
    r.handle_status("BAD_PASSPHRASE", "ABCD".to_string());
    assert!(!r.is_success());
    let problems = r.problem.as_ref().unwrap();
    assert_eq!(problems.len(), 4);
    assert!(matches!(&problems[0], Problem::UnknownKeyword { value } if value.as_str() == "mystery"));
    assert!(matches!(&problems[1], Problem::NoPassphrase { value } if value.is_empty()));
    assert!(matches!(&problems[2], Problem::InvalidFingerprint { value } if value.as_str() == "xyz"));
    assert!(matches!(&problems[3], Problem::BadPassphrase { value } if value.as_str() == "ABCD"));
}

#[test]
fn unlisted_keyword_only_updates_status() {
    let mut r = CmdResult::init(Operation::GenerateKey);
    r.handle_status("KEY_CREATED", "B ABCD1234".to_string());
    assert!(r.is_success());
    assert!(r.problem.is_none());
    assert_eq!(r.status, Some("KEY_CREATED".to_string()));
    assert_eq!(r.status_message, Some("B ABCD1234".to_string()));
}

#[test]
fn status_line_split_round_trips() {
    // a synthetic status line must decode to exactly the keyword and
    // payload it was assembled from
    let keyword = "SIG_ID";
    let payload = "abc def  ghi ";
    let line = format!("[GNUPG:] {} {}", keyword, payload);
    let mut r = CmdResult::init(Operation::VerifyFile);
    r.process_response_data(&line);
    assert_eq!(r.status, Some(keyword.to_string()));
    assert_eq!(r.status_message, Some(payload.to_string()));
}

#[test]
fn response_stream_dispatches_lines() {
    let data = "[GNUPG:] IMPORT_OK 1 ABCD\ngpg: one diagnostic\nnoise line\n";
    let mut r = CmdResult::init(Operation::ImportKey);
    r.process_response_data(data);
    assert_eq!(r.status, Some("IMPORT_OK".to_string()));
    assert_eq!(r.status_message, Some("1 ABCD".to_string()));
    assert_eq!(r.debug_log, Some(vec!["one diagnostic".to_string()]));
    // the whole stream also lands in the raw output
    assert_eq!(r.get_raw_data(), Some(data.to_string()));
    assert!(r.is_success());
}

#[test]
fn response_stream_sees_its_own_warning() {
    // the nothing-exported warning arrives on the same stream as the
    // FAILURE event and must be visible to it
    let data = "gpg: WARNING: nothing exported\n[GNUPG:] FAILURE export-secret-key 16\n";
    let mut r = CmdResult::init(Operation::ExportSecretKey);
    r.process_response_data(data);
    assert!(!r.is_success());
}

#[test]
fn return_code_and_error_message() {
    let mut r = CmdResult::init(Operation::Encrypt);
    assert_eq!(r.get_error_message(), "Undefined Error");
    r.handle_status("FAILURE", "encrypt 53".to_string());
    assert_eq!(r.get_error_message(), "encrypt 53");
    r.set_return_code(2);
    assert_eq!(r.return_code, Some(2));
}

#[test]
fn capture_debug_log_accumulates() {
    let mut r = CmdResult::init(Operation::Verify);
    r.capture_debug_log("first".to_string());
    r.capture_debug_log("second".to_string());
    assert_eq!(
        r.debug_log,
        Some(vec!["first".to_string(), "second".to_string()])
    );
}

#[test]
fn clone_cmd_info_copies_everything() {
    let mut src = CmdResult::init(Operation::DeleteKey);
    src.set_raw_data("raw".to_string());
    src.handle_status("DELETE_PROBLEM", "1".to_string());
    src.set_return_code(2);
    let mut dst = CmdResult::init(Operation::Verify);
    dst.clone_cmd_info(&src);
    assert_eq!(dst.get_raw_data(), Some("raw".to_string()));
    assert_eq!(dst.return_code, Some(2));
    assert!(!dst.is_success());
    assert!(matches!(dst.operation, Operation::DeleteKey));
    assert_eq!(dst.problem.as_ref().unwrap().len(), 1);
}

#[test]
fn badsig_payload_splits_at_any_ascii_whitespace() {
    // the keyword/payload split happens at the first whitespace
    // character of any ASCII kind, not just a space
    let mut r = CmdResult::init(Operation::VerifyFile);
    r.handle_status("BADSIG", "ABCD1234\u{000C}Alice".to_string());
    match &r.problem.as_ref().unwrap()[0] {
        Problem::BadSignature { key_id, username, .. } => {
            assert_eq!(key_id.as_str(), "ABCD1234");
            assert_eq!(username.as_str(), "Alice");
        }
        _ => panic!("expected a bad-signature problem"),
    }
}

#[test]
fn crlf_terminated_status_lines_are_recognized() {
    // a carriage return right after the keyword still ends it
    let data = "[GNUPG:] FAILURE\r\n";
    let mut r = CmdResult::init(Operation::Decrypt);
    r.process_response_data(data);
    assert!(!r.is_success());
    assert_eq!(r.status, Some("FAILURE".to_string()));
}
