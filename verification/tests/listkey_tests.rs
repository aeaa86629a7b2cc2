//! Tests for the colon-delimited key-listing decoder.

use gpgproc::enums::Operation;
use gpgproc::listkey::{ListKey, ListKeyResult};
use gpgproc::response::CmdResult;
use gpgproc::utils::decode_list_key_result;

fn decode(raw: &str) -> Vec<ListKeyResult> {
    let mut r = CmdResult::init(Operation::ListKey);
    r.set_raw_data(raw.to_string());
    decode_list_key_result(r)
}

fn cols(line: &str) -> Vec<String> {
    line.split(':').map(|c| c.to_string()).collect()
}

#[test]
fn two_pub_records_without_subkeys() {
    let raw = "pub:u:2048:1:AAAA1111:1700000000:::u:Alice <a@example.org>::scESC::::::23::0:\n\
               pub:u:4096:1:BBBB2222:1700000001:::u:Bob <b@example.org>::scESC::::::23::0:\n";
    let keys = decode(raw);
    assert_eq!(keys.len(), 2);
    assert_eq!(keys[0].keyid, "AAAA1111");
    assert_eq!(keys[1].keyid, "BBBB2222");
    for key in keys.iter() {
        assert!(key.subkeys.is_empty());
        assert!(key.uids.len() >= 1);
    }
}

#[test]
fn subkey_lines_group_under_the_latest_context() {
    let raw = "pub:u:2048:1:AAAA1111:1700000000:::u:Alice <a@example.org>::scESC::::::23::0:\n\
               uid:u::::1700000000::HASH::Alice (work) <w@example.org>::::::::::0:\n\
               fpr:::::::::1111222233334444:\n\
               sub:u:2048:1:CCCC3333:1700000002::::::e::::::23:\n\
               fpr:::::::::5555666677778888:\n\
               grp:::::::::9999AAAABBBBCCCC:\n";
    let keys = decode(raw);
    assert_eq!(keys.len(), 1);
    let key = &keys[0];
    assert_eq!(key.uids.len(), 2);
    assert_eq!(key.uids[0], "Alice <a@example.org>");
    assert_eq!(key.uids[1], "Alice (work) <w@example.org>");
    assert_eq!(key.fingerprint, "1111222233334444");
    assert_eq!(key.subkeys.len(), 1);
    // the second fpr and the grp belong to the subkey, not the parent
    assert_eq!(key.subkeys[0].fingerprint, "5555666677778888");
    assert_eq!(key.subkeys[0].keygrip, "9999AAAABBBBCCCC");
    assert_eq!(key.keygrip, "Unavailable");
    assert_eq!(key.subkeys[0].keyid, "CCCC3333");
}

#[test]
fn unrecognized_lines_yield_no_records() {
    let raw = "tru::1:1700000000:0:3:1:5\ncfg:version:2.4.7\nrvk:something\n";
    assert!(decode(raw).is_empty());
    assert!(decode("").is_empty());
}

#[test]
fn pub_line_with_fingerprint_decodes_to_one_record() {
    let raw = "pub:u:2048:1:ABCD1234:...:\nfpr:::::::::AAAABBBBCCCCDDDD:\n";
    let keys = decode(raw);
    assert_eq!(keys.len(), 1);
    assert_eq!(keys[0].keyid, "ABCD1234");
    assert_eq!(keys[0].fingerprint, "AAAABBBBCCCCDDDD");
}

#[test]
fn blank_line_ends_the_listing_early() {
    let raw = "pub:u:2048:1:AAAA1111:...:\n\n\
               pub:u:2048:1:BBBB2222:...:\n";
    let keys = decode(raw);
    assert_eq!(keys.len(), 1);
    assert_eq!(keys[0].keyid, "AAAA1111");
}

#[test]
fn short_lines_fill_missing_columns_with_the_marker() {
    let keys = decode("pub:u:2048\n");
    assert_eq!(keys.len(), 1);
    assert_eq!(keys[0].key_type, "pub");
    assert_eq!(keys[0].validity, "u");
    assert_eq!(keys[0].length, "2048");
    assert_eq!(keys[0].algo, "Unavailable");
    assert_eq!(keys[0].keyid, "Unavailable");
    assert_eq!(keys[0].origin, "Unavailable");
    // the uid column defaulted to the marker, which counts as a
    // non-empty embedded uid
    assert_eq!(keys[0].uids, vec!["Unavailable".to_string()]);
    assert_eq!(keys[0].fingerprint, "");
}

#[test]
fn sec_and_ssb_lines_open_records_and_subkeys() {
    let raw = "sec:u:255:22:DDDD4444:1700000003:::u:::cESC:::+::ed25519:::0:\n\
               ssb:u:255:18:EEEE5555:1700000004::::::e:::+::cv25519:\n";
    let keys = decode(raw);
    assert_eq!(keys.len(), 1);
    assert_eq!(keys[0].key_type, "sec");
    assert_eq!(keys[0].subkeys.len(), 1);
    assert_eq!(keys[0].subkeys[0].key_type, "ssb");
    assert_eq!(keys[0].subkeys[0].keyid, "EEEE5555");
}

#[test]
fn sig_lines_collect_signer_triples() {
    let raw = "pub:u:2048:1:AAAA1111:...:\n\
               sig::::BBBB2222:::::Alice <a@example.org>:13x:::::2:\n";
    let keys = decode(raw);
    assert_eq!(keys.len(), 1);
    assert_eq!(keys[0].sigs.len(), 1);
    assert_eq!(
        keys[0].sigs[0],
        vec![
            "BBBB2222".to_string(),
            "Alice <a@example.org>".to_string(),
            "13x".to_string(),
        ]
    );
}

#[test]
fn mixed_pub_and_sec_overwrites_current_record() {
    // a sec line whose keyword was not seen yet replaces the record
    // under construction without finalizing it
    let raw = "pub:u:2048:1:AAAA1111:...:\nsec:u:2048:1:BBBB2222:...:\n";
    let keys = decode(raw);
    assert_eq!(keys.len(), 1);
    assert_eq!(keys[0].keyid, "BBBB2222");
}

#[test]
fn decoder_state_machine_can_be_driven_directly() {
    let mut lk = ListKey::init();
    lk.call_method("pub", &cols("pub:u:2048:1:AAAA1111:1700000000:::u::"));
    lk.call_method("uid", &cols("uid:u::::1700000000::HASH::Bob <b@example.org>:"));
    lk.call_method("fpr", &cols("fpr:::::::::1234123412341234:"));
    lk.call_method("tru", &cols("tru::1:1700000000:0:3:1:5"));
    lk.append_result();
    let keys = lk.get_list_key_result();
    assert_eq!(keys.len(), 1);
    assert_eq!(keys[0].keyid, "AAAA1111");
    assert_eq!(keys[0].uids.len(), 1);
    assert_eq!(keys[0].uids[0], "Bob <b@example.org>");
    assert_eq!(keys[0].fingerprint, "1234123412341234");
}

#[test]
fn uid_line_without_open_record_is_ignored() {
    let keys = decode("uid:u::::1700000000::HASH::Carol <c@example.org>:\n");
    assert!(keys.is_empty());
}

#[test]
fn listing_lines_are_trimmed_before_decoding() {
    let raw = "  pub:u:2048:1:AAAA1111:...:\t\r\n";
    let keys = decode(raw);
    assert_eq!(keys.len(), 1);
    assert_eq!(keys[0].keyid, "AAAA1111");
}
