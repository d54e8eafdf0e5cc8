use secure_channel::commands::{
    attest_cmd, boot_cmd, list_cmd, parse_command, probe_addresses, replace_cmd, split_tokens,
    Command,
};
use secure_channel::hexnum::{hex_id, parse_hex_u32};
use secure_channel::host_msg::{host_line, Severity};
use secure_channel::registry::Registry;

const SEED: u32 = 0x4B1D;

fn fresh_registry(ids: Vec<u32>) -> Registry {
    let empty: Vec<u8> = Vec::new();
    let (reg, _) = Registry::initialize(SEED, &ids, empty.as_slice());
    reg
}

#[test]
fn end_to_end_list_and_replace() {
    // The operator lists a registry of {0x1001, 0x1002}: two provisioned-id
    // lines, then the success line.
    let mut reg = fresh_registry(vec![0x1001, 0x1002]);
    let no_findings: Vec<u8> = Vec::new();
    let lines = list_cmd(&reg, no_findings.as_slice());
    assert_eq!(lines.len(), 3);
    assert_eq!(lines[0], b"%info: P>0x00001001%".to_vec());
    assert_eq!(lines[1], b"%info: P>0x00001002%".to_vec());
    assert_eq!(lines[2], b"%success: List%".to_vec());

    // The operator replaces 0x1001 with 0x2002; a subsequent list shows
    // {0x2002, 0x1002}.
    let lines = replace_cmd(&mut reg, b"replace 0x2002 0x1001");
    assert_eq!(lines, vec![b"%success: Replace%".to_vec()]);

    let lines = list_cmd(&reg, no_findings.as_slice());
    assert_eq!(lines[0], b"%info: P>0x00002002%".to_vec());
    assert_eq!(lines[1], b"%info: P>0x00001002%".to_vec());
    assert_eq!(lines[2], b"%success: List%".to_vec());
}

#[test]
fn list_reports_scan_findings() {
    let reg = fresh_registry(vec![0x1001]);
    let findings: Vec<u8> = vec![0x23];
    let lines = list_cmd(&reg, findings.as_slice());
    assert_eq!(lines.len(), 3);
    assert_eq!(lines[0], b"%info: P>0x00001001%".to_vec());
    assert_eq!(lines[1], b"%info: F>0x00000023%".to_vec());
    assert_eq!(lines[2], b"%success: List%".to_vec());
}

#[test]
fn replace_reports_failures_without_mutating() {
    let mut reg = fresh_registry(vec![0x1001, 0x1002]);

    // Absent old identifier.
    let lines = replace_cmd(&mut reg, b"replace 0x2002 0xdead");
    assert_eq!(lines, vec![b"%error: Flash NotFound%".to_vec()]);
    assert_eq!(reg.list(), vec![0x1001, 0x1002]);

    // New identifier already provisioned elsewhere.
    let lines = replace_cmd(&mut reg, b"replace 0x1002 0x1001");
    assert_eq!(lines, vec![b"%error: Flash Duplicate%".to_vec()]);
    assert_eq!(reg.list(), vec![0x1001, 0x1002]);

    // Malformed lines re-prompt without touching the registry.
    for bad in [
        b"replace".as_slice(),
        b"replace 0x1".as_slice(),
        b"replace 0x1 0x2 0x3".as_slice(),
        b"replace 1234 0x1001".as_slice(),
        b"replace 0xZZZZ 0x1001".as_slice(),
        b"replace 0x123456789 0x1001".as_slice(),
    ] {
        let lines = replace_cmd(&mut reg, bad);
        assert_eq!(lines, vec![b"%error: Replace arguments%".to_vec()]);
        assert_eq!(reg.list(), vec![0x1001, 0x1002]);
    }
}

#[test]
fn attest_acknowledges_well_formed_requests() {
    let lines = attest_cmd(b"attest 123456 0x11111124");
    assert_eq!(lines, vec![b"%success: Attest%".to_vec()]);

    let lines = attest_cmd(b"attest 123456");
    assert_eq!(lines, vec![b"%error: Attest arguments%".to_vec()]);

    let lines = attest_cmd(b"attest 123456 11111124");
    assert_eq!(lines, vec![b"%error: Attest arguments%".to_vec()]);
}

#[test]
fn boot_reports_the_boot_message() {
    let lines = boot_cmd(b"boarding pass");
    assert_eq!(
        lines,
        vec![
            b"%info: AP>boarding pass%".to_vec(),
            b"%success: Boot%".to_vec()
        ]
    );
}

#[test]
fn command_words_are_recognized() {
    assert_eq!(parse_command(b"list"), Command::List);
    assert_eq!(parse_command(b"boot"), Command::Boot);
    assert_eq!(parse_command(b"replace 0x2002 0x1001"), Command::Replace);
    assert_eq!(parse_command(b"attest 123 0x1001"), Command::Attest);
    assert_eq!(parse_command(b"reboot"), Command::Unknown);
    assert_eq!(parse_command(b"lis"), Command::Unknown);
    assert_eq!(parse_command(b""), Command::Unknown);
}

#[test]
fn tokenizing_keeps_empty_tokens() {
    let toks = split_tokens(b"a  b");
    assert_eq!(toks, vec![b"a".to_vec(), b"".to_vec(), b"b".to_vec()]);
    let toks = split_tokens(b"");
    assert_eq!(toks, vec![b"".to_vec()]);
    let toks = split_tokens(b"one");
    assert_eq!(toks, vec![b"one".to_vec()]);
}

#[test]
fn hex_parsing_and_formatting() {
    assert_eq!(parse_hex_u32(b"0"), Some(0));
    assert_eq!(parse_hex_u32(b"1001"), Some(0x1001));
    assert_eq!(parse_hex_u32(b"ffffffff"), Some(u32::MAX));
    assert_eq!(parse_hex_u32(b"FFFFFFFF"), Some(u32::MAX));
    assert_eq!(parse_hex_u32(b"00000001"), Some(1));
    assert_eq!(parse_hex_u32(b""), None);
    assert_eq!(parse_hex_u32(b"123456789"), None);
    assert_eq!(parse_hex_u32(b"12g4"), None);

    assert_eq!(hex_id(0x1001), b"0x00001001".to_vec());
    assert_eq!(hex_id(0), b"0x00000000".to_vec());
    assert_eq!(hex_id(u32::MAX), b"0xffffffff".to_vec());
    assert_eq!(hex_id(0xDEADBEEF), b"0xdeadbeef".to_vec());
}

#[test]
fn scan_skips_reserved_addresses() {
    let addrs = probe_addresses();
    // 0x08..0x78 minus the three reserved peripheral addresses.
    assert_eq!(addrs.len(), 0x70 - 3);
    assert_eq!(addrs.first(), Some(&0x08));
    assert_eq!(addrs.last(), Some(&0x77));
    assert!(!addrs.contains(&0x18));
    assert!(!addrs.contains(&0x28));
    assert!(!addrs.contains(&0x36));
    assert!(addrs.contains(&0x23));
    let mut sorted = addrs.clone();
    sorted.sort();
    assert_eq!(sorted, addrs);
}

#[test]
fn console_lines_are_tagged_by_severity() {
    assert_eq!(host_line(Severity::Info, b"hello"), b"%info: hello%".to_vec());
    assert_eq!(host_line(Severity::Error, b"x"), b"%error: x%".to_vec());
    assert_eq!(host_line(Severity::Success, b""), b"%success: %".to_vec());
    assert_eq!(host_line(Severity::Debug, b"d"), b"%debug: d%".to_vec());
}
