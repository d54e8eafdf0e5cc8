//! Operator command handling for the application processor: tokenizing the
//! console line, recognizing the command word, parsing hexadecimal
//! identifier arguments, and producing each command's console report lines.
//!
//! The unverified shell reads the operator's line from the UART, hands the
//! bytes here, writes the returned lines back to the console, and performs
//! the bus and storage work around them.

use vstd::prelude::*;

use crate::host_msg::{spec_host_line, BYTE_SPACE, host_line, Severity};
use crate::hexnum::{
    spec_hex_id, spec_parse_hex, hex_id, parse_hex_u32, BYTE_LOWER_X, BYTE_ZERO,
};
use crate::registry::{Registry, RegistryError};

verus! {

/// The space-separated tokens of a command line, in order. Empty tokens are
/// kept: consecutive separators produce them.
pub open spec fn spec_split(s: Seq<u8>) -> Seq<Seq<u8>>
    decreases s.len(),
{
    match s.index_of_first(BYTE_SPACE) {
        Some(i) => if 0 <= i < s.len() {
            seq![s.take(i)] + spec_split(s.skip(i + 1))
        } else {
            seq![s]
        },
        None => seq![s],
    }
}

/// Splitting always yields at least one token.
pub proof fn lemma_split_nonempty(s: Seq<u8>)
    ensures
        spec_split(s).len() >= 1,
{
    s.index_of_first_ensures(BYTE_SPACE);
}

/// Tokenizes the tail of `line` starting at `from`.
fn split_tokens_from(line: &[u8], from: usize) -> (toks: Vec<Vec<u8>>)
    requires
        from <= line@.len(),
    ensures
        toks@.len() == spec_split(line@.skip(from as int)).len(),
        forall|t: int|
            0 <= t < toks@.len() ==> #[trigger] toks@[t]@ == spec_split(line@.skip(from as int))[t],
    decreases line@.len() - from,
{
    let ghost rest = line@.skip(from as int);
    let mut i: usize = from;
    while i < line.len() && line[i] != BYTE_SPACE
        invariant
            from <= i <= line@.len(),
            forall|t: int| from <= t < i ==> line@[t] != BYTE_SPACE,
        decreases line@.len() - i,
    {
        i = i + 1;
    }
    let token: Vec<u8> = vstd::slice::slice_to_vec(
        vstd::slice::slice_subrange(line, from, i),
    );
    proof {
        assert(token@ =~= rest.take(i - from as int));
        rest.index_of_first_ensures(BYTE_SPACE);
    }
    if i == line.len() {
        proof {
            if rest.index_of_first(BYTE_SPACE) is Some {
                let idx = rest.index_of_first(BYTE_SPACE).unwrap();
                assert(rest[idx] == line@[from as int + idx]);
                assert(false);
            }
            assert(rest.take(i - from as int) =~= rest);
        }
        let mut toks: Vec<Vec<u8>> = Vec::new();
        toks.push(token);
        toks
    } else {
        proof {
            assert(line@[i as int] == BYTE_SPACE);
            assert(rest[i - from as int] == BYTE_SPACE);
            assert(rest.contains(BYTE_SPACE)) by {
                assert(rest[i - from as int] == BYTE_SPACE);
            }
            let idx = rest.index_of_first(BYTE_SPACE).unwrap();
            assert(rest[idx] == line@[from as int + idx]);
            if idx < i - from as int {
                assert(false);
            }
            if idx > i - from as int {
                assert(false);
            }
            assert(idx == i - from as int);
            assert(rest.skip(idx + 1) =~= line@.skip(i as int + 1));
        }
        let mut toks = split_tokens_from(line, i + 1);
        toks.insert(0, token);
        proof {
            let ghost tail = spec_split(line@.skip(i as int + 1));
            assert(spec_split(rest) == seq![rest.take(i - from as int)] + tail);
            assert forall|t: int| 0 <= t < toks@.len() implies #[trigger] toks@[t]@ == spec_split(
                rest,
            )[t] by {
                if t == 0 {
                    assert(toks@[0]@ == token@);
                } else {
                    assert(toks@[t] == toks@.subrange(1, toks@.len() as int)[t - 1]);
                }
            }
        }
        toks
    }
}

/// Tokenizes a whole command line on spaces.
pub fn split_tokens(line: &[u8]) -> (toks: Vec<Vec<u8>>)
    ensures
        toks@.len() == spec_split(line@).len(),
        forall|t: int| 0 <= t < toks@.len() ==> #[trigger] toks@[t]@ == spec_split(line@)[t],
{
    proof {
        assert(line@.skip(0) =~= line@);
    }
    split_tokens_from(line, 0)
}


/// "list": the operator's enumerate command.
pub const WORD_LIST: [u8; 4] = [0x6C, 0x69, 0x73, 0x74];

/// "boot": the operator's boot-authorization command.
pub const WORD_BOOT: [u8; 4] = [0x62, 0x6F, 0x6F, 0x74];

/// "replace": the operator's identity-replacement command.
pub const WORD_REPLACE: [u8; 7] = [0x72, 0x65, 0x70, 0x6C, 0x61, 0x63, 0x65];

/// "attest": the operator's attestation command.
pub const WORD_ATTEST: [u8; 6] = [0x61, 0x74, 0x74, 0x65, 0x73, 0x74];

/// "List": success report of the list command.
pub const TEXT_LIST_OK: [u8; 4] = [0x4C, 0x69, 0x73, 0x74];

/// "Boot": success report of the boot command.
pub const TEXT_BOOT_OK: [u8; 4] = [0x42, 0x6F, 0x6F, 0x74];

/// "Replace": success report of the replace command.
pub const TEXT_REPLACE_OK: [u8; 7] = [0x52, 0x65, 0x70, 0x6C, 0x61, 0x63, 0x65];

/// "Attest": success report of the attest command.
pub const TEXT_ATTEST_OK: [u8; 6] = [0x41, 0x74, 0x74, 0x65, 0x73, 0x74];

/// "P>": prefix of a provisioned-identifier report line.
pub const TEXT_PROVISIONED: [u8; 2] = [0x50, 0x3E];

/// "F>": prefix of a bus-scan finding report line.
pub const TEXT_FOUND: [u8; 2] = [0x46, 0x3E];

/// "AP>": prefix of the boot message line.
pub const TEXT_AP: [u8; 3] = [0x41, 0x50, 0x3E];

/// "Flash NotFound": replace failed, the old identifier is not provisioned.
pub const TEXT_NOT_FOUND: [u8; 14] = [
    0x46,
    0x6C,
    0x61,
    0x73,
    0x68,
    0x20,
    0x4E,
    0x6F,
    0x74,
    0x46,
    0x6F,
    0x75,
    0x6E,
    0x64,
];

/// "Flash Duplicate": replace failed, the new identifier is already
/// provisioned in another slot.
pub const TEXT_DUPLICATE: [u8; 15] = [
    0x46,
    0x6C,
    0x61,
    0x73,
    0x68,
    0x20,
    0x44,
    0x75,
    0x70,
    0x6C,
    0x69,
    0x63,
    0x61,
    0x74,
    0x65,
];

/// "Replace arguments": the replace command line is malformed.
pub const TEXT_REPLACE_ARGS: [u8; 17] = [
    0x52,
    0x65,
    0x70,
    0x6C,
    0x61,
    0x63,
    0x65,
    0x20,
    0x61,
    0x72,
    0x67,
    0x75,
    0x6D,
    0x65,
    0x6E,
    0x74,
    0x73,
];

/// "Attest arguments": the attest command line is malformed.
pub const TEXT_ATTEST_ARGS: [u8; 16] = [
    0x41,
    0x74,
    0x74,
    0x65,
    0x73,
    0x74,
    0x20,
    0x61,
    0x72,
    0x67,
    0x75,
    0x6D,
    0x65,
    0x6E,
    0x74,
    0x73,
];

/// Whether two byte strings hold the same bytes.
fn bytes_eq(a: &[u8], b: &[u8]) -> (r: bool)
    ensures
        r == (a@ == b@),
{
    if a.len() != b.len() {
        return false;
    }
    let mut i: usize = 0;
    while i < a.len()
        invariant
            i <= a@.len(),
            a@.len() == b@.len(),
            forall|t: int| 0 <= t < i ==> a@[t] == b@[t],
        decreases a@.len() - i,
    {
        if a[i] != b[i] {
            return false;
        }
        i = i + 1;
    }
    proof {
        assert(a@ =~= b@);
    }
    true
}

/// The operator commands the dispatcher understands.
#[derive(Clone, Copy, Debug, PartialEq, Eq, Structural)]
pub enum Command {
    List,
    Boot,
    Replace,
    Attest,
    Unknown,
}

/// Which command a console line names: its first token matched against the
/// four command words.
pub open spec fn spec_parse_command(line: Seq<u8>) -> Command {
    let tok = spec_split(line)[0];
    if tok == WORD_LIST@ {
        Command::List
    } else if tok == WORD_BOOT@ {
        Command::Boot
    } else if tok == WORD_REPLACE@ {
        Command::Replace
    } else if tok == WORD_ATTEST@ {
        Command::Attest
    } else {
        Command::Unknown
    }
}

/// Recognizes the command word of an operator line. An unknown word is
/// reported back to the operator by the shell, which then re-prompts.
pub fn parse_command(line: &[u8]) -> (c: Command)
    ensures
        c == spec_parse_command(line@),
{
    proof {
        lemma_split_nonempty(line@);
    }
    let toks = split_tokens(line);
    let tok = toks[0].as_slice();
    if bytes_eq(tok, WORD_LIST.as_slice()) {
        Command::List
    } else if bytes_eq(tok, WORD_BOOT.as_slice()) {
        Command::Boot
    } else if bytes_eq(tok, WORD_REPLACE.as_slice()) {
        Command::Replace
    } else if bytes_eq(tok, WORD_ATTEST.as_slice()) {
        Command::Attest
    } else {
        Command::Unknown
    }
}

/// What parsing one `0x`-prefixed identifier token yields.
pub open spec fn spec_parse_hex_token(t: Seq<u8>) -> Option<u32> {
    if t.len() >= 2 && t[0] == BYTE_ZERO && t[1] == BYTE_LOWER_X {
        spec_parse_hex(t.skip(2))
    } else {
        None
    }
}

/// Parses one identifier token of the form `0x` followed by hex digits.
fn parse_hex_token(t: &Vec<u8>) -> (r: Option<u32>)
    ensures
        r == spec_parse_hex_token(t@),
{
    if t.len() >= 2 && t[0] == BYTE_ZERO && t[1] == BYTE_LOWER_X {
        let digits = vstd::slice::slice_subrange(t.as_slice(), 2, t.len());
        proof {
            assert(digits@ =~= t@.skip(2));
        }
        parse_hex_u32(digits)
    } else {
        None
    }
}

/// The `replace` command's arguments: `replace <new-id> <old-id>`, both
/// identifiers hex with a `0x` prefix.
pub open spec fn spec_replace_args(line: Seq<u8>) -> Option<(u32, u32)> {
    let toks = spec_split(line);
    if toks.len() == 3 {
        match (spec_parse_hex_token(toks[1]), spec_parse_hex_token(toks[2])) {
            (Some(new_id), Some(old_id)) => Some((new_id, old_id)),
            _ => None,
        }
    } else {
        None
    }
}

/// Replaces one provisioned identity with another under operator control:
/// parses `replace <new-id> <old-id>`, swaps the identifiers in the
/// registry, and reports the outcome as one console line. A malformed line
/// is reported without touching the registry; so is a failed swap.
pub fn replace_cmd(reg: &mut Registry, line: &[u8]) -> (lines: Vec<Vec<u8>>)
    requires
        old(reg).wf(),
    ensures
        final(reg).wf(),
        lines@.len() == 1,
        match spec_replace_args(line@) {
            None => final(reg)@ == old(reg)@ && lines@[0]@ == spec_host_line(
                Severity::Error,
                TEXT_REPLACE_ARGS@,
            ),
            Some((new_id, old_id)) => {
                if old(reg)@.contains(old_id) && (new_id == old_id || !old(reg)@.contains(new_id)) {
                    &&& exists|i: int|
                        0 <= i < old(reg)@.len() && old(reg)@[i] == old_id && final(reg)@ == old(
                            reg,
                        )@.update(i, new_id)
                    &&& lines@[0]@ == spec_host_line(Severity::Success, TEXT_REPLACE_OK@)
                } else if !old(reg)@.contains(old_id) {
                    &&& final(reg)@ == old(reg)@
                    &&& lines@[0]@ == spec_host_line(Severity::Error, TEXT_NOT_FOUND@)
                } else {
                    &&& final(reg)@ == old(reg)@
                    &&& lines@[0]@ == spec_host_line(Severity::Error, TEXT_DUPLICATE@)
                }
            },
        },
{
    let toks = split_tokens(line);
    let mut lines: Vec<Vec<u8>> = Vec::new();
    if toks.len() != 3 {
        lines.push(host_line(Severity::Error, TEXT_REPLACE_ARGS.as_slice()));
        return lines;
    }
    let new_id = match parse_hex_token(&toks[1]) {
        Some(v) => v,
        None => {
            lines.push(host_line(Severity::Error, TEXT_REPLACE_ARGS.as_slice()));
            return lines;
        },
    };
    let old_id = match parse_hex_token(&toks[2]) {
        Some(v) => v,
        None => {
            lines.push(host_line(Severity::Error, TEXT_REPLACE_ARGS.as_slice()));
            return lines;
        },
    };
    match reg.swap(old_id, new_id) {
        Ok(_) => lines.push(host_line(Severity::Success, TEXT_REPLACE_OK.as_slice())),
        Err(RegistryError::NotFound) => lines.push(
            host_line(Severity::Error, TEXT_NOT_FOUND.as_slice()),
        ),
        Err(_) => lines.push(host_line(Severity::Error, TEXT_DUPLICATE.as_slice())),
    }
    lines
}

/// The `attest` command's arguments: `attest <pin> <component-id>`, the pin
/// an arbitrary token, the identifier hex with a `0x` prefix.
pub open spec fn spec_attest_args(line: Seq<u8>) -> Option<(Seq<u8>, u32)> {
    let toks = spec_split(line);
    if toks.len() == 3 {
        match spec_parse_hex_token(toks[2]) {
            Some(id) => Some((toks[1], id)),
            None => None,
        }
    } else {
        None
    }
}

/// Validates an `attest <pin> <component-id>` line and reports the result
/// as one console line. Attestation content is beyond the pre-boot
/// protocol: a well-formed request is acknowledged with the success report.
pub fn attest_cmd(line: &[u8]) -> (lines: Vec<Vec<u8>>)
    ensures
        lines@.len() == 1,
        match spec_attest_args(line@) {
            Some(_) => lines@[0]@ == spec_host_line(Severity::Success, TEXT_ATTEST_OK@),
            None => lines@[0]@ == spec_host_line(Severity::Error, TEXT_ATTEST_ARGS@),
        },
{
    let toks = split_tokens(line);
    let mut lines: Vec<Vec<u8>> = Vec::new();
    if toks.len() != 3 {
        lines.push(host_line(Severity::Error, TEXT_ATTEST_ARGS.as_slice()));
        return lines;
    }
    match parse_hex_token(&toks[2]) {
        Some(_) => lines.push(host_line(Severity::Success, TEXT_ATTEST_OK.as_slice())),
        None => lines.push(host_line(Severity::Error, TEXT_ATTEST_ARGS.as_slice())),
    }
    lines
}

/// The boot authorization report: the build-time boot message line and the
/// success line. The unverified shell transfers control to the native boot
/// image after writing them; that transfer never returns.
pub fn boot_cmd(boot_msg: &[u8]) -> (lines: Vec<Vec<u8>>)
    ensures
        lines@.len() == 2,
        lines@[0]@ == spec_host_line(Severity::Info, TEXT_AP@ + boot_msg@),
        lines@[1]@ == spec_host_line(Severity::Success, TEXT_BOOT_OK@),
{
    let mut text: Vec<u8> = Vec::new();
    text.extend_from_slice(TEXT_AP.as_slice());
    text.extend_from_slice(boot_msg);
    let mut lines: Vec<Vec<u8>> = Vec::new();
    proof {
        assert(text@ =~= TEXT_AP@ + boot_msg@);
    }
    lines.push(host_line(Severity::Info, text.as_slice()));
    lines.push(host_line(Severity::Success, TEXT_BOOT_OK.as_slice()));
    lines
}

/// Whether a 7-bit bus address may be probed during a scan: the valid
/// address range, minus the addresses reserved for unrelated on-board
/// peripherals, which must never be treated as components.
pub open spec fn spec_probe_address(a: u8) -> bool {
    0x08 <= a < 0x78 && a != 0x18 && a != 0x28 && a != 0x36
}

/// The bus addresses a `list` scan probes, in ascending order: exactly the
/// probeable addresses.
pub fn probe_addresses() -> (addrs: Vec<u8>)
    ensures
        forall|t: int| 0 <= t < addrs@.len() ==> spec_probe_address(#[trigger] addrs@[t]),
        forall|a: u8| spec_probe_address(a) ==> addrs@.contains(a),
        forall|p: int, q: int| 0 <= p < q < addrs@.len() ==> addrs@[p] < addrs@[q],
{
    let mut addrs: Vec<u8> = Vec::new();
    let mut a: u8 = 0x08;
    while a < 0x78
        invariant
            0x08 <= a <= 0x78,
            forall|t: int|
                0 <= t < addrs@.len() ==> spec_probe_address(#[trigger] addrs@[t]) && addrs@[t]
                    < a,
            forall|x: u8| spec_probe_address(x) && x < a ==> addrs@.contains(x),
            forall|p: int, q: int| 0 <= p < q < addrs@.len() ==> addrs@[p] < addrs@[q],
        decreases 0x78 - a,
    {
        if !(a == 0x18 || a == 0x28 || a == 0x36) {
            let ghost before = addrs@;
            addrs.push(a);
            proof {
                assert forall|x: u8| spec_probe_address(x) && x < a + 1 implies addrs@.contains(
                    x,
                ) by {
                    if x < a {
                        let w = choose|w: int| 0 <= w < before.len() && before[w] == x;
                        assert(addrs@[w] == x);
                    } else {
                        assert(addrs@[addrs@.len() - 1] == x);
                    }
                }
            }
        }
        a = a + 1;
    }
    addrs
}

/// The report lines of the `list` command: one provisioned-identifier line
/// per registry entry, one finding line per bus address that answered the
/// scan, then the success line.
pub fn list_cmd(reg: &Registry, found: &[u8]) -> (lines: Vec<Vec<u8>>)
    ensures
        lines@.len() == reg@.len() + found@.len() + 1,
        forall|i: int|
            0 <= i < reg@.len() ==> #[trigger] lines@[i]@ == spec_host_line(
                Severity::Info,
                TEXT_PROVISIONED@ + spec_hex_id(reg@[i]),
            ),
        forall|i: int|
            reg@.len() <= i < reg@.len() + found@.len() ==> #[trigger] lines@[i]@ == spec_host_line(
                Severity::Info,
                TEXT_FOUND@ + spec_hex_id(found@[i - reg@.len()] as u32),
            ),
        lines@[reg@.len() + found@.len() as int]@ == spec_host_line(Severity::Success, TEXT_LIST_OK@),
{
    let ids = reg.list();
    let mut lines: Vec<Vec<u8>> = Vec::new();
    let mut i: usize = 0;
    while i < ids.len()
        invariant
            i <= ids@.len(),
            ids@ == reg@,
            lines@.len() == i,
            forall|t: int|
                0 <= t < i ==> #[trigger] lines@[t]@ == spec_host_line(
                    Severity::Info,
                    TEXT_PROVISIONED@ + spec_hex_id(reg@[t]),
                ),
        decreases ids@.len() - i,
    {
        let mut text: Vec<u8> = Vec::new();
        text.extend_from_slice(TEXT_PROVISIONED.as_slice());
        let mut h = hex_id(ids[i]);
        text.append(&mut h);
        proof {
            assert(text@ =~= TEXT_PROVISIONED@ + spec_hex_id(ids@[i as int]));
        }
        lines.push(host_line(Severity::Info, text.as_slice()));
        i = i + 1;
    }
    let mut k: usize = 0;
    while k < found.len()
        invariant
            k <= found@.len(),
            ids@ == reg@,
            lines@.len() == reg@.len() + k,
            forall|t: int|
                0 <= t < reg@.len() ==> #[trigger] lines@[t]@ == spec_host_line(
                    Severity::Info,
                    TEXT_PROVISIONED@ + spec_hex_id(reg@[t]),
                ),
            forall|t: int|
                reg@.len() <= t < reg@.len() + k ==> #[trigger] lines@[t]@ == spec_host_line(
                    Severity::Info,
                    TEXT_FOUND@ + spec_hex_id(found@[t - reg@.len()] as u32),
                ),
        decreases found@.len() - k,
    {
        let mut text: Vec<u8> = Vec::new();
        text.extend_from_slice(TEXT_FOUND.as_slice());
        let mut h = hex_id(found[k] as u32);
        text.append(&mut h);
        proof {
            assert(text@ =~= TEXT_FOUND@ + spec_hex_id(found@[k as int] as u32));
        }
        lines.push(host_line(Severity::Info, text.as_slice()));
        k = k + 1;
    }
    lines.push(host_line(Severity::Success, TEXT_LIST_OK.as_slice()));
    lines
}

} // verus!
