//! Console message framing: every line the host protocol emits is tagged
//! with a severity, as `%tag: text%`. The unverified shell appends the line
//! terminator and writes the bytes to the diagnostic UART.

use vstd::prelude::*;

verus! {

/// ASCII '%': frames every tagged console line.
pub const BYTE_PERCENT: u8 = 0x25;

/// ASCII ':'.
pub const BYTE_COLON: u8 = 0x3A;

/// ASCII ' '.
pub const BYTE_SPACE: u8 = 0x20;

/// Severity tag of one console line.
#[derive(Clone, Copy, Debug, PartialEq, Eq, Structural)]
pub enum Severity {
    Info,
    Error,
    Success,
    Debug,
}

/// The ASCII bytes of a severity's tag word.
pub open spec fn spec_tag_bytes(s: Severity) -> Seq<u8> {
    match s {
        Severity::Info => seq![0x69u8, 0x6Eu8, 0x66u8, 0x6Fu8],  // "info"
        Severity::Error => seq![0x65u8, 0x72u8, 0x72u8, 0x6Fu8, 0x72u8],  // "error"
        Severity::Success => seq![
            0x73u8,
            0x75u8,
            0x63u8,
            0x63u8,
            0x65u8,
            0x73u8,
            0x73u8,
        ],  // "success"
        Severity::Debug => seq![0x64u8, 0x65u8, 0x62u8, 0x75u8, 0x67u8],  // "debug"
    }
}

/// One tagged console line: `%tag: text%`.
pub open spec fn spec_host_line(s: Severity, text: Seq<u8>) -> Seq<u8> {
    seq![BYTE_PERCENT] + spec_tag_bytes(s) + seq![BYTE_COLON, BYTE_SPACE] + text + seq![
        BYTE_PERCENT,
    ]
}

/// Builds one tagged console line around `text`.
pub fn host_line(sev: Severity, text: &[u8]) -> (line: Vec<u8>)
    ensures
        line@ == spec_host_line(sev, text@),
{
    let mut line: Vec<u8> = Vec::new();
    line.push(BYTE_PERCENT);
    match sev {
        Severity::Info => {
            line.push(0x69);
            line.push(0x6E);
            line.push(0x66);
            line.push(0x6F);
        },
        Severity::Error => {
            line.push(0x65);
            line.push(0x72);
            line.push(0x72);
            line.push(0x6F);
            line.push(0x72);
        },
        Severity::Success => {
            line.push(0x73);
            line.push(0x75);
            line.push(0x63);
            line.push(0x63);
            line.push(0x65);
            line.push(0x73);
            line.push(0x73);
        },
        Severity::Debug => {
            line.push(0x64);
            line.push(0x65);
            line.push(0x62);
            line.push(0x75);
            line.push(0x67);
        },
    }
    line.push(BYTE_COLON);
    line.push(BYTE_SPACE);
    let ghost head = line@;
    proof {
        assert(head =~= seq![BYTE_PERCENT] + spec_tag_bytes(sev) + seq![BYTE_COLON, BYTE_SPACE]);
    }
    let mut i: usize = 0;
    while i < text.len()
        invariant
            i <= text@.len(),
            line@ == head + text@.take(i as int),
        decreases text@.len() - i,
    {
        line.push(text[i]);
        proof {
            assert(text@.take(i as int + 1) =~= text@.take(i as int) + seq![text@[i as int]]);
            assert(line@ =~= head + text@.take(i as int + 1));
        }
        i = i + 1;
    }
    line.push(BYTE_PERCENT);
    proof {
        assert(text@.take(text@.len() as int) =~= text@);
        assert(line@ =~= spec_host_line(sev, text@));
    }
    line
}

} // verus!
