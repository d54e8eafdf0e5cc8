//! Secure channel codec: translates between a transaction's application-level
//! intent and the obfuscated byte envelope exchanged over the bus.
//!
//! The plaintext envelope layout is: byte 0 the per-transaction random
//! obfuscation key, byte 1 the ASCII discriminator XORed with that key,
//! bytes 2 and 3 the key again (validation padding), the rest of the first
//! block zero, and — for `Raw` only — the payload bytes, each XORed with the
//! key, filling the remaining blocks. The whole envelope is additionally
//! passed through the external stream cipher by the unverified shell before
//! transmission and after reception.

use vstd::prelude::*;

verus! {

/// Block size of the external symmetric cipher engine, in bytes.
pub const BLOCK_SIZE: usize = 16;

/// Largest payload a single transaction can carry, in bytes.
pub const MAX_TRANSACTION_SIZE: usize = BLOCK_SIZE * 4;

/// Whole envelope: one header block plus the payload area.
pub const OVERALL_TRANSACTION_SIZE: usize = MAX_TRANSACTION_SIZE + BLOCK_SIZE;

/// ASCII 'L': discriminator of a `List` transaction.
pub const TAG_LIST: u8 = 0x4C;

/// ASCII 'B': discriminator of a `Boot` transaction.
pub const TAG_BOOT: u8 = 0x42;

/// ASCII 'A': discriminator of an `Attest` transaction.
pub const TAG_ATTEST: u8 = 0x41;

/// ASCII 'R': discriminator of a `Raw` transaction.
pub const TAG_RAW: u8 = 0x52;

/// Application-level intent of one transaction. `Raw` carries an opaque
/// payload of exactly `MAX_TRANSACTION_SIZE` bytes; it is used for the reply
/// direction and for forward-compatible extensions.
pub enum TransactionKind {
    List,
    Boot,
    Attest,
    Raw(Vec<u8>),
}

/// Mathematical model of a `TransactionKind`: the payload as a byte sequence.
pub enum KindModel {
    List,
    Boot,
    Attest,
    Raw(Seq<u8>),
}

impl View for TransactionKind {
    type V = KindModel;

    open spec fn view(&self) -> KindModel {
        match self {
            TransactionKind::List => KindModel::List,
            TransactionKind::Boot => KindModel::Boot,
            TransactionKind::Attest => KindModel::Attest,
            TransactionKind::Raw(p) => KindModel::Raw(p@),
        }
    }
}

/// ASCII discriminator byte of each transaction kind.
pub open spec fn kind_tag(k: KindModel) -> u8 {
    match k {
        KindModel::List => TAG_LIST,
        KindModel::Boot => TAG_BOOT,
        KindModel::Attest => TAG_ATTEST,
        KindModel::Raw(_) => TAG_RAW,
    }
}

/// A kind is well formed when a `Raw` payload has exactly the protocol's
/// maximum payload size.
pub open spec fn kind_wf(k: KindModel) -> bool {
    match k {
        KindModel::Raw(p) => p.len() == MAX_TRANSACTION_SIZE,
        _ => true,
    }
}

/// Byte `i` of the plaintext envelope for kind `k` under obfuscation key
/// `rand`.
pub open spec fn spec_envelope_byte(k: KindModel, rand: u8, i: int) -> u8 {
    if i == 0 {
        rand
    } else if i == 1 {
        rand ^ kind_tag(k)
    } else if i == 2 || i == 3 {
        rand
    } else if i < BLOCK_SIZE {
        0u8
    } else {
        match k {
            KindModel::Raw(p) => p[i - BLOCK_SIZE] ^ rand,
            _ => 0u8,
        }
    }
}

/// The whole plaintext envelope for kind `k` under obfuscation key `rand`.
pub open spec fn spec_envelope(k: KindModel, rand: u8) -> Seq<u8> {
    Seq::new(OVERALL_TRANSACTION_SIZE as nat, |i: int| spec_envelope_byte(k, rand, i))
}

/// One framed transaction as recovered on the receiving side: the peer's
/// random obfuscation key and the decoded kind.
pub struct MasterChannel {
    pub trng_key: u8,
    pub kind: TransactionKind,
}

impl MasterChannel {
    /// Builds the plaintext envelope that carries `kind` under the
    /// per-transaction obfuscation key `rand`.
    pub fn into_slave(kind: TransactionKind, rand: u8) -> (data: Vec<u8>)
        requires
            kind_wf(kind@),
        ensures
            data@ == spec_envelope(kind@, rand),
    {
        let ghost model = kind@;
        let mut data: Vec<u8> = Vec::new();
        let mut i: usize = 0;
        while i < OVERALL_TRANSACTION_SIZE
            invariant
                i <= OVERALL_TRANSACTION_SIZE,
                data@.len() == i,
                forall|j: int| 0 <= j < i ==> data@[j] == 0u8,
            decreases OVERALL_TRANSACTION_SIZE - i,
        {
            data.push(0u8);
            i = i + 1;
        }
        data.set(0, rand);
        match kind {
            TransactionKind::List => data.set(1, rand ^ TAG_LIST),
            TransactionKind::Boot => data.set(1, rand ^ TAG_BOOT),
            TransactionKind::Attest => data.set(1, rand ^ TAG_ATTEST),
            TransactionKind::Raw(raw) => {
                data.set(1, rand ^ TAG_RAW);
                let mut j: usize = 0;
                while j < MAX_TRANSACTION_SIZE
                    invariant
                        j <= MAX_TRANSACTION_SIZE,
                        raw@.len() == MAX_TRANSACTION_SIZE,
                        model == KindModel::Raw(raw@),
                        data@.len() == OVERALL_TRANSACTION_SIZE,
                        data@[0] == rand,
                        data@[1] == rand ^ TAG_RAW,
                        forall|t: int| 2 <= t < BLOCK_SIZE ==> data@[t] == 0u8,
                        forall|t: int|
                            BLOCK_SIZE <= t < BLOCK_SIZE + j ==> data@[t] == (raw@[t - BLOCK_SIZE]
                                ^ rand),
                        forall|t: int|
                            BLOCK_SIZE + j <= t < OVERALL_TRANSACTION_SIZE ==> data@[t] == 0u8,
                    decreases MAX_TRANSACTION_SIZE - j,
                {
                    data.set(BLOCK_SIZE + j, raw[j] ^ rand);
                    j = j + 1;
                }
            }
        }
        data.set(2, rand);
        data.set(3, rand);
        proof {
            assert(data@ =~= spec_envelope(model, rand));
        }
        data
    }

    /// Decodes a received byte stream into the peer's obfuscation key and the
    /// transaction kind. An unrecognized discriminator yields `None`: the
    /// caller must treat this as a protocol abort.
    pub fn from_master(bytes: &[u8]) -> (r: Option<MasterChannel>)
        ensures
            match r {
                Some(mc) => spec_decode(bytes@) == Some((mc.trng_key, mc.kind@)),
                None => spec_decode(bytes@) is None,
            },
    {
        if bytes.len() < 2 {
            return None;
        }
        let trng_key = bytes[0];
        let tag = bytes[1] ^ trng_key;
        let kind: TransactionKind = if tag == TAG_LIST {
            TransactionKind::List
        } else if tag == TAG_BOOT {
            TransactionKind::Boot
        } else if tag == TAG_ATTEST {
            TransactionKind::Attest
        } else if tag == TAG_RAW {
            let mut payload: Vec<u8> = Vec::new();
            let mut i: usize = 0;
            while i < MAX_TRANSACTION_SIZE
                invariant
                    i <= MAX_TRANSACTION_SIZE,
                    payload@.len() == i,
                    bytes@.len() >= 2,
                    trng_key == bytes@[0],
                    forall|t: int|
                        0 <= t < i ==> payload@[t] == spec_raw_payload(bytes@, trng_key)[t],
                decreases MAX_TRANSACTION_SIZE - i,
            {
                if BLOCK_SIZE + i < bytes.len() {
                    payload.push(bytes[BLOCK_SIZE + i] ^ trng_key);
                } else {
                    payload.push(0u8);
                }
                i = i + 1;
            }
            proof {
                assert(payload@ =~= spec_raw_payload(bytes@, trng_key));
            }
            TransactionKind::Raw(payload)
        } else {
            return None;
        };
        Some(MasterChannel { trng_key, kind })
    }
}

/// The `Raw` payload recovered from a received stream under obfuscation key
/// `key`: bytes past the header block, unmasked; positions the stream does
/// not cover read as zero.
pub open spec fn spec_raw_payload(bytes: Seq<u8>, key: u8) -> Seq<u8> {
    Seq::new(
        MAX_TRANSACTION_SIZE as nat,
        |i: int|
            if BLOCK_SIZE + i < bytes.len() {
                bytes[BLOCK_SIZE + i] ^ key
            } else {
                0u8
            },
    )
}

/// What decoding a received byte stream yields: the peer's obfuscation key
/// and the transaction kind, or nothing when the stream is too short or its
/// discriminator is unknown.
pub open spec fn spec_decode(bytes: Seq<u8>) -> Option<(u8, KindModel)> {
    if bytes.len() < 2 {
        None
    } else {
        let key = bytes[0];
        let tag = bytes[1] ^ key;
        if tag == TAG_LIST {
            Some((key, KindModel::List))
        } else if tag == TAG_BOOT {
            Some((key, KindModel::Boot))
        } else if tag == TAG_ATTEST {
            Some((key, KindModel::Attest))
        } else if tag == TAG_RAW {
            Some((key, KindModel::Raw(spec_raw_payload(bytes, key))))
        } else {
            None
        }
    }
}

/// Every byte of `s` XORed with `key`: the envelope's payload obfuscation.
pub open spec fn xor_mask(s: Seq<u8>, key: u8) -> Seq<u8> {
    Seq::new(s.len(), |i: int| s[i] ^ key)
}

/// XOR of a byte with the same key twice gives the byte back.
proof fn lemma_xor_cancel(a: u8, b: u8)
    by (bit_vector)
    ensures
        (a ^ b) ^ b == a,
        (b ^ a) ^ b == a,
{
}

/// XOR-masking a payload twice with the same key reproduces the payload.
pub proof fn lemma_mask_involutive(s: Seq<u8>, key: u8)
    ensures
        xor_mask(xor_mask(s, key), key) == s,
{
    assert forall|i: int| 0 <= i < s.len() implies xor_mask(xor_mask(s, key), key)[i] == s[i] by {
        lemma_xor_cancel(s[i], key);
    }
    assert(xor_mask(xor_mask(s, key), key) =~= s);
}

/// Applies the XOR obfuscation mask to a byte slice.
pub fn mask_bytes(data: &[u8], key: u8) -> (r: Vec<u8>)
    ensures
        r@ == xor_mask(data@, key),
{
    let mut r: Vec<u8> = Vec::new();
    let mut i: usize = 0;
    while i < data.len()
        invariant
            i <= data@.len(),
            r@.len() == i,
            forall|j: int| 0 <= j < i ==> r@[j] == (data@[j] ^ key),
        decreases data@.len() - i,
    {
        r.push(data[i] ^ key);
        i = i + 1;
    }
    proof {
        assert(r@ =~= xor_mask(data@, key));
    }
    r
}

/// Framing round-trip: decoding the envelope built for any well-formed kind
/// and any obfuscation key recovers both exactly, and the header bytes are
/// laid out as the protocol prescribes.
pub proof fn lemma_frame_round_trip(k: KindModel, rand: u8)
    requires
        kind_wf(k),
    ensures
        spec_decode(spec_envelope(k, rand)) == Some((rand, k)),
        spec_envelope(k, rand)[0] == rand,
        spec_envelope(k, rand)[1] == (rand ^ kind_tag(k)),
        spec_envelope(k, rand)[2] == rand,
        spec_envelope(k, rand)[3] == rand,
{
    let env = spec_envelope(k, rand);
    lemma_xor_cancel(kind_tag(k), rand);
    assert(env[1] ^ env[0] == kind_tag(k));
    match k {
        KindModel::Raw(p) => {
            assert forall|i: int| 0 <= i < MAX_TRANSACTION_SIZE implies spec_raw_payload(
                env,
                rand,
            )[i] == p[i] by {
                assert(env[BLOCK_SIZE + i] == (p[i] ^ rand));
                lemma_xor_cancel(p[i], rand);
            }
            assert(spec_raw_payload(env, rand) =~= p);
        },
        _ => {},
    }
}

/// Unknown discriminator rejection: a received stream whose second byte,
/// unmasked with the first, is none of the four known discriminators decodes
/// to nothing.
pub proof fn lemma_unknown_tag_rejected(bytes: Seq<u8>)
    requires
        bytes.len() >= 2,
        bytes[1] ^ bytes[0] != TAG_LIST,
        bytes[1] ^ bytes[0] != TAG_BOOT,
        bytes[1] ^ bytes[0] != TAG_ATTEST,
        bytes[1] ^ bytes[0] != TAG_RAW,
    ensures
        spec_decode(bytes) is None,
{
}

/// Splits an envelope into the fixed-size blocks written to the bus, in
/// order: block `b` holds envelope bytes `b * BLOCK_SIZE` onward.
pub fn chunk_blocks(env: &[u8]) -> (blocks: Vec<Vec<u8>>)
    requires
        env@.len() % (BLOCK_SIZE as nat) == 0,
    ensures
        blocks@.len() == env@.len() / (BLOCK_SIZE as nat),
        forall|b: int| 0 <= b < blocks@.len() ==> #[trigger] blocks@[b]@.len() == BLOCK_SIZE,
        forall|b: int, j: int|
            0 <= b < blocks@.len() && 0 <= j < BLOCK_SIZE ==> #[trigger] blocks@[b]@[j] == env@[b
                * BLOCK_SIZE + j],
{
    proof {
        vstd::arithmetic::div_mod::lemma_fundamental_div_mod(
            env@.len() as int,
            BLOCK_SIZE as int,
        );
    }
    let n_blocks = env.len() / BLOCK_SIZE;
    let mut blocks: Vec<Vec<u8>> = Vec::new();
    let mut b: usize = 0;
    let mut pos: usize = 0;
    while b < n_blocks
        invariant
            b <= n_blocks,
            pos == (b as int) * (BLOCK_SIZE as int),
            pos <= env@.len(),
            env@.len() <= usize::MAX,
            n_blocks == env@.len() / (BLOCK_SIZE as nat),
            env@.len() == (BLOCK_SIZE as int) * (n_blocks as int),
            blocks@.len() == b,
            forall|t: int| 0 <= t < b ==> #[trigger] blocks@[t]@.len() == BLOCK_SIZE,
            forall|t: int, j: int|
                0 <= t < b && 0 <= j < BLOCK_SIZE ==> #[trigger] blocks@[t]@[j] == env@[t
                    * BLOCK_SIZE + j],
        decreases n_blocks - b,
    {
        assert((pos as int) + (BLOCK_SIZE as int) <= env@.len()) by {
            assert((b as int) * (BLOCK_SIZE as int) + (BLOCK_SIZE as int) <= (BLOCK_SIZE as int)
                * (n_blocks as int)) by (nonlinear_arith)
                requires
                    0 <= (b as int),
                    (b as int) < (n_blocks as int),
            ;
        }
        let mut block: Vec<u8> = Vec::new();
        let mut j: usize = 0;
        while j < BLOCK_SIZE
            invariant
                j <= BLOCK_SIZE,
                pos == (b as int) * (BLOCK_SIZE as int),
                pos + BLOCK_SIZE <= env@.len(),
                block@.len() == j,
                forall|t: int| 0 <= t < j ==> block@[t] == env@[pos + t],
            decreases BLOCK_SIZE - j,
        {
            block.push(env[pos + j]);
            j = j + 1;
        }
        blocks.push(block);
        b = b + 1;
        pos = pos + BLOCK_SIZE;
    }
    blocks
}

} // verus!
