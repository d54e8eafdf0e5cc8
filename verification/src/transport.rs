//! Master/slave exchange logic over the half-duplex bus, with the
//! transient-error retry policy that makes it robust on a noisy shared
//! transport.
//!
//! The bus itself (an addressed byte-transaction transport) is driven by the
//! unverified shell; this module holds the decisions: how each poll outcome
//! is classified, when a slave transaction aborts, and what reply the
//! component returns before boot. The master treats any anomaly as fatal,
//! since it knows when it intends to talk; the slave must absorb an
//! unbounded number of "nothing available yet" conditions while still
//! distinguishing them from real faults.

use vstd::prelude::*;

use crate::codec::{
    kind_wf, spec_decode, spec_envelope, xor_mask, KindModel, MasterChannel, TransactionKind,
    BLOCK_SIZE, MAX_TRANSACTION_SIZE, OVERALL_TRANSACTION_SIZE,
};

verus! {

/// Transport-level error conditions, as the bus driver reports them.
/// `NoneAvailable` and `Underflow` are transient: expected while the slave
/// polls for a master that has not spoken yet. The others are fatal to the
/// current transaction.
#[derive(Clone, Copy, Debug, PartialEq, Eq, Structural)]
pub enum BusError {
    /// No data has arrived yet; poll again.
    NoneAvailable,
    /// The receive buffer ran dry mid-poll; poll again.
    Underflow,
    /// The peer sent a frame this protocol cannot decode.
    Abort,
    /// A hard bus fault.
    BusFault,
    /// The peer answered with a malformed length.
    BadLength,
}

/// A transient condition is retried silently; anything else ends the
/// transaction.
pub open spec fn spec_transient(e: BusError) -> bool {
    e == BusError::NoneAvailable || e == BusError::Underflow
}

/// Exec mirror of `spec_transient`.
pub fn is_transient(e: &BusError) -> (r: bool)
    ensures
        r == spec_transient(*e),
{
    match e {
        BusError::NoneAvailable => true,
        BusError::Underflow => true,
        _ => false,
    }
}

/// One outcome of polling the slave-receive primitive.
pub enum SlaveRx {
    /// A frame arrived: the accumulated received bytes.
    Data(Vec<u8>),
    /// The poll failed with a transport error.
    Fault(BusError),
}

/// One outcome of polling the slave-send primitive.
pub enum SlaveTx {
    /// The reply was fully delivered.
    Sent,
    /// The poll failed with a transport error.
    Fault(BusError),
}

/// What a slave receive loop yields over a given sequence of poll outcomes:
/// the first frame, skipping transient faults; the first fatal fault
/// otherwise; `NoneAvailable` when the outcomes run out without either.
pub open spec fn spec_collect(evs: Seq<SlaveRx>) -> Result<Seq<u8>, BusError>
    decreases evs.len(),
{
    if evs.len() == 0 {
        Err(BusError::NoneAvailable)
    } else {
        match evs[0] {
            SlaveRx::Data(d) => Ok(d@),
            SlaveRx::Fault(e) => if spec_transient(e) {
                spec_collect(evs.skip(1))
            } else {
                Err(e)
            },
        }
    }
}

/// Runs the slave receive loop over a recorded sequence of poll outcomes.
pub fn slave_collect(events: &Vec<SlaveRx>) -> (r: Result<Vec<u8>, BusError>)
    ensures
        match r {
            Ok(d) => spec_collect(events@) == Ok::<Seq<u8>, BusError>(d@),
            Err(e) => spec_collect(events@) == Err::<Seq<u8>, BusError>(e),
        },
{
    let mut i: usize = 0;
    proof {
        assert(events@.skip(0) =~= events@);
    }
    while i < events.len()
        invariant
            i <= events@.len(),
            spec_collect(events@) == spec_collect(events@.skip(i as int)),
        decreases events@.len() - i,
    {
        proof {
            assert(events@.skip(i as int)[0] == events@[i as int]);
            assert(events@.skip(i as int).skip(1) =~= events@.skip(i as int + 1));
        }
        match &events[i] {
            SlaveRx::Data(d) => {
                return Ok(vstd::slice::slice_to_vec(d.as_slice()));
            },
            SlaveRx::Fault(e) => {
                if !is_transient(e) {
                    return Err(*e);
                }
            },
        }
        i = i + 1;
    }
    proof {
        assert(events@.skip(i as int) =~= Seq::<SlaveRx>::empty());
    }
    Err(BusError::NoneAvailable)
}

/// What a slave send loop yields over a given sequence of poll outcomes:
/// success at the first full delivery, skipping transient faults; the first
/// fatal fault otherwise; `NoneAvailable` when the outcomes run out.
pub open spec fn spec_send_result(evs: Seq<SlaveTx>) -> Result<(), BusError>
    decreases evs.len(),
{
    if evs.len() == 0 {
        Err(BusError::NoneAvailable)
    } else {
        match evs[0] {
            SlaveTx::Sent => Ok(()),
            SlaveTx::Fault(e) => if spec_transient(e) {
                spec_send_result(evs.skip(1))
            } else {
                Err(e)
            },
        }
    }
}

/// Runs the slave send loop over a recorded sequence of poll outcomes.
pub fn slave_send_result(events: &Vec<SlaveTx>) -> (r: Result<(), BusError>)
    ensures
        r == spec_send_result(events@),
{
    let mut i: usize = 0;
    proof {
        assert(events@.skip(0) =~= events@);
    }
    while i < events.len()
        invariant
            i <= events@.len(),
            spec_send_result(events@) == spec_send_result(events@.skip(i as int)),
        decreases events@.len() - i,
    {
        proof {
            assert(events@.skip(i as int)[0] == events@[i as int]);
            assert(events@.skip(i as int).skip(1) =~= events@.skip(i as int + 1));
        }
        match &events[i] {
            SlaveTx::Sent => {
                return Ok(());
            },
            SlaveTx::Fault(e) => {
                if !is_transient(e) {
                    return Err(*e);
                }
            },
        }
        i = i + 1;
    }
    proof {
        assert(events@.skip(i as int) =~= Seq::<SlaveTx>::empty());
    }
    Err(BusError::NoneAvailable)
}

/// Transient-error absorption: any finite run of transient faults before a
/// received frame is invisible to the slave transaction — the collect result
/// is exactly that frame.
pub proof fn lemma_transient_absorbed(evs: Seq<SlaveRx>, n: int, d: Vec<u8>)
    requires
        0 <= n < evs.len(),
        forall|i: int|
            0 <= i < n ==> (#[trigger] evs[i] matches SlaveRx::Fault(f) && spec_transient(f)),
        evs[n] == SlaveRx::Data(d),
    ensures
        spec_collect(evs) == Ok::<Seq<u8>, BusError>(d@),
    decreases n,
{
    if n == 0 {
    } else {
        assert(evs[0] matches SlaveRx::Fault(f) && spec_transient(f));
        assert(evs.skip(1)[n - 1] == evs[n]);
        assert(forall|i: int|
            0 <= i < n - 1 ==> (#[trigger] evs.skip(1)[i] matches SlaveRx::Fault(f)
                && spec_transient(f)));
        lemma_transient_absorbed(evs.skip(1), n - 1, d);
    }
}

/// A fatal fault on the first poll aborts immediately with that fault.
pub proof fn lemma_fatal_aborts(evs: Seq<SlaveRx>, e: BusError)
    requires
        evs.len() >= 1,
        evs[0] == SlaveRx::Fault(e),
        !spec_transient(e),
    ensures
        spec_collect(evs) == Err::<Seq<u8>, BusError>(e),
{
}

/// How a slave transaction can end without a reply. A decode failure
/// (`ProtocolAbort`) is kept distinct from a transport fault, so diagnostics
/// can tell a bad bus from a forged message; `ContractViolation` marks a
/// `Raw` request arriving before boot, which the pre-boot responder must
/// treat as unrecoverable.
#[derive(Clone, Copy, Debug, PartialEq, Eq, Structural)]
pub enum SlaveError {
    /// The bus failed with a fatal transport error.
    Transport(BusError),
    /// The received envelope carries an unrecognized discriminator.
    ProtocolAbort,
    /// A `Raw` request arrived during the pre-boot phase.
    ContractViolation,
}

/// The fixed-size reply the component returns for each request kind during
/// the pre-boot phase: an all-zero placeholder for `List`, an
/// acknowledgement of ones for `Boot` and `Attest`. `Raw` has no pre-boot
/// reply.
pub open spec fn spec_reply(k: KindModel) -> Seq<u8> {
    match k {
        KindModel::List => Seq::new(MAX_TRANSACTION_SIZE as nat, |i: int| 0u8),
        KindModel::Boot => Seq::new(MAX_TRANSACTION_SIZE as nat, |i: int| 1u8),
        KindModel::Attest => Seq::new(MAX_TRANSACTION_SIZE as nat, |i: int| 1u8),
        KindModel::Raw(_) => Seq::empty(),
    }
}

/// Maps a received request to the component's pre-boot reply payload.
/// Receiving `Raw` in this phase is a protocol-contract violation.
pub fn responder_reply(kind: &TransactionKind) -> (r: Result<Vec<u8>, SlaveError>)
    ensures
        match r {
            Ok(p) => !(kind@ is Raw) && p@ == spec_reply(kind@),
            Err(e) => kind@ is Raw && e == SlaveError::ContractViolation,
        },
{
    match kind {
        TransactionKind::Raw(_) => Err(SlaveError::ContractViolation),
        TransactionKind::List => {
            let p = vec![0u8; MAX_TRANSACTION_SIZE];
            proof {
                assert(p@ =~= spec_reply(kind@));
            }
            Ok(p)
        },
        _ => {
            let p = vec![1u8; MAX_TRANSACTION_SIZE];
            proof {
                assert(p@ =~= spec_reply(kind@));
            }
            Ok(p)
        },
    }
}

/// What one whole slave transaction yields, given the poll outcomes of its
/// receive and send phases: the masked reply that goes back to the master,
/// or the error that ended the transaction.
pub open spec fn spec_slave_outcome(rx: Seq<SlaveRx>, tx: Seq<SlaveTx>) -> Result<
    Seq<u8>,
    SlaveError,
> {
    match spec_collect(rx) {
        Err(e) => Err(SlaveError::Transport(e)),
        Ok(bytes) => match spec_decode(bytes) {
            None => Err(SlaveError::ProtocolAbort),
            Some((key, k)) => if k is Raw {
                Err(SlaveError::ContractViolation)
            } else {
                match spec_send_result(tx) {
                    Ok(_) => Ok(xor_mask(spec_reply(k), key)),
                    Err(e) => Err(SlaveError::Transport(e)),
                }
            },
        },
    }
}

/// One whole slave transaction: collect a frame (absorbing transient
/// faults), decode it, produce the pre-boot reply, mask it with the peer's
/// obfuscation key, and deliver it (absorbing transient faults again).
/// Returns the masked reply bytes handed to the bus, or the error that
/// ended the transaction.
pub fn secure_slave_transaction(rx_events: &Vec<SlaveRx>, tx_events: &Vec<SlaveTx>) -> (r: Result<
    Vec<u8>,
    SlaveError,
>)
    ensures
        match r {
            Ok(d) => spec_slave_outcome(rx_events@, tx_events@) == Ok::<Seq<u8>, SlaveError>(d@),
            Err(e) => spec_slave_outcome(rx_events@, tx_events@) == Err::<Seq<u8>, SlaveError>(e),
        },
{
    let bytes = match slave_collect(rx_events) {
        Ok(b) => b,
        Err(e) => {
            return Err(SlaveError::Transport(e));
        },
    };
    let mc = match MasterChannel::from_master(bytes.as_slice()) {
        Some(mc) => mc,
        None => {
            return Err(SlaveError::ProtocolAbort);
        },
    };
    let reply = match responder_reply(&mc.kind) {
        Ok(p) => p,
        Err(e) => {
            return Err(e);
        },
    };
    let masked = crate::codec::mask_bytes(reply.as_slice(), mc.trng_key);
    match slave_send_result(tx_events) {
        Ok(_) => Ok(masked),
        Err(e) => Err(SlaveError::Transport(e)),
    }
}

/// The fixed-size block writes of one master request: the envelope for
/// `kind` under the fresh obfuscation key `rand`, split into cipher blocks
/// in transmission order. Interpreting the reply is the other half of a
/// master transaction: the received bytes are unmasked with the same `rand`
/// (see `codec::mask_bytes`), since the protocol reuses one key for both
/// directions of a transaction.
pub fn master_request_blocks(kind: TransactionKind, rand: u8) -> (blocks: Vec<Vec<u8>>)
    requires
        kind_wf(kind@),
    ensures
        blocks@.len() * BLOCK_SIZE == OVERALL_TRANSACTION_SIZE,
        forall|b: int| 0 <= b < blocks@.len() ==> #[trigger] blocks@[b]@.len() == BLOCK_SIZE,
        forall|b: int, j: int|
            0 <= b < blocks@.len() && 0 <= j < BLOCK_SIZE ==> #[trigger] blocks@[b]@[j]
                == spec_envelope(kind@, rand)[b * BLOCK_SIZE + j],
{
    let env = MasterChannel::into_slave(kind, rand);
    crate::codec::chunk_blocks(env.as_slice())
}

} // verus!
