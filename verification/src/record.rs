use vstd::prelude::*;

use vstd::bytes::{
    lemma_auto_spec_u64_to_from_le_bytes, spec_u64_from_le_bytes, spec_u64_to_le_bytes,
    u64_from_le_bytes, u64_to_le_bytes,
};
use vstd::slice::{slice_index_get, slice_subrange, slice_to_vec};

use crate::errors::ErrorCode;
use crate::identity::{bytes32_eq, Identity};

verus! {

/// The number of payload bytes a stored record occupies: owner identity,
/// derivation nonce, last slot, last timestamp, count.
pub const RECORD_SIZE: usize = 32 + 1 + 8 + 8 + 8;

/// The mathematical value of a record.
#[verifier::ext_equal]
pub ghost struct RecordView {
    pub authority: Seq<u8>,
    pub bump: u8,
    pub last_checkin_slot: u64,
    pub last_checkin_ts: i64,
    pub count: u64,
}

/// One user's persistent record: who owns it, the nonce proving its address
/// derivation, and the latest check-in data.
#[derive(Clone, Copy, Debug)]
pub struct UserPda {
    /// The identity authorized to mutate this record; set once at creation.
    pub authority: Identity,
    /// The derivation nonce bound to this record's address; set once at
    /// creation.
    pub bump: u8,
    /// The ledger position of the latest check-in.
    pub last_checkin_slot: u64,
    /// The wall-clock time of the latest check-in.
    pub last_checkin_ts: i64,
    /// How many check-ins have succeeded against this record.
    pub count: u64,
}

impl View for UserPda {
    type V = RecordView;

    open spec fn view(&self) -> RecordView {
        RecordView {
            authority: self.authority@,
            bump: self.bump,
            last_checkin_slot: self.last_checkin_slot,
            last_checkin_ts: self.last_checkin_ts,
            count: self.count,
        }
    }
}

impl UserPda {
    /// The record size as an executable value.
    pub fn size() -> (r: usize)
        ensures
            r == RECORD_SIZE,
            r == 57,
    {
        RECORD_SIZE
    }

    /// A freshly created record: bound to its owner and nonce, everything
    /// else zeroed.
    pub fn new(authority: Identity, bump: u8) -> (r: UserPda)
        ensures
            r@ == (RecordView {
                authority: authority@,
                bump,
                last_checkin_slot: 0,
                last_checkin_ts: 0,
                count: 0,
            }),
    {
        UserPda { authority, bump, last_checkin_slot: 0, last_checkin_ts: 0, count: 0 }
    }
}

/// What one check-in attempt does to a record already fetched and already
/// known to sit at its derived address: the caller must be the bound owner
/// and the counter must have headroom; then, and only then, the latest slot
/// and timestamp are replaced and the counter grows by exactly one.
pub open spec fn record_checkin_outcome(
    rec: RecordView,
    caller: Seq<u8>,
    slot: u64,
    ts: i64,
) -> Result<RecordView, ErrorCode> {
    if rec.authority != caller {
        Err(ErrorCode::InvalidAuthority)
    } else if rec.count == u64::MAX {
        Err(ErrorCode::Overflow)
    } else {
        Ok(
            RecordView {
                authority: rec.authority,
                bump: rec.bump,
                last_checkin_slot: slot,
                last_checkin_ts: ts,
                count: (rec.count + 1) as u64,
            },
        )
    }
}

/// Applies one check-in to a record, given the caller's identity and the
/// host-supplied current slot and timestamp. The record itself is not
/// changed; the updated record is returned.
pub fn checkin_record(rec: &UserPda, caller: &Identity, slot: u64, ts: i64) -> (r: Result<
    UserPda,
    ErrorCode,
>)
    ensures
        (match r {
            Ok(updated) => record_checkin_outcome(rec@, caller@, slot, ts) == Ok::<
                RecordView,
                ErrorCode,
            >(updated@),
            Err(e) => record_checkin_outcome(rec@, caller@, slot, ts) == Err::<
                RecordView,
                ErrorCode,
            >(e),
        }),
{
    if !bytes32_eq(&rec.authority.bytes, &caller.bytes) {
        return Err(ErrorCode::InvalidAuthority);
    }
    match rec.count.checked_add(1) {
        None => Err(ErrorCode::Overflow),
        Some(next) => Ok(
            UserPda {
                authority: rec.authority,
                bump: rec.bump,
                last_checkin_slot: slot,
                last_checkin_ts: ts,
                count: next,
            },
        ),
    }
}

/// The timestamp's two's-complement bit image, as stored on disk.
pub open spec fn ts_bits(ts: i64) -> u64 {
    if ts >= 0 {
        ts as u64
    } else {
        ((ts as int) + 0x1_0000_0000_0000_0000) as u64
    }
}

/// The timestamp a stored bit image denotes.
pub open spec fn bits_ts(b: u64) -> i64 {
    if b < 0x8000_0000_0000_0000 {
        b as i64
    } else {
        ((b as int) - 0x1_0000_0000_0000_0000) as i64
    }
}

/// Law: the timestamp encoding is lossless in both directions.
pub proof fn lemma_ts_bits_round_trip(ts: i64, b: u64)
    ensures
        bits_ts(ts_bits(ts)) == ts,
        ts_bits(bits_ts(b)) == b,
{
}

fn ts_to_bits(ts: i64) -> (r: u64)
    ensures
        r == ts_bits(ts),
{
    if ts >= 0 {
        ts as u64
    } else {
        ((ts as i128) + 0x1_0000_0000_0000_0000i128) as u64
    }
}

fn bits_to_ts(b: u64) -> (r: i64)
    ensures
        r == bits_ts(b),
{
    if b < 0x8000_0000_0000_0000 {
        b as i64
    } else {
        ((b as i128) - 0x1_0000_0000_0000_0000i128) as i64
    }
}

/// A record's 57-byte persisted image: owner identity at offset 0, nonce at
/// 32, then slot, timestamp and count, each 8 bytes little-endian.
pub open spec fn record_bytes(rec: RecordView) -> Seq<u8> {
    rec.authority + seq![rec.bump] + spec_u64_to_le_bytes(rec.last_checkin_slot)
        + spec_u64_to_le_bytes(ts_bits(rec.last_checkin_ts)) + spec_u64_to_le_bytes(rec.count)
}

/// The record a 57-byte persisted image denotes.
pub open spec fn record_of_bytes(b: Seq<u8>) -> RecordView
    recommends
        b.len() == RECORD_SIZE,
{
    RecordView {
        authority: b.subrange(0, 32),
        bump: b[32],
        last_checkin_slot: spec_u64_from_le_bytes(b.subrange(33, 41)),
        last_checkin_ts: bits_ts(spec_u64_from_le_bytes(b.subrange(41, 49))),
        count: spec_u64_from_le_bytes(b.subrange(49, 57)),
    }
}

/// Serializes a record into its 57-byte persisted image.
pub fn record_to_bytes(rec: &UserPda) -> (r: Vec<u8>)
    ensures
        r@ == record_bytes(rec@),
        r@.len() == RECORD_SIZE,
{
    proof {
        lemma_auto_spec_u64_to_from_le_bytes();
    }
    let mut out: Vec<u8> = slice_to_vec(rec.authority.bytes.as_slice());
    out.push(rec.bump);
    let mut slot_bytes: Vec<u8> = u64_to_le_bytes(rec.last_checkin_slot);
    out.append(&mut slot_bytes);
    let mut ts_bytes: Vec<u8> = u64_to_le_bytes(ts_to_bits(rec.last_checkin_ts));
    out.append(&mut ts_bytes);
    let mut count_bytes: Vec<u8> = u64_to_le_bytes(rec.count);
    out.append(&mut count_bytes);
    proof {
        assert(out@ =~= record_bytes(rec@));
    }
    out
}

/// Parses a 57-byte persisted image back into a record. Any other length is
/// rejected; every 57-byte string parses.
pub fn record_from_bytes(b: &[u8]) -> (r: Option<UserPda>)
    ensures
        (match r {
            Some(rec) => b@.len() == RECORD_SIZE && rec@ == record_of_bytes(b@),
            None => b@.len() != RECORD_SIZE,
        }),
{
    proof {
        lemma_auto_spec_u64_to_from_le_bytes();
    }
    if b.len() != RECORD_SIZE {
        return None;
    }
    let mut authority_bytes: [u8; 32] = [0u8; 32];
    let mut i: usize = 0;
    while i < 32
        invariant
            i <= 32,
            b@.len() == RECORD_SIZE,
            forall|j: int| 0 <= j < i ==> authority_bytes@[j] == b@[j],
        decreases 32 - i,
    {
        authority_bytes[i] = *slice_index_get(b, i);
        i += 1;
    }
    let bump: u8 = *slice_index_get(b, 32);
    let slot: u64 = u64_from_le_bytes(slice_subrange(b, 33, 41));
    let ts: i64 = bits_to_ts(u64_from_le_bytes(slice_subrange(b, 41, 49)));
    let count: u64 = u64_from_le_bytes(slice_subrange(b, 49, 57));
    let rec = UserPda {
        authority: Identity { bytes: authority_bytes },
        bump,
        last_checkin_slot: slot,
        last_checkin_ts: ts,
        count,
    };
    proof {
        assert(authority_bytes@ =~= b@.subrange(0, 32));
        assert(rec@ =~= record_of_bytes(b@));
    }
    Some(rec)
}

/// Law: serialization is lossless — parsing a record's persisted image gives
/// the record back, and serializing what a 57-byte image parses to gives the
/// image back.
pub proof fn lemma_record_bytes_round_trip(rec: RecordView, b: Seq<u8>)
    requires
        rec.authority.len() == 32,
        b.len() == RECORD_SIZE,
    ensures
        record_of_bytes(record_bytes(rec)) == rec,
        record_bytes(record_of_bytes(b)) == b,
{
    lemma_auto_spec_u64_to_from_le_bytes();
    lemma_ts_bits_round_trip(rec.last_checkin_ts, spec_u64_from_le_bytes(b.subrange(41, 49)));
    let enc = record_bytes(rec);
    assert(enc.subrange(0, 32) =~= rec.authority);
    assert(enc.subrange(33, 41) =~= spec_u64_to_le_bytes(rec.last_checkin_slot));
    assert(enc.subrange(41, 49) =~= spec_u64_to_le_bytes(ts_bits(rec.last_checkin_ts)));
    assert(enc.subrange(49, 57) =~= spec_u64_to_le_bytes(rec.count));
    assert(record_of_bytes(record_bytes(rec)) =~= rec);
    assert(record_bytes(record_of_bytes(b)) =~= b);
}

} // verus!
