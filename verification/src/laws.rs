use vstd::prelude::*;

use crate::derivation::derived;
use crate::errors::ErrorCode;
use crate::ledger::{checkin_outcome, initialize_outcome};
use crate::record::RecordView;

verus! {

/// The store invariant: every stored record sits at exactly the address its
/// own owner and nonce derive to.
pub open spec fn consistent(m: Map<Seq<u8>, RecordView>) -> bool {
    forall|a: Seq<u8>| #[trigger]
        m.contains_key(a) ==> derived(m[a].authority) == Some((a, m[a].bump))
}

/// Law: initialization preserves the store invariant — a record is only ever
/// created at its owner's derived address, with the derived nonce.
pub proof fn lemma_initialize_preserves_consistent(pre: Map<Seq<u8>, RecordView>, owner: Seq<u8>)
    requires
        consistent(pre),
    ensures
        consistent(initialize_outcome(pre, owner).0),
{
    let post = initialize_outcome(pre, owner).0;
    assert forall|a: Seq<u8>| #[trigger]
        post.contains_key(a) implies derived(post[a].authority) == Some((a, post[a].bump)) by {
        if pre.contains_key(a) {
            assert(derived(pre[a].authority) == Some((a, pre[a].bump)));
        }
    }
}

/// Law: a check-in preserves the store invariant — it never moves a record
/// and never changes its owner or nonce.
pub proof fn lemma_checkin_preserves_consistent(
    pre: Map<Seq<u8>, RecordView>,
    caller: Seq<u8>,
    addr: Seq<u8>,
    slot: u64,
    ts: i64,
)
    requires
        consistent(pre),
    ensures
        consistent(checkin_outcome(pre, caller, addr, slot, ts).0),
{
    let post = checkin_outcome(pre, caller, addr, slot, ts).0;
    assert forall|a: Seq<u8>| #[trigger]
        post.contains_key(a) implies derived(post[a].authority) == Some((a, post[a].bump)) by {
        if pre.contains_key(a) {
            assert(derived(pre[a].authority) == Some((a, pre[a].bump)));
        }
    }
}

/// Law: at most one record per identity — under the store invariant, two
/// stored records with the same owner sit at the same address, so a second
/// record for an identity cannot exist.
pub proof fn lemma_one_record_per_identity(m: Map<Seq<u8>, RecordView>, a1: Seq<u8>, a2: Seq<u8>)
    requires
        consistent(m),
        m.contains_key(a1),
        m.contains_key(a2),
        m[a1].authority == m[a2].authority,
    ensures
        a1 == a2,
{
    assert(derived(m[a1].authority) == Some((a1, m[a1].bump)));
    assert(derived(m[a2].authority) == Some((a2, m[a2].bump)));
}

/// Law: uniqueness — after one successful initialization for an identity, a
/// second initialization for the same identity always fails with
/// `AddressCollision` and leaves the store unchanged.
pub proof fn lemma_initialize_unique(pre: Map<Seq<u8>, RecordView>, owner: Seq<u8>)
    requires
        initialize_outcome(pre, owner).1 is Ok,
    ensures
        ({
            let mid = initialize_outcome(pre, owner).0;
            initialize_outcome(mid, owner) == (
                mid,
                Err::<(), ErrorCode>(ErrorCode::AddressCollision),
            )
        }),
{
}

/// Law: the authority gate — a check-in against a record bound to `owner`,
/// asserted by any other identity, always fails with `InvalidAuthority` and
/// leaves the store, and so the record, unchanged.
pub proof fn lemma_authority_gate(
    pre: Map<Seq<u8>, RecordView>,
    owner: Seq<u8>,
    caller: Seq<u8>,
    addr: Seq<u8>,
    slot: u64,
    ts: i64,
)
    requires
        consistent(pre),
        pre.contains_key(addr),
        pre[addr].authority == owner,
        caller != owner,
    ensures
        checkin_outcome(pre, caller, addr, slot, ts) == (
            pre,
            Err::<(), ErrorCode>(ErrorCode::InvalidAuthority),
        ),
{
}

/// Law: the overflow boundary — a check-in against a record whose counter is
/// at the maximum representable value fails with `Overflow` and leaves every
/// field unchanged, even when the caller is the rightful owner.
pub proof fn lemma_overflow_boundary(
    pre: Map<Seq<u8>, RecordView>,
    caller: Seq<u8>,
    addr: Seq<u8>,
    slot: u64,
    ts: i64,
)
    requires
        consistent(pre),
        pre.contains_key(addr),
        pre[addr].authority == caller,
        pre[addr].count == u64::MAX,
    ensures
        checkin_outcome(pre, caller, addr, slot, ts) == (
            pre,
            Err::<(), ErrorCode>(ErrorCode::Overflow),
        ),
{
}

/// Law: initialization never touches an existing record — whatever it
/// returns, every record stored beforehand is stored afterwards, unchanged.
pub proof fn lemma_initialize_preserves_existing(
    pre: Map<Seq<u8>, RecordView>,
    owner: Seq<u8>,
    a: Seq<u8>,
)
    requires
        pre.contains_key(a),
    ensures
        ({
            let post = initialize_outcome(pre, owner).0;
            post.contains_key(a) && post[a] == pre[a]
        }),
{
}

/// Law: the counter never decreases — whatever a check-in request returns,
/// every stored record's count after it is at least its count before.
pub proof fn lemma_checkin_count_never_decreases(
    pre: Map<Seq<u8>, RecordView>,
    caller: Seq<u8>,
    addr: Seq<u8>,
    slot: u64,
    ts: i64,
    a: Seq<u8>,
)
    requires
        pre.contains_key(a),
    ensures
        ({
            let post = checkin_outcome(pre, caller, addr, slot, ts).0;
            post.contains_key(a) && pre[a].count <= post[a].count
        }),
{
}

/// The store after a sequence of check-in calls, each with its own slot and
/// timestamp, all by one caller against one address.
pub open spec fn run_checkins(
    pre: Map<Seq<u8>, RecordView>,
    caller: Seq<u8>,
    addr: Seq<u8>,
    calls: Seq<(u64, i64)>,
) -> Map<Seq<u8>, RecordView>
    decreases calls.len(),
{
    if calls.len() == 0 {
        pre
    } else {
        run_checkins(
            checkin_outcome(pre, caller, addr, calls.first().0, calls.first().1).0,
            caller,
            addr,
            calls.drop_first(),
        )
    }
}

/// Whether every call in the sequence succeeds.
pub open spec fn all_checkins_ok(
    pre: Map<Seq<u8>, RecordView>,
    caller: Seq<u8>,
    addr: Seq<u8>,
    calls: Seq<(u64, i64)>,
) -> bool
    decreases calls.len(),
{
    calls.len() == 0 || {
        &&& checkin_outcome(pre, caller, addr, calls.first().0, calls.first().1).1 is Ok
        &&& all_checkins_ok(
            checkin_outcome(pre, caller, addr, calls.first().0, calls.first().1).0,
            caller,
            addr,
            calls.drop_first(),
        )
    }
}

/// Law: the counter is monotonic and exact — after any sequence of
/// successful check-ins against one record, its counter has grown by exactly
/// the number of calls, its owner and nonce are untouched, and its slot and
/// timestamp are the ones supplied by the final call.
pub proof fn lemma_monotonic_counter(
    pre: Map<Seq<u8>, RecordView>,
    caller: Seq<u8>,
    addr: Seq<u8>,
    calls: Seq<(u64, i64)>,
)
    requires
        pre.contains_key(addr),
        all_checkins_ok(pre, caller, addr, calls),
    ensures
        ({
            let post = run_checkins(pre, caller, addr, calls);
            &&& post.contains_key(addr)
            &&& post[addr].count == pre[addr].count + calls.len()
            &&& post[addr].authority == pre[addr].authority
            &&& post[addr].bump == pre[addr].bump
            &&& calls.len() > 0 ==> post[addr].last_checkin_slot == calls.last().0
                && post[addr].last_checkin_ts == calls.last().1
            &&& calls.len() == 0 ==> post[addr] == pre[addr]
        }),
    decreases calls.len(),
{
    if calls.len() > 0 {
        let first = calls.first();
        let mid = checkin_outcome(pre, caller, addr, first.0, first.1).0;
        lemma_monotonic_counter(mid, caller, addr, calls.drop_first());
        if calls.len() > 1 {
            assert(calls.drop_first().last() == calls.last());
        }
    }
}

} // verus!
