use vstd::prelude::*;

use crate::derivation::{derive_address, derived};
use crate::errors::ErrorCode;
use crate::identity::{bytes32_eq, Address, Identity};
use crate::record::{checkin_record, record_checkin_outcome, RecordView, UserPda};

verus! {

/// One stored record together with the address it sits at.
#[derive(Clone, Copy)]
struct Entry {
    address: Address,
    pda: UserPda,
}

/// No two entries share an address.
spec fn unique_addrs(s: Seq<Entry>) -> bool {
    forall|i: int, j: int| 0 <= i < j < s.len() ==> s[i].address@ != s[j].address@
}

/// The store a sequence of entries denotes: a map from address to record.
spec fn entries_map(s: Seq<Entry>) -> Map<Seq<u8>, RecordView>
    decreases s.len(),
{
    if s.len() == 0 {
        Map::empty()
    } else {
        entries_map(s.drop_last()).insert(s.last().address@, s.last().pda@)
    }
}

proof fn lemma_entries_map_contains(s: Seq<Entry>, a: Seq<u8>)
    ensures
        entries_map(s).contains_key(a) <==> exists|i: int|
            0 <= i < s.len() && (#[trigger] s[i]).address@ == a,
    decreases s.len(),
{
    if s.len() > 0 {
        lemma_entries_map_contains(s.drop_last(), a);
        if s.last().address@ == a {
            assert(s[s.len() - 1].address@ == a);
        } else if entries_map(s).contains_key(a) {
            let i = choose|i: int| 0 <= i < s.drop_last().len() && (#[trigger] s.drop_last()[i]).address@
                == a;
            assert(s[i].address@ == a);
        } else if exists|i: int| 0 <= i < s.len() && (#[trigger] s[i]).address@ == a {
            let i = choose|i: int| 0 <= i < s.len() && (#[trigger] s[i]).address@ == a;
            assert(s.drop_last()[i].address@ == a);
        }
    }
}

proof fn lemma_entries_map_index(s: Seq<Entry>, i: int)
    requires
        unique_addrs(s),
        0 <= i < s.len(),
    ensures
        entries_map(s).contains_key(s[i].address@),
        entries_map(s)[s[i].address@] == s[i].pda@,
    decreases s.len(),
{
    if i < s.len() - 1 {
        assert(unique_addrs(s.drop_last())) by {
            assert(forall|x: int, y: int|
                0 <= x < y < s.drop_last().len() ==> s.drop_last()[x] == s[x] && s.drop_last()[y]
                    == s[y]);
        }
        lemma_entries_map_index(s.drop_last(), i);
        assert(s.drop_last()[i] == s[i]);
        assert(s[i].address@ != s.last().address@);
    }
}

proof fn lemma_entries_map_update(s: Seq<Entry>, i: int, e: Entry)
    requires
        unique_addrs(s),
        0 <= i < s.len(),
        e.address@ == s[i].address@,
    ensures
        entries_map(s.update(i, e)) == entries_map(s).insert(e.address@, e.pda@),
    decreases s.len(),
{
    let t = s.update(i, e);
    if i == s.len() - 1 {
        assert(t.drop_last() =~= s.drop_last());
        assert(t.last() == e);
        assert(entries_map(s).insert(e.address@, e.pda@) =~= entries_map(s.drop_last()).insert(
            e.address@,
            e.pda@,
        ));
    } else {
        assert(unique_addrs(s.drop_last())) by {
            assert(forall|x: int, y: int|
                0 <= x < y < s.drop_last().len() ==> s.drop_last()[x] == s[x] && s.drop_last()[y]
                    == s[y]);
        }
        lemma_entries_map_update(s.drop_last(), i, e);
        assert(t.drop_last() =~= s.drop_last().update(i, e));
        assert(t.last() == s.last());
        assert(s[i].address@ != s.last().address@);
        assert(entries_map(s.drop_last()).insert(e.address@, e.pda@).insert(
            s.last().address@,
            s.last().pda@,
        ) =~= entries_map(s.drop_last()).insert(s.last().address@, s.last().pda@).insert(
            e.address@,
            e.pda@,
        ));
    }
}

/// What `initialize_user` does to the store: derive the owner's address;
/// refuse a collision; otherwise create the record bound to the owner and
/// the derivation nonce, with everything else zeroed.
pub open spec fn initialize_outcome(pre: Map<Seq<u8>, RecordView>, owner: Seq<u8>) -> (
    Map<Seq<u8>, RecordView>,
    Result<(), ErrorCode>,
) {
    match derived(owner) {
        Some((addr, bump)) => {
            if pre.contains_key(addr) {
                (pre, Err(ErrorCode::AddressCollision))
            } else {
                (
                    pre.insert(
                        addr,
                        RecordView {
                            authority: owner,
                            bump,
                            last_checkin_slot: 0,
                            last_checkin_ts: 0,
                            count: 0,
                        },
                    ),
                    Ok(()),
                )
            }
        },
        None => (pre, Err(ErrorCode::InvalidDerivation)),
    }
}

/// What `checkin` does to the store: the record must exist at the supplied
/// address, the address must reproduce from the record's own owner and
/// nonce, the caller must be the owner, and the counter must have headroom;
/// then, and only then, the record is replaced in one piece.
pub open spec fn checkin_outcome(
    pre: Map<Seq<u8>, RecordView>,
    caller: Seq<u8>,
    addr: Seq<u8>,
    slot: u64,
    ts: i64,
) -> (Map<Seq<u8>, RecordView>, Result<(), ErrorCode>) {
    if !pre.contains_key(addr) {
        (pre, Err(ErrorCode::InvalidDerivation))
    } else if derived(pre[addr].authority) != Some((addr, pre[addr].bump)) {
        (pre, Err(ErrorCode::InvalidDerivation))
    } else {
        match record_checkin_outcome(pre[addr], caller, slot, ts) {
            Ok(updated) => (pre.insert(addr, updated), Ok(())),
            Err(e) => (pre, Err(e)),
        }
    }
}

/// A request to create the caller's record.
pub struct InitializeUser {
    /// The identity to bind the new record to.
    pub authority: Identity,
    /// The identity funding the record's storage; it may equal `authority`.
    /// Whether it can cover the cost is the host's concern — resourcing
    /// failures (`AllocationFailure`) are raised by the host, not here.
    pub payer: Identity,
}

/// A request to check in against an existing record.
pub struct Checkin {
    /// The authenticated caller.
    pub authority: Identity,
    /// The address of the record being updated.
    pub user_pda: Address,
}

/// The record store: every record the host persists for this program, keyed
/// by derived address.
pub struct Ledger {
    entries: Vec<Entry>,
}

impl View for Ledger {
    type V = Map<Seq<u8>, RecordView>;

    closed spec fn view(&self) -> Map<Seq<u8>, RecordView> {
        entries_map(self.entries@)
    }
}

impl Ledger {
    /// Well-formed: no two stored records share an address.
    pub closed spec fn wf(&self) -> bool {
        unique_addrs(self.entries@)
    }

    /// An empty store.
    pub fn new() -> (r: Ledger)
        ensures
            r.wf(),
            r@ == Map::<Seq<u8>, RecordView>::empty(),
    {
        let l = Ledger { entries: Vec::new() };
        proof {
            assert(l@ =~= Map::<Seq<u8>, RecordView>::empty());
        }
        l
    }

    fn find_entry(&self, address: &Address) -> (r: Option<usize>)
        requires
            self.wf(),
        ensures
            (match r {
                Some(i) => {
                    &&& i < self.entries@.len()
                    &&& self.entries@[i as int].address@ == address@
                    &&& self@.contains_key(address@)
                    &&& self@[address@] == self.entries@[i as int].pda@
                },
                None => !self@.contains_key(address@),
            }),
    {
        let n = self.entries.len();
        let mut i: usize = 0;
        while i < n
            invariant
                n == self.entries@.len(),
                i <= n,
                self.wf(),
                forall|j: int| 0 <= j < i ==> (#[trigger] self.entries@[j]).address@ != address@,
            decreases n - i,
        {
            if bytes32_eq(&self.entries[i].address.bytes, &address.bytes) {
                proof {
                    lemma_entries_map_index(self.entries@, i as int);
                }
                return Some(i);
            }
            i += 1;
        }
        proof {
            lemma_entries_map_contains(self.entries@, address@);
        }
        None
    }

    /// Looks a record up by its address.
    pub fn record_at(&self, address: &Address) -> (r: Option<UserPda>)
        requires
            self.wf(),
        ensures
            (match r {
                Some(rec) => self@.contains_key(address@) && rec@ == self@[address@],
                None => !self@.contains_key(address@),
            }),
    {
        match self.find_entry(address) {
            Some(i) => Some(self.entries[i].pda),
            None => None,
        }
    }

    /// Creates the record for `req.authority` at its derived address, bound
    /// to that identity, with zeroed check-in data. Fails with
    /// `AddressCollision` if that identity's record already exists, and with
    /// `InvalidDerivation` in the vanishingly rare case that no nonce in
    /// range derives an address for it.
    pub fn initialize_user(&mut self, req: &InitializeUser) -> (r: Result<(), ErrorCode>)
        requires
            old(self).wf(),
        ensures
            final(self).wf(),
            final(self)@ == initialize_outcome(old(self)@, req.authority@).0,
            r == initialize_outcome(old(self)@, req.authority@).1,
    {
        match derive_address(&req.authority) {
            None => Err(ErrorCode::InvalidDerivation),
            Some((addr, bump)) => {
                match self.find_entry(&addr) {
                    Some(_) => Err(ErrorCode::AddressCollision),
                    None => {
                        let ghost pre = self.entries@;
                        let pda = UserPda::new(req.authority, bump);
                        self.entries.push(Entry { address: addr, pda });
                        proof {
                            lemma_entries_map_contains(pre, addr@);
                            assert(self.entries@.drop_last() =~= pre);
                            assert(forall|x: int, y: int|
                                0 <= x < y < self.entries@.len() ==> (
                                #[trigger] self.entries@[x]).address@ != (
                                #[trigger] self.entries@[y]).address@) by {
                                assert(forall|x: int|
                                    0 <= x < pre.len() ==> (#[trigger] self.entries@[x]) == pre[x]);
                            }
                        }
                        Ok(())
                    },
                }
            },
        }
    }

    /// Checks the caller in: validates that the supplied address reproduces
    /// from the stored record's owner and nonce, that the caller is the
    /// bound owner, and that the counter has headroom; then replaces the
    /// record's slot, timestamp and counter in one piece.
    pub fn checkin(&mut self, req: &Checkin, slot: u64, ts: i64) -> (r: Result<(), ErrorCode>)
        requires
            old(self).wf(),
        ensures
            final(self).wf(),
            final(self)@ == checkin_outcome(old(self)@, req.authority@, req.user_pda@, slot, ts).0,
            r == checkin_outcome(old(self)@, req.authority@, req.user_pda@, slot, ts).1,
    {
        let idx = match self.find_entry(&req.user_pda) {
            None => {
                return Err(ErrorCode::InvalidDerivation);
            },
            Some(i) => i,
        };
        let entry: Entry = self.entries[idx];
        let derivation_ok: bool = match derive_address(&entry.pda.authority) {
            None => false,
            Some((daddr, dbump)) => bytes32_eq(&daddr.bytes, &req.user_pda.bytes) && dbump
                == entry.pda.bump,
        };
        if !derivation_ok {
            return Err(ErrorCode::InvalidDerivation);
        }
        match checkin_record(&entry.pda, &req.authority, slot, ts) {
            Err(e) => Err(e),
            Ok(updated) => {
                let ghost pre = self.entries@;
                self.entries[idx] = Entry { address: entry.address, pda: updated };
                proof {
                    assert(self.entries@ =~= pre.update(
                        idx as int,
                        Entry { address: entry.address, pda: updated },
                    ));
                    lemma_entries_map_update(
                        pre,
                        idx as int,
                        Entry { address: entry.address, pda: updated },
                    );
                    assert(forall|x: int, y: int|
                        0 <= x < y < self.entries@.len() ==> (#[trigger] self.entries@[x]).address@
                            != (#[trigger] self.entries@[y]).address@) by {
                        assert(forall|x: int|
                            0 <= x < pre.len() ==> (#[trigger] self.entries@[x]).address@
                                == pre[x].address@);
                    }
                }
                Ok(())
            },
        }
    }

    /// Installs a persisted record image at an address, as the host does
    /// when it attaches storage it already holds. The pair is taken as
    /// given: `checkin` re-validates the derivation on every access.
    pub fn restore_record(&mut self, address: Address, record: UserPda) -> (r: Result<
        (),
        ErrorCode,
    >)
        requires
            old(self).wf(),
        ensures
            final(self).wf(),
            old(self)@.contains_key(address@) ==> r == Err::<(), ErrorCode>(
                ErrorCode::AddressCollision,
            ) && final(self)@ == old(self)@,
            !old(self)@.contains_key(address@) ==> r == Ok::<(), ErrorCode>(()) && final(self)@
                == old(self)@.insert(address@, record@),
    {
        match self.find_entry(&address) {
            Some(_) => Err(ErrorCode::AddressCollision),
            None => {
                let ghost pre = self.entries@;
                self.entries.push(Entry { address, pda: record });
                proof {
                    lemma_entries_map_contains(pre, address@);
                    assert(self.entries@.drop_last() =~= pre);
                    assert(forall|x: int, y: int|
                        0 <= x < y < self.entries@.len() ==> (#[trigger] self.entries@[x]).address@
                            != (#[trigger] self.entries@[y]).address@) by {
                        assert(forall|x: int|
                            0 <= x < pre.len() ==> (#[trigger] self.entries@[x]) == pre[x]);
                    }
                }
                Ok(())
            },
        }
    }
}

} // verus!
