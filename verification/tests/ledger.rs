use checkin::errors::ErrorCode;
use checkin::derivation::derive_address;
use checkin::identity::{Address, Identity};
use checkin::ledger::{Checkin, InitializeUser, Ledger};
use checkin::record::UserPda;

fn ident(fill: u8) -> Identity {
    Identity { bytes: [fill; 32] }
}

#[test]
fn derive_address_is_idempotent() {
    let owner = ident(1);
    let (a1, n1) = derive_address(&owner).unwrap();
    let (a2, n2) = derive_address(&owner).unwrap();
    assert_eq!(a1.bytes, a2.bytes);
    assert_eq!(n1, n2);
}

#[test]
fn derive_address_depends_on_identity() {
    let (a1, _) = derive_address(&ident(1)).unwrap();
    let (a2, _) = derive_address(&ident(2)).unwrap();
    assert_ne!(a1.bytes, a2.bytes);
    // The derivation computes a fresh address, not a copy of its input.
    assert_ne!(a1.bytes, [1u8; 32]);
}

#[test]
fn initialize_creates_zeroed_record() {
    let owner = ident(3);
    let mut ledger = Ledger::new();
    let r = ledger.initialize_user(&InitializeUser { authority: owner, payer: owner });
    assert_eq!(r, Ok(()));

    let (addr, bump) = derive_address(&owner).unwrap();
    let rec = ledger.record_at(&addr).unwrap();
    assert_eq!(rec.authority.bytes, owner.bytes);
    assert_eq!(rec.bump, bump);
    assert_eq!(rec.last_checkin_slot, 0);
    assert_eq!(rec.last_checkin_ts, 0);
    assert_eq!(rec.count, 0);
}

#[test]
fn second_initialize_collides() {
    let owner = ident(4);
    let mut ledger = Ledger::new();
    assert_eq!(ledger.initialize_user(&InitializeUser { authority: owner, payer: owner }), Ok(()));
    assert_eq!(
        ledger.initialize_user(&InitializeUser { authority: owner, payer: owner }),
        Err(ErrorCode::AddressCollision)
    );
}

#[test]
fn end_to_end_scenario() {
    let a = ident(10);
    let b = ident(11);
    let mut ledger = Ledger::new();

    assert_eq!(ledger.initialize_user(&InitializeUser { authority: a, payer: a }), Ok(()));
    let (addr, _) = derive_address(&a).unwrap();
    let rec = ledger.record_at(&addr).unwrap();
    assert_eq!(rec.count, 0);
    assert_eq!(rec.authority.bytes, a.bytes);

    let r1 = ledger.checkin(&Checkin { authority: a, user_pda: addr }, 100, 1000);
    assert_eq!(r1, Ok(()));
    let rec = ledger.record_at(&addr).unwrap();
    assert_eq!(rec.count, 1);
    assert_eq!(rec.last_checkin_slot, 100);
    assert_eq!(rec.last_checkin_ts, 1000);

    let r2 = ledger.checkin(&Checkin { authority: a, user_pda: addr }, 250, 1500);
    assert_eq!(r2, Ok(()));
    let rec = ledger.record_at(&addr).unwrap();
    assert_eq!(rec.count, 2);
    assert_eq!(rec.last_checkin_slot, 250);
    assert_eq!(rec.last_checkin_ts, 1500);

    let r3 = ledger.checkin(&Checkin { authority: b, user_pda: addr }, 300, 2000);
    assert_eq!(r3, Err(ErrorCode::InvalidAuthority));
    let rec = ledger.record_at(&addr).unwrap();
    assert_eq!(rec.count, 2);
    assert_eq!(rec.last_checkin_slot, 250);
    assert_eq!(rec.last_checkin_ts, 1500);
}

#[test]
fn checkin_unknown_address_is_invalid_derivation() {
    let a = ident(20);
    let mut ledger = Ledger::new();
    let some_addr = Address { bytes: [42u8; 32] };
    let r = ledger.checkin(&Checkin { authority: a, user_pda: some_addr }, 1, 2);
    assert_eq!(r, Err(ErrorCode::InvalidDerivation));
}

#[test]
fn checkin_at_wrong_address_is_invalid_derivation() {
    let a = ident(21);
    let (_, bump) = derive_address(&a).unwrap();
    let elsewhere = Address { bytes: [9u8; 32] };
    let mut ledger = Ledger::new();
    // A record that claims owner `a` but sits at an address `a` does not
    // derive to is rejected before the authority is even looked at.
    let stray = UserPda {
        authority: a,
        bump,
        last_checkin_slot: 0,
        last_checkin_ts: 0,
        count: 0,
    };
    assert_eq!(ledger.restore_record(elsewhere, stray), Ok(()));
    let r = ledger.checkin(&Checkin { authority: a, user_pda: elsewhere }, 1, 2);
    assert_eq!(r, Err(ErrorCode::InvalidDerivation));
}

#[test]
fn checkin_with_wrong_bump_is_invalid_derivation() {
    let a = ident(22);
    let (addr, bump) = derive_address(&a).unwrap();
    let mut ledger = Ledger::new();
    let forged = UserPda {
        authority: a,
        bump: bump.wrapping_add(1),
        last_checkin_slot: 0,
        last_checkin_ts: 0,
        count: 0,
    };
    assert_eq!(ledger.restore_record(addr, forged), Ok(()));
    let r = ledger.checkin(&Checkin { authority: a, user_pda: addr }, 1, 2);
    assert_eq!(r, Err(ErrorCode::InvalidDerivation));
}

#[test]
fn overflow_is_reported_and_record_unchanged() {
    let a = ident(23);
    let (addr, bump) = derive_address(&a).unwrap();
    let mut ledger = Ledger::new();
    let full = UserPda {
        authority: a,
        bump,
        last_checkin_slot: 7,
        last_checkin_ts: 8,
        count: u64::MAX,
    };
    assert_eq!(ledger.restore_record(addr, full), Ok(()));
    let r = ledger.checkin(&Checkin { authority: a, user_pda: addr }, 999, 888);
    assert_eq!(r, Err(ErrorCode::Overflow));
    let rec = ledger.record_at(&addr).unwrap();
    assert_eq!(rec.count, u64::MAX);
    assert_eq!(rec.last_checkin_slot, 7);
    assert_eq!(rec.last_checkin_ts, 8);
    assert_eq!(rec.authority.bytes, a.bytes);
    assert_eq!(rec.bump, bump);
}

#[test]
fn restore_collides_on_occupied_address() {
    let a = ident(24);
    let mut ledger = Ledger::new();
    let addr = Address { bytes: [5u8; 32] };
    let rec = UserPda {
        authority: a,
        bump: 0,
        last_checkin_slot: 0,
        last_checkin_ts: 0,
        count: 0,
    };
    assert_eq!(ledger.restore_record(addr, rec), Ok(()));
    let again = UserPda {
        authority: a,
        bump: 0,
        last_checkin_slot: 1,
        last_checkin_ts: 1,
        count: 1,
    };
    assert_eq!(ledger.restore_record(addr, again), Err(ErrorCode::AddressCollision));
}

#[test]
fn n_checkins_count_exactly_n() {
    let a = ident(25);
    let mut ledger = Ledger::new();
    assert_eq!(ledger.initialize_user(&InitializeUser { authority: a, payer: a }), Ok(()));
    let (addr, _) = derive_address(&a).unwrap();
    let mut slot: u64 = 0;
    while slot < 20 {
        slot += 1;
        let r = ledger.checkin(&Checkin { authority: a, user_pda: addr }, slot, slot as i64 * 10);
        assert_eq!(r, Ok(()));
    }
    let rec = ledger.record_at(&addr).unwrap();
    assert_eq!(rec.count, 20);
    assert_eq!(rec.last_checkin_slot, 20);
    assert_eq!(rec.last_checkin_ts, 200);
}

#[test]
fn records_of_two_identities_are_independent() {
    let a = ident(30);
    let b = ident(31);
    let mut ledger = Ledger::new();
    assert_eq!(ledger.initialize_user(&InitializeUser { authority: a, payer: a }), Ok(()));
    assert_eq!(ledger.initialize_user(&InitializeUser { authority: b, payer: b }), Ok(()));
    let (addr_a, _) = derive_address(&a).unwrap();
    let (addr_b, _) = derive_address(&b).unwrap();
    assert_eq!(ledger.checkin(&Checkin { authority: a, user_pda: addr_a }, 50, 60), Ok(()));
    assert_eq!(ledger.record_at(&addr_a).unwrap().count, 1);
    assert_eq!(ledger.record_at(&addr_b).unwrap().count, 0);
}
