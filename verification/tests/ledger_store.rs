use privatepay::address::Address;
use privatepay::error::ErrorKind;
use privatepay::ledger::LedgerStore;
use privatepay::ledger_model::{DisableOutcome, EnableOutcome, LIST_LIMIT};
use privatepay::link_id::is_valid_link_id;
use privatepay::records::{
    expires_at, LedgerError, LinkState, NewPaymentLink, PaymentLink, MILLIS_PER_HOUR,
};
use privatepay::salt::Salt;

fn address(tag: u8) -> Address {
    Address { bytes: [tag; 20] }
}

fn salt(tag: u8) -> Salt {
    Salt { bytes: [tag; 32] }
}

fn request(creator: &str, max_claims: Option<i64>, expires_in_hours: Option<i64>) -> NewPaymentLink {
    NewPaymentLink {
        creator_address: creator.to_string(),
        recipient_address: None,
        amount: None,
        description: None,
        expires_in_hours,
        max_claims,
    }
}

fn link(id: &str, creator: &str, created_at: i64) -> PaymentLink {
    PaymentLink {
        id: id.to_string(),
        creator_address: creator.to_string(),
        recipient_address: None,
        amount: None,
        description: None,
        created_at,
        expires_at: None,
        claim_count: 0,
        max_claims: 1,
        is_active: true,
    }
}

fn claim(store: &mut LedgerStore, id: &str, now: i64) -> Result<i64, LedgerError> {
    store
        .claim_payment_link(id, "0xpayer".to_string(), "5".to_string(), "0xhash".to_string(), now)
        .map(|claim| claim.id)
}

#[test]
fn new_ledger_is_empty() {
    let store = LedgerStore::new();
    assert_eq!(store.registration_count(), 0);
    assert!(store.registration(&address(1)).is_none());
    assert!(store.list_sweep_history(&address(1)).is_empty());
    assert!(store.list_user_payment_links("0xabc").is_empty());
    assert!(store.claims_for("abcd1234").is_empty());
    assert_eq!(store.get_payment_link("abcd1234").err(), Some(LedgerError::NotFound));
}

#[test]
fn enable_stores_a_fresh_registration() {
    let mut store = LedgerStore::new();
    let outcome = store.enable_auto_sweep(address(1), address(2), salt(3), 1_700_000_000_000);
    assert_eq!(outcome, EnableOutcome::Registered);
    let row = store.registration(&address(1)).unwrap();
    assert_eq!(row.address.bytes, [1; 20]);
    assert_eq!(row.owner.bytes, [2; 20]);
    assert_eq!(row.salt.bytes, [3; 32]);
    assert_eq!(row.created_at, 1_700_000_000_000);
    assert_eq!(row.last_checked, 0);
    assert_eq!(row.sweep_count, 0);
}

#[test]
fn enable_twice_keeps_one_registration() {
    let mut store = LedgerStore::new();
    assert_eq!(store.enable_auto_sweep(address(1), address(2), salt(3), 10), EnableOutcome::Registered);
    assert_eq!(
        store.enable_auto_sweep(address(1), address(9), salt(9), 20),
        EnableOutcome::AlreadyRegistered
    );
    assert_eq!(store.registration_count(), 1);
    let row = store.registration(&address(1)).unwrap();
    assert_eq!(row.owner.bytes, [2; 20]);
    assert_eq!(row.salt.bytes, [3; 32]);
    assert_eq!(row.created_at, 10);
}

#[test]
fn enable_keeps_addresses_apart() {
    let mut store = LedgerStore::new();
    store.enable_auto_sweep(address(1), address(2), salt(3), 10);
    store.enable_auto_sweep(address(4), address(2), salt(3), 11);
    assert_eq!(store.registration_count(), 2);
    assert_eq!(store.registration(&address(4)).unwrap().created_at, 11);
    assert_eq!(store.registration(&address(1)).unwrap().created_at, 10);
}

#[test]
fn disable_removes_the_registration() {
    let mut store = LedgerStore::new();
    store.enable_auto_sweep(address(1), address(2), salt(3), 10);
    store.enable_auto_sweep(address(4), address(5), salt(6), 11);
    store.enable_auto_sweep(address(7), address(8), salt(9), 12);
    assert_eq!(store.disable_auto_sweep(&address(4)), DisableOutcome::Removed);
    assert_eq!(store.registration_count(), 2);
    assert!(store.registration(&address(4)).is_none());
    assert!(store.registration(&address(1)).is_some());
    assert!(store.registration(&address(7)).is_some());
    assert_eq!(store.enable_auto_sweep(address(4), address(5), salt(6), 13), EnableOutcome::Registered);
    assert_eq!(store.registration(&address(4)).unwrap().created_at, 13);
}

#[test]
fn disable_of_an_unregistered_address_changes_nothing() {
    let mut store = LedgerStore::new();
    assert_eq!(store.disable_auto_sweep(&address(1)), DisableOutcome::NotRegistered);
    assert_eq!(store.registration_count(), 0);
    store.enable_auto_sweep(address(2), address(3), salt(4), 10);
    assert_eq!(store.disable_auto_sweep(&address(1)), DisableOutcome::NotRegistered);
    assert_eq!(store.registration_count(), 1);
    assert_eq!(store.registration(&address(2)).unwrap().created_at, 10);
}

#[test]
fn sweeps_are_numbered_in_order() {
    let mut store = LedgerStore::new();
    let first = store
        .record_sweep(address(1), "0xaa".to_string(), "100".to_string(), address(9), 50)
        .unwrap();
    let second = store
        .record_sweep(address(2), "0xbb".to_string(), "200".to_string(), address(9), 60)
        .unwrap();
    assert_eq!(first.id, 1);
    assert_eq!(second.id, 2);
    assert_eq!(first.tx_hash, "0xaa");
    assert_eq!(first.amount, "100");
    assert_eq!(first.timestamp, 50);
    assert_eq!(first.wallet_address.bytes, [1; 20]);
    assert_eq!(first.recipient.bytes, [9; 20]);
}

#[test]
fn sweep_history_is_newest_first() {
    let mut store = LedgerStore::new();
    for (time, wallet) in [(30, 1u8), (10, 1), (50, 2), (20, 1), (40, 1)] {
        store
            .record_sweep(address(wallet), format!("0x{}", time), "1".to_string(), address(9), time)
            .unwrap();
    }
    let listed = store.list_sweep_history(&address(1));
    let times: Vec<i64> = listed.iter().map(|row| row.timestamp).collect();
    assert_eq!(times, vec![40, 30, 20, 10]);
    let ids: Vec<i64> = listed.iter().map(|row| row.id).collect();
    assert_eq!(ids, vec![5, 1, 4, 2]);
    assert!(listed.iter().all(|row| row.wallet_address.bytes == [1; 20]));
    let other = store.list_sweep_history(&address(2));
    assert_eq!(other.len(), 1);
    assert_eq!(other[0].timestamp, 50);
    assert!(store.list_sweep_history(&address(3)).is_empty());
}

#[test]
fn sweeps_of_the_same_time_keep_their_order() {
    let mut store = LedgerStore::new();
    for time in [7, 9, 7, 9, 7] {
        store.record_sweep(address(1), "0x".to_string(), "1".to_string(), address(9), time).unwrap();
    }
    let listed = store.list_sweep_history(&address(1));
    let ids: Vec<i64> = listed.iter().map(|row| row.id).collect();
    assert_eq!(ids, vec![2, 4, 1, 3, 5]);
}

#[test]
fn sweep_history_is_capped_at_50() {
    let mut store = LedgerStore::new();
    for time in 0..60i64 {
        store.record_sweep(address(1), "0x".to_string(), "1".to_string(), address(9), time).unwrap();
    }
    let listed = store.list_sweep_history(&address(1));
    assert_eq!(LIST_LIMIT, 50);
    assert_eq!(listed.len(), 50);
    let times: Vec<i64> = listed.iter().map(|row| row.timestamp).collect();
    let expected: Vec<i64> = (10..60).rev().collect();
    assert_eq!(times, expected);
}

#[test]
fn sweep_history_of_exactly_50_lists_all() {
    let mut store = LedgerStore::new();
    for time in 0..50i64 {
        store.record_sweep(address(1), "0x".to_string(), "1".to_string(), address(9), -time).unwrap();
    }
    let listed = store.list_sweep_history(&address(1));
    assert_eq!(listed.len(), 50);
    assert_eq!(listed[0].timestamp, 0);
    assert_eq!(listed[49].timestamp, -49);
}

#[test]
fn created_link_is_returned_and_found() {
    let mut store = LedgerStore::new();
    let created = store
        .create_payment_link_with_id("abcd1234".to_string(), request("0xabc", Some(3), None), 1_000)
        .unwrap();
    assert_eq!(created.id, "abcd1234");
    let found = store.get_payment_link("abcd1234").unwrap();
    for link in [&created, &found] {
        assert_eq!(link.id, "abcd1234");
        assert_eq!(link.creator_address, "0xabc");
        assert_eq!(link.recipient_address, None);
        assert_eq!(link.amount, None);
        assert_eq!(link.description, None);
        assert_eq!(link.created_at, 1_000);
        assert_eq!(link.expires_at, None);
        assert_eq!(link.claim_count, 0);
        assert_eq!(link.max_claims, 3);
        assert!(link.is_active);
    }
}

#[test]
fn created_link_keeps_every_requested_field() {
    let mut store = LedgerStore::new();
    let wanted = NewPaymentLink {
        creator_address: "0xabc".to_string(),
        recipient_address: Some("0xdef".to_string()),
        amount: Some("12.5".to_string()),
        description: Some("lunch".to_string()),
        expires_in_hours: Some(2),
        max_claims: None,
    };
    store.create_payment_link_with_id("zz99zz99".to_string(), wanted, 1_000).unwrap();
    let found = store.get_payment_link("zz99zz99").unwrap();
    assert_eq!(found.recipient_address.as_deref(), Some("0xdef"));
    assert_eq!(found.amount.as_deref(), Some("12.5"));
    assert_eq!(found.description.as_deref(), Some("lunch"));
    assert_eq!(found.expires_at, Some(7_201_000));
    assert_eq!(found.max_claims, 1);
    assert_eq!(found.claim_count, 0);
    assert!(found.is_active);
}

#[test]
fn link_with_a_drawn_id() {
    let mut store = LedgerStore::new();
    let created = store.create_payment_link(request("0xabc", Some(3), None), 5).unwrap();
    assert!(is_valid_link_id(&created.id));
    let found = store.get_payment_link(&created.id).unwrap();
    assert_eq!(found.creator_address, "0xabc");
    assert_eq!(found.max_claims, 3);
    assert_eq!(found.claim_count, 0);
    assert!(found.is_active);
    assert_eq!(found.created_at, 5);
    assert_eq!(store.list_user_payment_links("0xabc").len(), 1);
}

#[test]
fn expiry_is_hours_after_creation() {
    assert_eq!(MILLIS_PER_HOUR, 3_600_000);
    assert_eq!(expires_at(1_000, Some(2)), Ok(Some(7_201_000)));
    assert_eq!(expires_at(1_000, Some(0)), Ok(Some(1_000)));
    assert_eq!(expires_at(1_000, Some(-1)), Ok(Some(-3_599_000)));
    assert_eq!(expires_at(1_000, None), Ok(None));
    assert_eq!(expires_at(i64::MAX, Some(1)), Err(LedgerError::ExpiryOutOfRange));
    assert_eq!(expires_at(0, Some(i64::MAX)), Err(LedgerError::ExpiryOutOfRange));
    assert_eq!(expires_at(i64::MIN, Some(-1)), Err(LedgerError::ExpiryOutOfRange));
    assert_eq!(expires_at(i64::MAX, Some(0)), Ok(Some(i64::MAX)));
    assert_eq!(expires_at(-3_600_000, Some(2_562_047_788_015)), Ok(Some(9_223_372_036_850_400_000)));
    assert_eq!(expires_at(0, Some(2_562_047_788_016)), Err(LedgerError::ExpiryOutOfRange));
}

#[test]
fn create_refuses_an_expiry_out_of_range() {
    let mut store = LedgerStore::new();
    let r = store.create_payment_link_with_id(
        "abcd1234".to_string(),
        request("0xabc", None, Some(i64::MAX)),
        1,
    );
    assert_eq!(r.err(), Some(LedgerError::ExpiryOutOfRange));
    assert_eq!(store.get_payment_link("abcd1234").err(), Some(LedgerError::NotFound));
    let r = store.create_payment_link(request("0xabc", None, Some(i64::MAX)), 1);
    assert_eq!(r.err(), Some(LedgerError::ExpiryOutOfRange));
    assert!(store.list_user_payment_links("0xabc").is_empty());
}

#[test]
fn create_refuses_a_malformed_id() {
    let mut store = LedgerStore::new();
    for id in ["", "abc", "abcd12345", "ABCD1234", "abcd 234", "abcd123é"] {
        let r = store.create_payment_link_with_id(id.to_string(), request("0xabc", None, None), 1);
        assert_eq!(r.err(), Some(LedgerError::MalformedId));
        assert_eq!(store.insert_payment_link(link(id, "0xabc", 1)).err(), Some(LedgerError::MalformedId));
    }
    assert!(store.list_user_payment_links("0xabc").is_empty());
}

#[test]
fn create_never_overwrites_a_link() {
    let mut store = LedgerStore::new();
    store.create_payment_link_with_id("abcd1234".to_string(), request("0xabc", Some(3), None), 1).unwrap();
    let r = store.create_payment_link_with_id("abcd1234".to_string(), request("0xother", Some(9), None), 2);
    assert_eq!(r.err(), Some(LedgerError::DuplicateId));
    assert_eq!(store.insert_payment_link(link("abcd1234", "0xother", 2)).err(), Some(LedgerError::DuplicateId));
    let found = store.get_payment_link("abcd1234").unwrap();
    assert_eq!(found.creator_address, "0xabc");
    assert_eq!(found.max_claims, 3);
    assert_eq!(found.created_at, 1);
    assert!(store.list_user_payment_links("0xother").is_empty());
}

#[test]
fn insert_refuses_a_link_that_counts_claims() {
    let mut store = LedgerStore::new();
    let mut claimed = link("abcd1234", "0xabc", 1);
    claimed.claim_count = 1;
    assert_eq!(store.insert_payment_link(claimed).err(), Some(LedgerError::ClaimedLink));
    assert_eq!(store.get_payment_link("abcd1234").err(), Some(LedgerError::NotFound));
}

#[test]
fn get_of_an_unknown_link_is_not_found() {
    let mut store = LedgerStore::new();
    store.create_payment_link_with_id("abcd1234".to_string(), request("0xabc", None, None), 1).unwrap();
    assert_eq!(store.get_payment_link("abcd1235").err(), Some(LedgerError::NotFound));
    assert_eq!(store.get_payment_link("").err(), Some(LedgerError::NotFound));
}

#[test]
fn three_claims_exhaust_a_link_of_three() {
    let mut store = LedgerStore::new();
    store.create_payment_link_with_id("abcd1234".to_string(), request("0xabc", Some(3), None), 1).unwrap();
    assert_eq!(claim(&mut store, "abcd1234", 2), Ok(1));
    assert_eq!(store.get_payment_link("abcd1234").unwrap().claim_count, 1);
    assert_eq!(claim(&mut store, "abcd1234", 3), Ok(2));
    assert_eq!(claim(&mut store, "abcd1234", 4), Ok(3));
    assert_eq!(store.get_payment_link("abcd1234").unwrap().claim_count, 3);
    assert_eq!(store.claims_for("abcd1234").len(), 3);
    assert_eq!(claim(&mut store, "abcd1234", 5), Err(LedgerError::Exhausted));
    assert_eq!(store.get_payment_link("abcd1234").unwrap().claim_count, 3);
    assert_eq!(store.claims_for("abcd1234").len(), 3);
}

#[test]
fn claim_records_what_was_claimed() {
    let mut store = LedgerStore::new();
    store.create_payment_link_with_id("abcd1234".to_string(), request("0xabc", Some(2), None), 1).unwrap();
    store.create_payment_link_with_id("wxyz9876".to_string(), request("0xabc", Some(2), None), 1).unwrap();
    claim(&mut store, "wxyz9876", 5).unwrap();
    let made = store
        .claim_payment_link("abcd1234", "0xp".to_string(), "7".to_string(), "0xt".to_string(), 9)
        .unwrap();
    assert_eq!(made.id, 2);
    assert_eq!(made.link_id, "abcd1234");
    assert_eq!(made.payer_address, "0xp");
    assert_eq!(made.amount, "7");
    assert_eq!(made.tx_hash, "0xt");
    assert_eq!(made.claimed_at, 9);
    let rows = store.claims_for("abcd1234");
    assert_eq!(rows.len(), 1);
    assert_eq!(rows[0].id, 2);
    assert_eq!(rows[0].payer_address, "0xp");
    assert_eq!(store.get_payment_link("wxyz9876").unwrap().claim_count, 1);
    assert_eq!(store.get_payment_link("abcd1234").unwrap().claim_count, 1);
}

#[test]
fn default_limit_is_one_claim() {
    let mut store = LedgerStore::new();
    store.create_payment_link_with_id("abcd1234".to_string(), request("0xabc", None, None), 1).unwrap();
    assert_eq!(claim(&mut store, "abcd1234", 2), Ok(1));
    assert_eq!(claim(&mut store, "abcd1234", 3), Err(LedgerError::Exhausted));
    assert_eq!(store.claims_for("abcd1234").len(), 1);
}

#[test]
fn a_limit_of_zero_or_less_never_exhausts() {
    let mut store = LedgerStore::new();
    store.create_payment_link_with_id("abcd1234".to_string(), request("0xabc", Some(0), None), 1).unwrap();
    store.create_payment_link_with_id("wxyz9876".to_string(), request("0xabc", Some(-5), None), 1).unwrap();
    for now in 2..7 {
        assert!(claim(&mut store, "abcd1234", now).is_ok());
        assert!(claim(&mut store, "wxyz9876", now).is_ok());
    }
    assert_eq!(store.get_payment_link("abcd1234").unwrap().claim_count, 5);
    assert_eq!(store.get_payment_link("wxyz9876").unwrap().claim_count, 5);
}

#[test]
fn claim_of_an_unknown_link_is_not_found() {
    let mut store = LedgerStore::new();
    assert_eq!(claim(&mut store, "abcd1234", 2), Err(LedgerError::NotFound));
    assert!(store.claims_for("abcd1234").is_empty());
}

#[test]
fn a_link_of_zero_hours_is_expired_at_once() {
    let mut store = LedgerStore::new();
    store.create_payment_link_with_id("abcd1234".to_string(), request("0xabc", Some(3), Some(0)), 100).unwrap();
    assert_eq!(store.get_payment_link("abcd1234").unwrap().expires_at, Some(100));
    assert_eq!(claim(&mut store, "abcd1234", 100), Err(LedgerError::Expired));
    assert_eq!(claim(&mut store, "abcd1234", 101), Err(LedgerError::Expired));
    assert_eq!(store.get_payment_link("abcd1234").unwrap().claim_count, 0);
    assert!(store.claims_for("abcd1234").is_empty());
}

#[test]
fn a_link_expires_when_its_time_comes() {
    let mut store = LedgerStore::new();
    store.create_payment_link_with_id("abcd1234".to_string(), request("0xabc", Some(5), Some(1)), 0).unwrap();
    assert_eq!(claim(&mut store, "abcd1234", 3_599_999), Ok(1));
    assert_eq!(claim(&mut store, "abcd1234", 3_600_000), Err(LedgerError::Expired));
    assert_eq!(claim(&mut store, "abcd1234", 3_600_001), Err(LedgerError::Expired));
    assert_eq!(store.get_payment_link("abcd1234").unwrap().claim_count, 1);
}

#[test]
fn a_link_with_a_past_expiry_refuses_claims() {
    let mut store = LedgerStore::new();
    let mut past = link("abcd1234", "0xabc", 500);
    past.expires_at = Some(400);
    past.max_claims = 3;
    store.insert_payment_link(past).unwrap();
    assert_eq!(claim(&mut store, "abcd1234", 500), Err(LedgerError::Expired));
    assert_eq!(store.get_payment_link("abcd1234").unwrap().claim_count, 0);
}

#[test]
fn an_inactive_link_refuses_claims() {
    let mut store = LedgerStore::new();
    let mut off = link("abcd1234", "0xabc", 500);
    off.is_active = false;
    off.expires_at = Some(400);
    store.insert_payment_link(off).unwrap();
    assert_eq!(claim(&mut store, "abcd1234", 500), Err(LedgerError::Inactive));
    assert!(store.claims_for("abcd1234").is_empty());
}

#[test]
fn exhaustion_is_reported_before_expiry() {
    let mut store = LedgerStore::new();
    store.create_payment_link_with_id("abcd1234".to_string(), request("0xabc", Some(1), Some(1)), 0).unwrap();
    assert_eq!(claim(&mut store, "abcd1234", 10), Ok(1));
    assert_eq!(claim(&mut store, "abcd1234", 3_600_000), Err(LedgerError::Exhausted));
}

#[test]
fn link_state_is_derived_from_fields_and_time() {
    let mut l = link("abcd1234", "0xabc", 0);
    l.max_claims = 2;
    l.expires_at = Some(100);
    assert_eq!(l.state(99), LinkState::Active);
    assert_eq!(l.state(100), LinkState::Expired);
    l.claim_count = 2;
    assert_eq!(l.state(99), LinkState::Exhausted);
    assert_eq!(l.state(100), LinkState::Exhausted);
    l.is_active = false;
    assert_eq!(l.state(99), LinkState::Inactive);
    l.is_active = true;
    l.max_claims = 0;
    l.expires_at = None;
    assert_eq!(l.state(i64::MAX), LinkState::Active);
}

#[test]
fn user_links_are_newest_first() {
    let mut store = LedgerStore::new();
    for (id, creator, time) in [
        ("aaaaaaa1", "0xabc", 30),
        ("aaaaaaa2", "0xdef", 60),
        ("aaaaaaa3", "0xabc", 10),
        ("aaaaaaa4", "0xabc", 50),
        ("aaaaaaa5", "0xabc", 30),
    ] {
        store.create_payment_link_with_id(id.to_string(), request(creator, None, None), time).unwrap();
    }
    let listed = store.list_user_payment_links("0xabc");
    let ids: Vec<&str> = listed.iter().map(|l| l.id.as_str()).collect();
    assert_eq!(ids, vec!["aaaaaaa4", "aaaaaaa1", "aaaaaaa5", "aaaaaaa3"]);
    assert!(listed.iter().all(|l| l.creator_address == "0xabc"));
    assert_eq!(store.list_user_payment_links("0xdef").len(), 1);
    assert!(store.list_user_payment_links("0xABC").is_empty());
}

#[test]
fn user_links_are_capped_at_50() {
    let mut store = LedgerStore::new();
    for n in 0..55i64 {
        let id = format!("link{:04}", n);
        store.create_payment_link_with_id(id, request("0xabc", None, None), n * 10).unwrap();
    }
    let listed = store.list_user_payment_links("0xabc");
    assert_eq!(listed.len(), 50);
    assert_eq!(listed[0].id, "link0054");
    assert_eq!(listed[49].id, "link0005");
    for pair in listed.windows(2) {
        assert!(pair[0].created_at > pair[1].created_at);
    }
}

#[test]
fn listed_links_show_their_claims() {
    let mut store = LedgerStore::new();
    store.create_payment_link_with_id("abcd1234".to_string(), request("0xabc", Some(2), None), 1).unwrap();
    claim(&mut store, "abcd1234", 2).unwrap();
    let listed = store.list_user_payment_links("0xabc");
    assert_eq!(listed.len(), 1);
    assert_eq!(listed[0].claim_count, 1);
}

#[test]
fn refusals_map_to_kinds() {
    assert_eq!(LedgerError::NotFound.kind(), ErrorKind::NotFound);
    assert_eq!(LedgerError::Inactive.kind(), ErrorKind::Conflict);
    assert_eq!(LedgerError::Exhausted.kind(), ErrorKind::Conflict);
    assert_eq!(LedgerError::Expired.kind(), ErrorKind::Conflict);
    assert_eq!(LedgerError::DuplicateId.kind(), ErrorKind::Internal);
    assert_eq!(LedgerError::StoreFull.kind(), ErrorKind::Internal);
    assert_eq!(LedgerError::MalformedId.kind(), ErrorKind::BadRequest);
    assert_eq!(LedgerError::ClaimedLink.kind(), ErrorKind::BadRequest);
    assert_eq!(LedgerError::ExpiryOutOfRange.kind(), ErrorKind::BadRequest);
}
