//! What holds of the ledger whatever is done with it.
//!
//! The first half shows that every operation keeps the ledger's invariant.
//! The second half states the laws that relate operations to each other.

use vstd::prelude::*;
use crate::ledger_model::{
    claimed_against, created_by, link_after_claim, link_times, registered_at,
    registered_elsewhere, rows_at, sweep_times, swept_from, DisableOutcome, EnableOutcome,
    LedgerView, LIST_LIMIT,
};
use crate::link_id::is_link_id;
use crate::ranking::{is_newest_first, lemma_newest_page, listed_before, newest_page};
use crate::records::{
    is_exhausted, is_expired, new_link, LedgerError, NewPaymentLinkView, PaymentLinkView,
};

verus! {

/// Selecting from a sequence whose every element is selected changes nothing.
pub proof fn lemma_filter_keeps_all<A>(s: Seq<A>, pred: spec_fn(A) -> bool)
    requires
        forall|i: int| 0 <= i < s.len() ==> pred(#[trigger] s[i]),
    ensures
        s.filter(pred) == s,
    decreases s.len(),
{
    reveal(Seq::filter);
    if s.len() > 0 {
        let front = s.drop_last();
        lemma_filter_keeps_all(front, pred);
    }
}

/// Selecting from a sequence in which exactly the element at `at` is not
/// selected removes that element.
pub proof fn lemma_filter_drops_one<A>(s: Seq<A>, pred: spec_fn(A) -> bool, at: int)
    requires
        0 <= at < s.len(),
        !pred(s[at]),
        forall|i: int| 0 <= i < s.len() && i != at ==> pred(#[trigger] s[i]),
    ensures
        s.filter(pred) == s.remove(at),
    decreases s.len(),
{
    reveal(Seq::filter);
    let front = s.drop_last();
    if at == s.len() - 1 {
        lemma_filter_keeps_all(front, pred);
    } else {
        lemma_filter_drops_one(front, pred, at);
    }
}

/// Enabling sweeping keeps the ledger's invariant.
pub proof fn law_enable_keeps_invariant(
    s: LedgerView,
    address: Seq<u8>,
    owner: Seq<u8>,
    salt: Seq<u8>,
    now: i64,
)
    requires
        s.wf(),
    ensures
        s.enable(address, owner, salt, now).wf(),
{
}

/// Disabling sweeping keeps the ledger's invariant.
pub proof fn law_disable_keeps_invariant(s: LedgerView, address: Seq<u8>)
    requires
        s.wf(),
    ensures
        s.disable(address).wf(),
        !s.is_registered(address) ==> s.disable(address) == s,
        !s.disable(address).is_registered(address),
{
    let pred = registered_elsewhere(address);
    if s.is_registered(address) {
        let at = choose|i: int|
            0 <= i < s.registrations.len() && (#[trigger] s.registrations[i]).address == address;
        lemma_filter_drops_one(s.registrations, pred, at);
    } else {
        assert forall|i: int| 0 <= i < s.registrations.len() implies pred(
            #[trigger] s.registrations[i],
        ) by {}
        lemma_filter_keeps_all(s.registrations, pred);
    }
}

/// Recording a sweep keeps the ledger's invariant.
pub proof fn law_record_sweep_keeps_invariant(
    s: LedgerView,
    wallet_address: Seq<u8>,
    tx_hash: Seq<char>,
    amount: Seq<char>,
    recipient: Seq<u8>,
    now: i64,
)
    requires
        s.wf(),
    ensures
        s.record_sweep(wallet_address, tx_hash, amount, recipient, now).wf(),
{
}

/// Appending a link that has a well-formed id, no claims, and an id that no
/// stored link has keeps the ledger's invariant.
pub proof fn lemma_append_link_keeps_invariant(s: LedgerView, link: PaymentLinkView)
    requires
        s.wf(),
        is_link_id(link.id),
        link.claim_count == 0,
        !s.has_link(link.id),
    ensures
        (LedgerView { links: s.links.push(link), ..s }).wf(),
{
    let t = LedgerView { links: s.links.push(link), ..s };
    assert(t.claims_of(link.id).len() == 0) by {
        let pred = claimed_against(link.id);
        s.claims.lemma_all_neg_filter_empty(pred);
    }
    assert forall|i: int| 0 <= i < t.claims.len() implies {
        let claim = #[trigger] t.claims[i];
        &&& claim.id == i + 1
        &&& t.has_link(claim.link_id)
    } by {
        let claim = s.claims[i];
        let at = choose|k: int| 0 <= k < s.links.len() && (#[trigger] s.links[k]).id == claim.link_id;
        assert(t.links[at] == s.links[at]);
    }
}

/// Storing a link keeps the ledger's invariant.
pub proof fn law_insert_link_keeps_invariant(s: LedgerView, link: PaymentLinkView)
    requires
        s.wf(),
    ensures
        s.insert_link(link).wf(),
{
    if s.insert_refusal(link) is None {
        lemma_append_link_keeps_invariant(s, link);
    }
}

/// Creating a link keeps the ledger's invariant.
pub proof fn law_create_link_keeps_invariant(
    s: LedgerView,
    id: Seq<char>,
    request: NewPaymentLinkView,
    now: i64,
)
    requires
        s.wf(),
    ensures
        s.create_link(id, request, now).wf(),
{
    if s.create_refusal(id, request, now) is None {
        lemma_append_link_keeps_invariant(s, new_link(id, request, now));
    }
}

/// Where a link is stored is fixed by its id.
pub proof fn lemma_link_position(s: LedgerView, at: int)
    requires
        s.links_distinct(),
        0 <= at < s.links.len(),
    ensures
        s.has_link(s.links[at].id),
        s.link_position(s.links[at].id) == at,
        s.link(s.links[at].id) == s.links[at],
{
}

/// Claiming against a link keeps the ledger's invariant.
pub proof fn law_claim_keeps_invariant(
    s: LedgerView,
    id: Seq<char>,
    payer_address: Seq<char>,
    amount: Seq<char>,
    tx_hash: Seq<char>,
    now: i64,
)
    requires
        s.wf(),
    ensures
        s.claim(id, payer_address, amount, tx_hash, now).wf(),
{
    let t = s.claim(id, payer_address, amount, tx_hash, now);
    if s.claim_refusal(id, now) is None {
        let at = s.link_position(id);
        let claim = s.new_claim(id, payer_address, amount, tx_hash, now);
        assert forall|i: int| 0 <= i < t.links.len() implies (#[trigger] t.links[i]).id
            == s.links[i].id by {}
        assert forall|i: int| 0 <= i < t.links.len() implies {
            let l = #[trigger] t.links[i];
            &&& is_link_id(l.id)
            &&& l.claim_count == t.claims_of(l.id).len()
            &&& l.max_claims > 0 ==> l.claim_count <= l.max_claims
        } by {
            let old_link = s.links[i];
            let pred = claimed_against(old_link.id);
            s.claims.lemma_filter_push(claim, pred);
        }
        assert forall|i: int| 0 <= i < t.claims.len() implies {
            let c = #[trigger] t.claims[i];
            &&& c.id == i + 1
            &&& t.has_link(c.link_id)
        } by {
            let c = t.claims[i];
            if i < s.claims.len() {
                let k = choose|k: int|
                    0 <= k < s.links.len() && (#[trigger] s.links[k]).id == c.link_id;
                assert(t.links[k].id == c.link_id);
            } else {
                assert(t.links[at].id == id);
            }
        }
    }
}

/// Selecting from a sequence in which exactly the element at `at` is selected
/// gives that element alone.
pub proof fn lemma_filter_keeps_one<A>(s: Seq<A>, pred: spec_fn(A) -> bool, at: int)
    requires
        0 <= at < s.len(),
        pred(s[at]),
        forall|i: int| 0 <= i < s.len() && i != at ==> !pred(#[trigger] s[i]),
    ensures
        s.filter(pred) == seq![s[at]],
    decreases s.len(),
{
    reveal(Seq::filter);
    let front = s.drop_last();
    if at == s.len() - 1 {
        front.lemma_all_neg_filter_empty(pred);
    } else {
        lemma_filter_keeps_one(front, pred, at);
    }
}

/// Enabling sweeping is idempotent: after it, the address has exactly one
/// registration, and enabling it again, with whatever owner and salt, reports
/// that it is registered already and changes nothing.
pub proof fn law_enable_is_idempotent(
    s: LedgerView,
    address: Seq<u8>,
    owner: Seq<u8>,
    salt: Seq<u8>,
    now: i64,
    other_owner: Seq<u8>,
    other_salt: Seq<u8>,
    later: i64,
)
    requires
        s.wf(),
    ensures
        ({
            let once = s.enable(address, owner, salt, now);
            let twice = once.enable(address, other_owner, other_salt, later);
            &&& once.wf()
            &&& once.is_registered(address)
            &&& once.registrations_of(address).len() == 1
            &&& once.enable_outcome(address) == EnableOutcome::AlreadyRegistered
            &&& twice == once
        }),
{
    let once = s.enable(address, owner, salt, now);
    if !s.is_registered(address) {
        let at = s.registrations.len() as int;
        assert(once.registrations[at].address == address);
    }
    let at = choose|i: int|
        0 <= i < once.registrations.len() && (#[trigger] once.registrations[i]).address == address;
    let pred = registered_at(address);
    lemma_filter_keeps_one(once.registrations, pred, at);
}

/// Disabling sweeping for an address that is not registered reports so and
/// changes nothing.
pub proof fn law_disable_unregistered_changes_nothing(s: LedgerView, address: Seq<u8>)
    requires
        !s.is_registered(address),
    ensures
        s.disable(address) == s,
        s.disable_outcome(address) == DisableOutcome::NotRegistered,
{
    let pred = registered_elsewhere(address);
    assert forall|i: int| 0 <= i < s.registrations.len() implies pred(
        #[trigger] s.registrations[i],
    ) by {}
    lemma_filter_keeps_all(s.registrations, pred);
}

/// After sweeping is disabled for an address, the address is not registered,
/// and every other address is registered exactly if it was before.
pub proof fn law_disable_removes_only_that_address(
    s: LedgerView,
    address: Seq<u8>,
    other: Seq<u8>,
)
    requires
        other != address,
    ensures
        !s.disable(address).is_registered(address),
        s.disable(address).is_registered(other) <==> s.is_registered(other),
{
    let t = s.disable(address);
    let pred = registered_elsewhere(address);
    if s.is_registered(other) {
        let at = choose|i: int|
            0 <= i < s.registrations.len() && (#[trigger] s.registrations[i]).address == other;
        s.registrations.lemma_filter_contains(pred, at);
        let k = choose|k: int|
            0 <= k < t.registrations.len() && t.registrations[k] == s.registrations[at];
        assert(t.registrations[k].address == other);
    }
    if t.is_registered(other) {
        let k = choose|k: int|
            0 <= k < t.registrations.len() && (#[trigger] t.registrations[k]).address == other;
        s.registrations.lemma_filter_contains_rev(pred, t.registrations[k]);
    }
}

/// A link that was created is found under its id as it was created: without
/// claims, active, with the claim limit asked for or 1, and with every other
/// field as in the request.
pub proof fn law_created_link_is_found(
    s: LedgerView,
    id: Seq<char>,
    request: NewPaymentLinkView,
    now: i64,
)
    requires
        s.wf(),
        s.create_refusal(id, request, now) is None,
    ensures
        s.create_link(id, request, now).find_link(id) == Ok::<PaymentLinkView, LedgerError>(
            new_link(id, request, now),
        ),
        ({
            let link = new_link(id, request, now);
            &&& link.id == id
            &&& link.claim_count == 0
            &&& link.is_active
            &&& link.created_at == now
            &&& link.creator_address == request.creator_address
            &&& link.recipient_address == request.recipient_address
            &&& link.amount == request.amount
            &&& link.description == request.description
            &&& link.max_claims == match request.max_claims {
                Some(limit) => limit,
                None => 1,
            }
            &&& match request.expires_in_hours {
                Some(hours) => link.expires_at matches Some(at) && at == now + hours * 3_600_000,
                None => link.expires_at is None,
            }
        }),
{
    let t = s.create_link(id, request, now);
    lemma_link_position(t, s.links.len() as int);
}

/// Looking up a link that was never stored finds nothing.
pub proof fn law_unknown_link_is_not_found(s: LedgerView, id: Seq<char>)
    requires
        !s.has_link(id),
    ensures
        s.find_link(id) == Err::<PaymentLinkView, LedgerError>(LedgerError::NotFound),
        s.claim_refusal(id, 0) == Some(LedgerError::NotFound),
{
}

/// A link counts exactly the claims recorded against it and never more than
/// its limit allows. A claim that is accepted adds one claim row for the link
/// and one to its count; a claim that is refused changes nothing; and a claim
/// against an active link that has reached its limit is refused as exhausted.
pub proof fn law_claim_accounting(
    s: LedgerView,
    id: Seq<char>,
    payer_address: Seq<char>,
    amount: Seq<char>,
    tx_hash: Seq<char>,
    now: i64,
)
    requires
        s.wf(),
        s.has_link(id),
    ensures
        ({
            let link = s.link(id);
            let t = s.claim(id, payer_address, amount, tx_hash, now);
            &&& link.claim_count == s.claims_of(id).len()
            &&& link.max_claims > 0 ==> link.claim_count <= link.max_claims
            &&& t.wf()
            &&& s.claim_refusal(id, now) is None ==> {
                &&& t.has_link(id)
                &&& t.link(id) == link_after_claim(link)
                &&& t.link(id).claim_count == link.claim_count + 1
                &&& t.claims_of(id) == s.claims_of(id).push(
                    s.new_claim(id, payer_address, amount, tx_hash, now),
                )
                &&& t.claims_of(id).len() == s.claims_of(id).len() + 1
            }
            &&& s.claim_refusal(id, now) is Some ==> t == s
            &&& link.is_active && is_exhausted(link) ==> s.claim_refusal(id, now) == Some(
                LedgerError::Exhausted,
            )
        }),
{
    law_claim_keeps_invariant(s, id, payer_address, amount, tx_hash, now);
    if s.claim_refusal(id, now) is None {
        let claim = s.new_claim(id, payer_address, amount, tx_hash, now);
        s.claims.lemma_filter_push(claim, claimed_against(id));
    }
}

/// A claim against one link leaves every other link, and the claims recorded
/// against it, as they were.
pub proof fn law_claim_touches_one_link(
    s: LedgerView,
    id: Seq<char>,
    payer_address: Seq<char>,
    amount: Seq<char>,
    tx_hash: Seq<char>,
    now: i64,
    other: Seq<char>,
)
    requires
        s.wf(),
        other != id,
    ensures
        ({
            let t = s.claim(id, payer_address, amount, tx_hash, now);
            &&& t.has_link(other) <==> s.has_link(other)
            &&& s.has_link(other) ==> t.link(other) == s.link(other)
            &&& t.claims_of(other) == s.claims_of(other)
            &&& t.registrations == s.registrations
            &&& t.history == s.history
        }),
{
    let t = s.claim(id, payer_address, amount, tx_hash, now);
    if s.claim_refusal(id, now) is None {
        let claim = s.new_claim(id, payer_address, amount, tx_hash, now);
        s.claims.lemma_filter_push(claim, claimed_against(other));
        if s.has_link(other) {
            let k = s.link_position(other);
            lemma_link_position(t, k);
        }
    }
}

/// A claim against an active link that is not exhausted and whose expiry
/// time has come is refused as expired, and changes nothing.
pub proof fn law_expired_link_refuses_claims(
    s: LedgerView,
    id: Seq<char>,
    payer_address: Seq<char>,
    amount: Seq<char>,
    tx_hash: Seq<char>,
    now: i64,
)
    requires
        s.has_link(id),
        s.link(id).is_active,
        !is_exhausted(s.link(id)),
        is_expired(s.link(id), now),
    ensures
        s.claim_refusal(id, now) == Some(LedgerError::Expired),
        s.claim(id, payer_address, amount, tx_hash, now) == s,
{
}

/// A link created to expire after zero hours refuses every claim made at the
/// time of its creation or later as expired, whatever its claim limit.
pub proof fn law_zero_hour_link_is_expired(
    s: LedgerView,
    id: Seq<char>,
    request: NewPaymentLinkView,
    now: i64,
    payer_address: Seq<char>,
    amount: Seq<char>,
    tx_hash: Seq<char>,
    later: i64,
)
    requires
        s.wf(),
        request.expires_in_hours == Some(0i64),
        s.create_refusal(id, request, now) is None,
        later >= now,
    ensures
        ({
            let t = s.create_link(id, request, now);
            &&& t.claim_refusal(id, later) == Some(LedgerError::Expired)
            &&& t.claim(id, payer_address, amount, tx_hash, later) == t
        }),
{
    law_created_link_is_found(s, id, request, now);
}

/// What a listing of rows with the given times holds: at most `LIST_LIMIT`
/// rows, all of them if there are no more; each row is one of `rows`; no row
/// is older than one listed after it; and no row that is left out is newer
/// than a listed one.
pub open spec fn is_newest_first_listing<R>(rows: Seq<R>, times: Seq<i64>, listed: Seq<R>) -> bool {
    &&& listed.len() <= LIST_LIMIT
    &&& listed.len() == if rows.len() > LIST_LIMIT {
        LIST_LIMIT as nat
    } else {
        rows.len()
    }
    &&& exists|order: Seq<int>|
        {
            &&& #[trigger] order.len() == listed.len()
            &&& is_newest_first(times, order)
            &&& forall|i: int| 0 <= i < listed.len() ==> #[trigger] listed[i] == rows[order[i]]
            &&& forall|i: int, q: int|
                0 <= i < order.len() && 0 <= q < rows.len() && !order.contains(q)
                    ==> times[#[trigger] order[i]] >= #[trigger] times[q]
        }
}

/// A listing built from a page of the newest-first order is a listing as
/// described above.
pub proof fn lemma_page_is_listing<R>(rows: Seq<R>, times: Seq<i64>)
    requires
        times.len() == rows.len(),
    ensures
        is_newest_first_listing(
            rows,
            times,
            rows_at(rows, newest_page(times, LIST_LIMIT as nat)),
        ),
{
    lemma_newest_page(times, LIST_LIMIT as nat);
    let order = newest_page(times, LIST_LIMIT as nat);
    assert forall|i: int, q: int|
        0 <= i < order.len() && 0 <= q < rows.len() && !order.contains(q) implies times[
        #[trigger] order[i]] >= #[trigger] times[q] by {
        assert(listed_before(times, order[i], q));
    }
}

/// The listed sweeps of a wallet are at most 50, the newest of the wallet's
/// sweeps, and in order of time, newest first: a sweep is never older than
/// one listed after it, and it is strictly newer wherever the two times
/// differ.
pub proof fn law_sweep_history_is_newest_first(s: LedgerView, address: Seq<u8>)
    ensures
        ({
            let rows = s.sweeps_of(address);
            let listed = s.sweep_history(address);
            &&& is_newest_first_listing(rows, sweep_times(rows), listed)
            &&& listed.len() <= 50
            &&& forall|i: int, j: int|
                0 <= i < j < listed.len() ==> (#[trigger] listed[i]).timestamp >= (
                #[trigger] listed[j]).timestamp
            &&& forall|i: int|
                0 <= i < listed.len() ==> (#[trigger] listed[i]).wallet_address == address
                    && s.history.contains(listed[i])
        }),
{
    let rows = s.sweeps_of(address);
    let times = sweep_times(rows);
    let listed = s.sweep_history(address);
    lemma_page_is_listing(rows, times);
    lemma_newest_page(times, LIST_LIMIT as nat);
    let order = newest_page(times, LIST_LIMIT as nat);
    assert forall|i: int| 0 <= i < listed.len() implies (#[trigger] listed[i]).wallet_address
        == address && s.history.contains(listed[i]) by {
        s.history.lemma_filter_contains_rev(swept_from(address), rows[order[i]]);
    }
}

/// The listed links of a creator are at most 50, the newest of the creator's
/// links, and in order of creation time, newest first: a link is never older
/// than one listed after it, and it is strictly newer wherever the two times
/// differ.
pub proof fn law_user_links_are_newest_first(s: LedgerView, creator: Seq<char>)
    ensures
        ({
            let rows = s.links_of(creator);
            let listed = s.user_links(creator);
            &&& is_newest_first_listing(rows, link_times(rows), listed)
            &&& listed.len() <= 50
            &&& forall|i: int, j: int|
                0 <= i < j < listed.len() ==> (#[trigger] listed[i]).created_at >= (
                #[trigger] listed[j]).created_at
            &&& forall|i: int|
                0 <= i < listed.len() ==> (#[trigger] listed[i]).creator_address == creator
                    && s.links.contains(listed[i])
        }),
{
    let rows = s.links_of(creator);
    let times = link_times(rows);
    let listed = s.user_links(creator);
    lemma_page_is_listing(rows, times);
    let order = newest_page(times, LIST_LIMIT as nat);
    assert forall|i: int| 0 <= i < listed.len() implies (#[trigger] listed[i]).creator_address
        == creator && s.links.contains(listed[i]) by {
        s.links.lemma_filter_contains_rev(created_by(creator), rows[order[i]]);
    }
}

/// Where no two sweeps of a wallet were made at the same time, the listed
/// sweeps are in strictly descending order of time.
pub proof fn law_sweep_history_is_strictly_ordered(s: LedgerView, address: Seq<u8>)
    requires
        forall|a: int, b: int|
            0 <= a < b < s.sweeps_of(address).len() ==> (#[trigger] s.sweeps_of(
                address,
            )[a]).timestamp != (#[trigger] s.sweeps_of(address)[b]).timestamp,
    ensures
        forall|i: int, j: int|
            0 <= i < j < s.sweep_history(address).len() ==> (#[trigger] s.sweep_history(
                address,
            )[i]).timestamp > (#[trigger] s.sweep_history(address)[j]).timestamp,
{
    let rows = s.sweeps_of(address);
    let times = sweep_times(rows);
    lemma_newest_page(times, LIST_LIMIT as nat);
}

/// Where no two links of a creator were created at the same time, the listed
/// links are in strictly descending order of creation time.
pub proof fn law_user_links_are_strictly_ordered(s: LedgerView, creator: Seq<char>)
    requires
        forall|a: int, b: int|
            0 <= a < b < s.links_of(creator).len() ==> (#[trigger] s.links_of(
                creator,
            )[a]).created_at != (#[trigger] s.links_of(creator)[b]).created_at,
    ensures
        forall|i: int, j: int|
            0 <= i < j < s.user_links(creator).len() ==> (#[trigger] s.user_links(
                creator,
            )[i]).created_at > (#[trigger] s.user_links(creator)[j]).created_at,
{
    let rows = s.links_of(creator);
    let times = link_times(rows);
    lemma_newest_page(times, LIST_LIMIT as nat);
}

} // verus!
