//! The ledger: auto-sweep registrations, sweep history, payment links and
//! claims, held in memory.
//!
//! Every operation is one unit of work: it either makes all of its changes or
//! none. What the ledger holds is its view, a
//! [`LedgerView`](crate::ledger_model::LedgerView); each operation's contract
//! names the function of the view that it computes.

use vstd::prelude::*;
use crate::address::Address;
use crate::ledger_laws::{
    law_claim_accounting, law_create_link_keeps_invariant, law_created_link_is_found,
    law_disable_keeps_invariant, law_enable_is_idempotent, law_insert_link_keeps_invariant,
    law_record_sweep_keeps_invariant, lemma_filter_drops_one,
};
use crate::ledger_model::{
    claimed_against, created_by, link_after_claim, link_times, registered_elsewhere, rows_at,
    sweep_times, swept_from, DisableOutcome, EnableOutcome, LedgerView, LIST_LIMIT,
};
use crate::link_id::{generate_link_id, is_link_id, is_valid_link_id};
use crate::ranking::{lemma_newest_first, newest_first, newest_positions, positions};
use crate::records::{
    expires_at, expiry_fits, new_link, AutoSweepRegistration, LedgerError, LinkState, NewPaymentLink,
    PaymentClaim, PaymentClaimView, PaymentLink, PaymentLinkView, RegistrationView,
    SweepHistoryRecord, SweepRecordView,
};
use crate::salt::Salt;

verus! {

/// What stored registrations stand for.
pub open spec fn registration_views(rows: Seq<AutoSweepRegistration>) -> Seq<RegistrationView> {
    rows.map_values(|r: AutoSweepRegistration| r@)
}

/// What stored sweep records stand for.
pub open spec fn sweep_views(rows: Seq<SweepHistoryRecord>) -> Seq<SweepRecordView> {
    rows.map_values(|r: SweepHistoryRecord| r@)
}

/// What stored links stand for.
pub open spec fn link_views(rows: Seq<PaymentLink>) -> Seq<PaymentLinkView> {
    rows.map_values(|l: PaymentLink| l@)
}

/// What stored claims stand for.
pub open spec fn claim_views(rows: Seq<PaymentClaim>) -> Seq<PaymentClaimView> {
    rows.map_values(|c: PaymentClaim| c@)
}

/// The ledger.
pub struct LedgerStore {
    registrations: Vec<AutoSweepRegistration>,
    history: Vec<SweepHistoryRecord>,
    links: Vec<PaymentLink>,
    claims: Vec<PaymentClaim>,
}

impl View for LedgerStore {
    type V = LedgerView;

    closed spec fn view(&self) -> LedgerView {
        LedgerView {
            registrations: registration_views(self.registrations@),
            history: sweep_views(self.history@),
            links: link_views(self.links@),
            claims: claim_views(self.claims@),
        }
    }
}

impl LedgerStore {
    /// The ledger's invariant holds of what the store holds.
    pub open spec fn wf(&self) -> bool {
        self@.wf()
    }

    /// A ledger with no rows.
    pub fn new() -> (store: LedgerStore)
        ensures
            store@ == LedgerView::empty(),
            store.wf(),
    {
        let store = LedgerStore {
            registrations: Vec::new(),
            history: Vec::new(),
            links: Vec::new(),
            claims: Vec::new(),
        };
        assert(store@.registrations =~= Seq::empty());
        assert(store@.history =~= Seq::empty());
        assert(store@.links =~= Seq::empty());
        assert(store@.claims =~= Seq::empty());
        store
    }

    /// Where the registration for `address` is stored, if there is one.
    fn find_registration(&self, address: &Address) -> (found: Option<usize>)
        ensures
            match found {
                Some(at) => at < self@.registrations.len() && self@.registrations[at as int].address
                    == address@,
                None => !self@.is_registered(address@),
            },
    {
        let mut i: usize = 0;
        while i < self.registrations.len()
            invariant
                i <= self.registrations@.len(),
                self@.registrations == registration_views(self.registrations@),
                forall|j: int| 0 <= j < i ==> (#[trigger] self@.registrations[j]).address != address@,
            decreases self.registrations@.len() - i,
        {
            if self.registrations[i].address.same(address) {
                return Some(i);
            }
            i += 1;
        }
        None
    }

    /// The number of registrations.
    pub fn registration_count(&self) -> (count: usize)
        ensures
            count == self@.registrations.len(),
    {
        self.registrations.len()
    }

    /// The registration for `address`, if there is one.
    pub fn registration(&self, address: &Address) -> (found: Option<AutoSweepRegistration>)
        ensures
            found is Some <==> self@.is_registered(address@),
            found matches Some(row) ==> row@.address == address@ && self@.registrations.contains(
                row@,
            ),
    {
        match self.find_registration(address) {
            Some(at) => Some(self.registrations[at]),
            None => None,
        }
    }

    /// Opts the wallet at `address` into automatic sweeping. If it is
    /// registered already nothing changes, and that is reported; it is not an
    /// error. Otherwise a registration is stored with the given owner and
    /// salt, created at `now`, never checked and never swept.
    pub fn enable_auto_sweep(
        &mut self,
        address: Address,
        owner: Address,
        salt: Salt,
        now: i64,
    ) -> (outcome: EnableOutcome)
        requires
            old(self).wf(),
        ensures
            final(self).wf(),
            final(self)@ == old(self)@.enable(address@, owner@, salt@, now),
            outcome == old(self)@.enable_outcome(address@),
            final(self)@.is_registered(address@),
    {
        proof {
            law_enable_is_idempotent(self@, address@, owner@, salt@, now, owner@, salt@, now);
        }
        match self.find_registration(&address) {
            Some(_) => EnableOutcome::AlreadyRegistered,
            None => {
                let row = AutoSweepRegistration {
                    address,
                    owner,
                    salt,
                    created_at: now,
                    last_checked: 0,
                    sweep_count: 0,
                };
                self.registrations.push(row);
                assert(self@.registrations =~= old(self)@.registrations.push(row@));
                EnableOutcome::Registered
            },
        }
    }

    /// Takes the wallet at `address` out of automatic sweeping. If it is not
    /// registered nothing changes, and that is reported; it is not an error.
    pub fn disable_auto_sweep(&mut self, address: &Address) -> (outcome: DisableOutcome)
        requires
            old(self).wf(),
        ensures
            final(self).wf(),
            final(self)@ == old(self)@.disable(address@),
            outcome == old(self)@.disable_outcome(address@),
            !final(self)@.is_registered(address@),
    {
        proof {
            law_disable_keeps_invariant(self@, address@);
        }
        match self.find_registration(address) {
            Some(at) => {
                proof {
                    let rows = self@.registrations;
                    let pred = registered_elsewhere(address@);
                    lemma_filter_drops_one(rows, pred, at as int);
                }
                self.registrations.remove(at);
                assert(self@.registrations =~= old(self)@.registrations.remove(at as int));
                DisableOutcome::Removed
            },
            None => DisableOutcome::NotRegistered,
        }
    }
}

impl LedgerStore {
    /// Appends a record of a sweep made for `wallet_address` at `now`. The
    /// record gets the next number; if the numbers have run out, nothing is
    /// stored.
    pub fn record_sweep(
        &mut self,
        wallet_address: Address,
        tx_hash: String,
        amount: String,
        recipient: Address,
        now: i64,
    ) -> (r: Result<SweepHistoryRecord, LedgerError>)
        requires
            old(self).wf(),
        ensures
            final(self).wf(),
            final(self)@ == old(self)@.record_sweep(
                wallet_address@,
                tx_hash@,
                amount@,
                recipient@,
                now,
            ),
            if old(self)@.history_has_room() {
                r matches Ok(row) && row@ == old(self)@.new_sweep(
                    wallet_address@,
                    tx_hash@,
                    amount@,
                    recipient@,
                    now,
                )
            } else {
                r matches Err(e) && e == LedgerError::StoreFull
            },
    {
        proof {
            law_record_sweep_keeps_invariant(
                self@,
                wallet_address@,
                tx_hash@,
                amount@,
                recipient@,
                now,
            );
        }
        let count: usize = self.history.len();
        if count as u64 >= i64::MAX as u64 {
            return Err(LedgerError::StoreFull);
        }
        let row = SweepHistoryRecord {
            id: (count as u64 + 1) as i64,
            wallet_address,
            tx_hash,
            amount,
            timestamp: now,
            recipient,
        };
        let copy = row.clone();
        self.history.push(row);
        assert(self@.history =~= old(self)@.history.push(row@));
        Ok(copy)
    }

    /// Where the link `id` is stored, if there is one.
    fn find_link(&self, id: &str) -> (found: Option<usize>)
        ensures
            match found {
                Some(at) => at < self@.links.len() && self@.links[at as int].id == id@,
                None => !self@.has_link(id@),
            },
    {
        let wanted: String = id.to_owned();
        let mut i: usize = 0;
        while i < self.links.len()
            invariant
                i <= self.links@.len(),
                wanted@ == id@,
                self@.links == link_views(self.links@),
                forall|j: int| 0 <= j < i ==> (#[trigger] self@.links[j]).id != id@,
            decreases self.links@.len() - i,
        {
            if self.links[i].id == wanted {
                return Some(i);
            }
            i += 1;
        }
        None
    }

    /// Stores a link as it is given. A link whose id is not well formed, that
    /// counts claims already, or whose id is taken is refused, and nothing
    /// changes; a stored link is never overwritten.
    pub fn insert_payment_link(&mut self, link: PaymentLink) -> (r: Result<(), LedgerError>)
        requires
            old(self).wf(),
        ensures
            final(self).wf(),
            final(self)@ == old(self)@.insert_link(link@),
            match old(self)@.insert_refusal(link@) {
                Some(refusal) => r matches Err(e) && e == refusal,
                None => r is Ok,
            },
    {
        proof {
            law_insert_link_keeps_invariant(self@, link@);
        }
        if !is_valid_link_id(link.id.as_str()) {
            return Err(LedgerError::MalformedId);
        }
        if link.claim_count != 0 {
            return Err(LedgerError::ClaimedLink);
        }
        if self.find_link(link.id.as_str()).is_some() {
            return Err(LedgerError::DuplicateId);
        }
        self.links.push(link);
        assert(self@.links =~= old(self)@.links.push(link@));
        Ok(())
    }

    /// Creates a payment link under a freshly drawn id at `now` and returns
    /// it; see [`create_payment_link_with_id`](Self::create_payment_link_with_id)
    /// for what the link holds. If the drawn id is taken the creation is
    /// refused and nothing changes: a stored link is never overwritten.
    pub fn create_payment_link(&mut self, request: NewPaymentLink, now: i64) -> (r: Result<
        PaymentLink,
        LedgerError,
    >)
        requires
            old(self).wf(),
        ensures
            final(self).wf(),
            exists|id: Seq<char>|
                {
                    &&& #[trigger] is_link_id(id)
                    &&& final(self)@ == old(self)@.create_link(id, request@, now)
                    &&& match old(self)@.create_refusal(id, request@, now) {
                        Some(refusal) => r matches Err(e) && e == refusal,
                        None => r matches Ok(link) && link@ == new_link(id, request@, now),
                    }
                },
            !expiry_fits(now, request@.expires_in_hours) ==> (r matches Err(e) && e
                == LedgerError::ExpiryOutOfRange),
            r matches Err(e) ==> e == LedgerError::ExpiryOutOfRange || e
                == LedgerError::DuplicateId,
            r matches Ok(link) ==> {
                &&& is_link_id(link@.id)
                &&& !old(self)@.has_link(link@.id)
                &&& final(self)@.links == old(self)@.links.push(link@)
                &&& final(self)@.find_link(link@.id) == Ok::<PaymentLinkView, LedgerError>(link@)
            },
            r is Err ==> final(self)@ == old(self)@,
    {
        let id = generate_link_id();
        let r = self.create_payment_link_with_id(id, request, now);
        r
    }

    /// Creates a payment link under `id` at `now` and returns it: it has no
    /// claims, is active, allows one claim unless the request says otherwise,
    /// and expires the requested number of hours after `now`, or never. A
    /// malformed id, an expiry time that cannot be represented, or an id that
    /// is taken is refused, and nothing changes.
    pub fn create_payment_link_with_id(
        &mut self,
        id: String,
        request: NewPaymentLink,
        now: i64,
    ) -> (r: Result<PaymentLink, LedgerError>)
        requires
            old(self).wf(),
        ensures
            final(self).wf(),
            final(self)@ == old(self)@.create_link(id@, request@, now),
            match old(self)@.create_refusal(id@, request@, now) {
                Some(refusal) => r matches Err(e) && e == refusal,
                None => r matches Ok(link) && link@ == new_link(id@, request@, now),
            },
            r matches Ok(link) ==> final(self)@.find_link(id@) == Ok::<
                PaymentLinkView,
                LedgerError,
            >(link@),
            r is Err ==> final(self)@ == old(self)@,
    {
        proof {
            law_create_link_keeps_invariant(self@, id@, request@, now);
            if self@.create_refusal(id@, request@, now) is None {
                law_created_link_is_found(self@, id@, request@, now);
            }
        }
        if !is_valid_link_id(id.as_str()) {
            return Err(LedgerError::MalformedId);
        }
        let expiry = match expires_at(now, request.expires_in_hours) {
            Ok(expiry) => expiry,
            Err(refusal) => {
                return Err(refusal);
            },
        };
        if self.find_link(id.as_str()).is_some() {
            return Err(LedgerError::DuplicateId);
        }
        let link = PaymentLink {
            id,
            creator_address: request.creator_address,
            recipient_address: request.recipient_address,
            amount: request.amount,
            description: request.description,
            created_at: now,
            expires_at: expiry,
            claim_count: 0,
            max_claims: match request.max_claims {
                Some(limit) => limit,
                None => 1,
            },
            is_active: true,
        };
        let copy = link.clone();
        self.links.push(link);
        assert(self@.links =~= old(self)@.links.push(link@));
        Ok(copy)
    }

    /// Looks up the link `id`.
    pub fn get_payment_link(&self, id: &str) -> (r: Result<PaymentLink, LedgerError>)
        requires
            self.wf(),
        ensures
            match self@.find_link(id@) {
                Ok(link) => r matches Ok(found) && found@ == link,
                Err(refusal) => r matches Err(e) && e == refusal,
            },
    {
        match self.find_link(id) {
            Some(at) => Ok(self.links[at].clone()),
            None => Err(LedgerError::NotFound),
        }
    }

    /// Records a claim against the link `id` at `now`. The claim is refused,
    /// and nothing changes, if there is no such link, if the link is switched
    /// off, if it has reached its claim limit, or if its expiry time has
    /// come. Otherwise the claim is appended and the link counts one claim
    /// more.
    pub fn claim_payment_link(
        &mut self,
        id: &str,
        payer_address: String,
        amount: String,
        tx_hash: String,
        now: i64,
    ) -> (r: Result<PaymentClaim, LedgerError>)
        requires
            old(self).wf(),
        ensures
            final(self).wf(),
            final(self)@ == old(self)@.claim(id@, payer_address@, amount@, tx_hash@, now),
            match old(self)@.claim_refusal(id@, now) {
                Some(refusal) => r matches Err(e) && e == refusal,
                None => r matches Ok(claim) && claim@ == old(self)@.new_claim(
                    id@,
                    payer_address@,
                    amount@,
                    tx_hash@,
                    now,
                ),
            },
            r matches Ok(claim) ==> {
                &&& final(self)@.link(id@) == link_after_claim(old(self)@.link(id@))
                &&& final(self)@.claims_of(id@) == old(self)@.claims_of(id@).push(claim@)
            },
            r is Err ==> final(self)@ == old(self)@,
    {
        proof {
            if self@.has_link(id@) {
                law_claim_accounting(self@, id@, payer_address@, amount@, tx_hash@, now);
            }
        }
        let at: usize = match self.find_link(id) {
            Some(at) => at,
            None => {
                return Err(LedgerError::NotFound);
            },
        };
        match self.links[at].state(now) {
            LinkState::Inactive => {
                return Err(LedgerError::Inactive);
            },
            LinkState::Exhausted => {
                return Err(LedgerError::Exhausted);
            },
            LinkState::Expired => {
                return Err(LedgerError::Expired);
            },
            LinkState::Active => {},
        }
        let count: usize = self.claims.len();
        if count as u64 >= i64::MAX as u64 {
            return Err(LedgerError::StoreFull);
        }
        let claim = PaymentClaim {
            id: (count as u64 + 1) as i64,
            link_id: self.links[at].id.clone(),
            payer_address,
            amount,
            tx_hash,
            claimed_at: now,
        };
        let copy = claim.clone();
        let mut link = self.links[at].clone();
        link.claim_count = link.claim_count + 1;
        self.links[at] = link;
        self.claims.push(claim);
        assert(self@.claims =~= old(self)@.claims.push(claim@));
        assert(self@.links =~= old(self)@.links.update(
            at as int,
            link_after_claim(old(self)@.links[at as int]),
        ));
        Ok(copy)
    }

    /// The claims recorded against the link `id`, oldest first.
    pub fn claims_for(&self, id: &str) -> (found: Vec<PaymentClaim>)
        ensures
            claim_views(found@) == self@.claims_of(id@),
    {
        let wanted: String = id.to_owned();
        let mut found: Vec<PaymentClaim> = Vec::new();
        let mut i: usize = 0;
        while i < self.claims.len()
            invariant
                i <= self.claims@.len(),
                wanted@ == id@,
                self@.claims == claim_views(self.claims@),
                claim_views(found@) == self@.claims.take(i as int).filter(claimed_against(id@)),
            decreases self.claims@.len() - i,
        {
            proof {
                let rows = self@.claims;
                rows.lemma_take_succ_push(i as int);
                rows.take(i as int).lemma_filter_push(rows[i as int], claimed_against(id@));
            }
            if self.claims[i].link_id == wanted {
                let copy = self.claims[i].clone();
                found.push(copy);
            }
            i += 1;
        }
        assert(self@.claims.take(self@.claims.len() as int) =~= self@.claims);
        found
    }
}

impl LedgerStore {
    /// Lists the sweeps made for `address`, newest first and at most
    /// [`LIST_LIMIT`] of them. Sweeps of the same time are listed in the order
    /// they were recorded.
    pub fn list_sweep_history(&self, address: &Address) -> (listed: Vec<SweepHistoryRecord>)
        ensures
            sweep_views(listed@) == self@.sweep_history(address@),
    {
        let ghost all = self@.history;
        let ghost pred = swept_from(address@);
        let mut picked: Vec<usize> = Vec::new();
        let mut keys: Vec<i64> = Vec::new();
        let mut i: usize = 0;
        while i < self.history.len()
            invariant
                i <= self.history@.len(),
                all == sweep_views(self.history@),
                pred == swept_from(address@),
                picked@.len() == all.take(i as int).filter(pred).len(),
                keys@.len() == picked@.len(),
                forall|j: int|
                    0 <= j < picked@.len() ==> {
                        &&& (#[trigger] picked@[j]) < i
                        &&& all[picked@[j] as int] == all.take(i as int).filter(pred)[j]
                    },
                forall|j: int|
                    0 <= j < picked@.len() ==> (#[trigger] keys@[j]) == all.take(i as int).filter(
                        pred,
                    )[j].timestamp,
            decreases self.history@.len() - i,
        {
            proof {
                all.lemma_take_succ_push(i as int);
                all.take(i as int).lemma_filter_push(all[i as int], pred);
            }
            if self.history[i].wallet_address.same(address) {
                picked.push(i);
                keys.push(self.history[i].timestamp);
            }
            i += 1;
        }
        assert(all.take(all.len() as int) =~= all);
        let ghost rows = all.filter(pred);
        assert(keys@ =~= sweep_times(rows));
        let page = newest_positions(&keys, LIST_LIMIT);
        proof {
            lemma_newest_first(keys@);
        }
        let ghost order = positions(page@);
        assert forall|p: int| 0 <= p < page@.len() implies 0 <= (#[trigger] page@[p]) < picked@.len() by {
            assert(order[p] == page@[p] as int);
            if (LIST_LIMIT as nat) < newest_first(keys@).len() {
                assert(order == newest_first(keys@).take(LIST_LIMIT as int));
            }
        }
        let mut listed: Vec<SweepHistoryRecord> = Vec::new();
        let mut p: usize = 0;
        while p < page.len()
            invariant
                p <= page@.len(),
                all == sweep_views(self.history@),
                order == positions(page@),
                picked@.len() == rows.len(),
                forall|q: int| 0 <= q < page@.len() ==> 0 <= (#[trigger] page@[q]) < picked@.len(),
                forall|j: int|
                    0 <= j < picked@.len() ==> {
                        &&& (#[trigger] picked@[j]) < self.history@.len()
                        &&& all[picked@[j] as int] == rows[j]
                    },
                sweep_views(listed@) == rows_at(rows, order).take(p as int),
            decreases page@.len() - p,
        {
            let at: usize = picked[page[p]];
            let copy = self.history[at].clone();
            listed.push(copy);
            proof {
                assert(rows_at(rows, order).take(p + 1) =~= rows_at(rows, order).take(
                    p as int,
                ).push(rows[order[p as int]]));
            }
            p += 1;
        }
        listed
    }

    /// Lists the links created by `creator_address`, newest first and at most
    /// [`LIST_LIMIT`] of them. Links of the same creation time are listed in
    /// the order they were created.
    pub fn list_user_payment_links(&self, creator_address: &str) -> (listed: Vec<PaymentLink>)
        ensures
            link_views(listed@) == self@.user_links(creator_address@),
    {
        let wanted: String = creator_address.to_owned();
        let ghost all = self@.links;
        let ghost pred = created_by(creator_address@);
        let mut picked: Vec<usize> = Vec::new();
        let mut keys: Vec<i64> = Vec::new();
        let mut i: usize = 0;
        while i < self.links.len()
            invariant
                i <= self.links@.len(),
                wanted@ == creator_address@,
                all == link_views(self.links@),
                pred == created_by(creator_address@),
                picked@.len() == all.take(i as int).filter(pred).len(),
                keys@.len() == picked@.len(),
                forall|j: int|
                    0 <= j < picked@.len() ==> {
                        &&& (#[trigger] picked@[j]) < i
                        &&& all[picked@[j] as int] == all.take(i as int).filter(pred)[j]
                    },
                forall|j: int|
                    0 <= j < picked@.len() ==> (#[trigger] keys@[j]) == all.take(i as int).filter(
                        pred,
                    )[j].created_at,
            decreases self.links@.len() - i,
        {
            proof {
                all.lemma_take_succ_push(i as int);
                all.take(i as int).lemma_filter_push(all[i as int], pred);
            }
            if self.links[i].creator_address == wanted {
                picked.push(i);
                keys.push(self.links[i].created_at);
            }
            i += 1;
        }
        assert(all.take(all.len() as int) =~= all);
        let ghost rows = all.filter(pred);
        assert(keys@ =~= link_times(rows));
        let page = newest_positions(&keys, LIST_LIMIT);
        proof {
            lemma_newest_first(keys@);
        }
        let ghost order = positions(page@);
        assert forall|p: int| 0 <= p < page@.len() implies 0 <= (#[trigger] page@[p]) < picked@.len() by {
            assert(order[p] == page@[p] as int);
            if (LIST_LIMIT as nat) < newest_first(keys@).len() {
                assert(order == newest_first(keys@).take(LIST_LIMIT as int));
            }
        }
        let mut listed: Vec<PaymentLink> = Vec::new();
        let mut p: usize = 0;
        while p < page.len()
            invariant
                p <= page@.len(),
                all == link_views(self.links@),
                order == positions(page@),
                picked@.len() == rows.len(),
                forall|q: int| 0 <= q < page@.len() ==> 0 <= (#[trigger] page@[q]) < picked@.len(),
                forall|j: int|
                    0 <= j < picked@.len() ==> {
                        &&& (#[trigger] picked@[j]) < self.links@.len()
                        &&& all[picked@[j] as int] == rows[j]
                    },
                link_views(listed@) == rows_at(rows, order).take(p as int),
            decreases page@.len() - p,
        {
            let at: usize = picked[page[p]];
            let copy = self.links[at].clone();
            listed.push(copy);
            proof {
                assert(rows_at(rows, order).take(p + 1) =~= rows_at(rows, order).take(
                    p as int,
                ).push(rows[order[p as int]]));
            }
            p += 1;
        }
        listed
    }
}

} // verus!
