//! What the ledger holds and how each operation changes it, as mathematics.
//!
//! A [`LedgerView`] is the four tables as sequences, in the order the rows
//! were stored. Every operation of the store is a function here from one view
//! to the next; the store's contracts say that it follows these functions.

use vstd::prelude::*;
use crate::link_id::is_link_id;
use crate::ranking::newest_page;
use crate::records::{
    expiry_fits, link_state, new_link, LedgerError, LinkState, NewPaymentLinkView,
    PaymentClaimView, PaymentLinkView, RegistrationView, SweepRecordView,
};

verus! {

/// The most rows a listing returns.
pub const LIST_LIMIT: usize = 50;

/// The registration is for `address`.
pub open spec fn registered_at(address: Seq<u8>) -> spec_fn(RegistrationView) -> bool {
    |r: RegistrationView| r.address == address
}

/// The registration is for another address than `address`.
pub open spec fn registered_elsewhere(address: Seq<u8>) -> spec_fn(RegistrationView) -> bool {
    |r: RegistrationView| r.address != address
}

/// The sweep was made for the wallet at `address`.
pub open spec fn swept_from(address: Seq<u8>) -> spec_fn(SweepRecordView) -> bool {
    |r: SweepRecordView| r.wallet_address == address
}

/// The link was created by `creator`.
pub open spec fn created_by(creator: Seq<char>) -> spec_fn(PaymentLinkView) -> bool {
    |l: PaymentLinkView| l.creator_address == creator
}

/// The claim was made against the link `id`.
pub open spec fn claimed_against(id: Seq<char>) -> spec_fn(PaymentClaimView) -> bool {
    |c: PaymentClaimView| c.link_id == id
}

/// The times of sweep records, in their order.
pub open spec fn sweep_times(rows: Seq<SweepRecordView>) -> Seq<i64> {
    rows.map_values(|r: SweepRecordView| r.timestamp)
}

/// The creation times of links, in their order.
pub open spec fn link_times(rows: Seq<PaymentLinkView>) -> Seq<i64> {
    rows.map_values(|l: PaymentLinkView| l.created_at)
}

/// The rows at the given positions.
pub open spec fn rows_at<R>(rows: Seq<R>, order: Seq<int>) -> Seq<R> {
    order.map_values(|p: int| rows[p])
}

/// The link with one more claim counted.
pub open spec fn link_after_claim(link: PaymentLinkView) -> PaymentLinkView {
    PaymentLinkView { claim_count: (link.claim_count + 1) as i64, ..link }
}

/// What enabling sweeping for an address did.
#[derive(Clone, Copy, Debug, PartialEq, Eq, Structural)]
pub enum EnableOutcome {
    /// The address was not registered; it is now.
    Registered,
    /// The address was registered already; nothing changed.
    AlreadyRegistered,
}

/// What disabling sweeping for an address did.
#[derive(Clone, Copy, Debug, PartialEq, Eq, Structural)]
pub enum DisableOutcome {
    /// The address was registered; it no longer is.
    Removed,
    /// The address was not registered; nothing changed.
    NotRegistered,
}

/// The four tables of the ledger.
pub struct LedgerView {
    pub registrations: Seq<RegistrationView>,
    pub history: Seq<SweepRecordView>,
    pub links: Seq<PaymentLinkView>,
    pub claims: Seq<PaymentClaimView>,
}

impl LedgerView {
    /// The ledger with no rows.
    pub open spec fn empty() -> LedgerView {
        LedgerView {
            registrations: Seq::empty(),
            history: Seq::empty(),
            links: Seq::empty(),
            claims: Seq::empty(),
        }
    }

    /// Some registration is for `address`.
    pub open spec fn is_registered(self, address: Seq<u8>) -> bool {
        exists|i: int|
            0 <= i < self.registrations.len() && (#[trigger] self.registrations[i]).address
                == address
    }

    /// The registrations for `address`.
    pub open spec fn registrations_of(self, address: Seq<u8>) -> Seq<RegistrationView> {
        self.registrations.filter(registered_at(address))
    }

    /// The registration that enabling sweeping at `now` stores.
    pub open spec fn new_registration(
        address: Seq<u8>,
        owner: Seq<u8>,
        salt: Seq<u8>,
        now: i64,
    ) -> RegistrationView {
        RegistrationView { address, owner, salt, created_at: now, last_checked: 0, sweep_count: 0 }
    }

    /// Enabling sweeping for `address`: nothing changes if it is registered;
    /// otherwise a fresh registration is added.
    pub open spec fn enable(
        self,
        address: Seq<u8>,
        owner: Seq<u8>,
        salt: Seq<u8>,
        now: i64,
    ) -> LedgerView {
        if self.is_registered(address) {
            self
        } else {
            LedgerView {
                registrations: self.registrations.push(
                    Self::new_registration(address, owner, salt, now),
                ),
                ..self
            }
        }
    }

    /// What enabling sweeping for `address` reports.
    pub open spec fn enable_outcome(self, address: Seq<u8>) -> EnableOutcome {
        if self.is_registered(address) {
            EnableOutcome::AlreadyRegistered
        } else {
            EnableOutcome::Registered
        }
    }

    /// What disabling sweeping for `address` reports.
    pub open spec fn disable_outcome(self, address: Seq<u8>) -> DisableOutcome {
        if self.is_registered(address) {
            DisableOutcome::Removed
        } else {
            DisableOutcome::NotRegistered
        }
    }

    /// Disabling sweeping for `address`: only registrations for other
    /// addresses remain.
    pub open spec fn disable(self, address: Seq<u8>) -> LedgerView {
        LedgerView {
            registrations: self.registrations.filter(registered_elsewhere(address)),
            ..self
        }
    }

    /// Whether the history can number another record.
    pub open spec fn history_has_room(self) -> bool {
        self.history.len() < i64::MAX
    }

    /// The record that a sweep at `now` adds; it gets the next number.
    pub open spec fn new_sweep(
        self,
        wallet_address: Seq<u8>,
        tx_hash: Seq<char>,
        amount: Seq<char>,
        recipient: Seq<u8>,
        now: i64,
    ) -> SweepRecordView {
        SweepRecordView {
            id: (self.history.len() + 1) as i64,
            wallet_address,
            tx_hash,
            amount,
            timestamp: now,
            recipient,
        }
    }

    /// Recording a sweep: the record is appended, if it can be numbered.
    pub open spec fn record_sweep(
        self,
        wallet_address: Seq<u8>,
        tx_hash: Seq<char>,
        amount: Seq<char>,
        recipient: Seq<u8>,
        now: i64,
    ) -> LedgerView {
        if self.history_has_room() {
            LedgerView {
                history: self.history.push(
                    self.new_sweep(wallet_address, tx_hash, amount, recipient, now),
                ),
                ..self
            }
        } else {
            self
        }
    }

    /// All sweeps made for `address`, oldest first.
    pub open spec fn sweeps_of(self, address: Seq<u8>) -> Seq<SweepRecordView> {
        self.history.filter(swept_from(address))
    }

    /// The sweeps listed for `address`: the newest first, at most
    /// [`LIST_LIMIT`] of them.
    pub open spec fn sweep_history(self, address: Seq<u8>) -> Seq<SweepRecordView> {
        let rows = self.sweeps_of(address);
        rows_at(rows, newest_page(sweep_times(rows), LIST_LIMIT as nat))
    }

    /// Some link has the id `id`.
    pub open spec fn has_link(self, id: Seq<char>) -> bool {
        exists|i: int| 0 <= i < self.links.len() && (#[trigger] self.links[i]).id == id
    }

    /// Where the link `id` is stored.
    pub open spec fn link_position(self, id: Seq<char>) -> int
        recommends
            self.has_link(id),
    {
        choose|i: int| 0 <= i < self.links.len() && (#[trigger] self.links[i]).id == id
    }

    /// The link `id`.
    pub open spec fn link(self, id: Seq<char>) -> PaymentLinkView
        recommends
            self.has_link(id),
    {
        self.links[self.link_position(id)]
    }

    /// Why `link` cannot be stored, if it cannot: its id is malformed, it
    /// counts claims already, or its id is taken.
    pub open spec fn insert_refusal(self, link: PaymentLinkView) -> Option<LedgerError> {
        if !is_link_id(link.id) {
            Some(LedgerError::MalformedId)
        } else if link.claim_count != 0 {
            Some(LedgerError::ClaimedLink)
        } else if self.has_link(link.id) {
            Some(LedgerError::DuplicateId)
        } else {
            None
        }
    }

    /// Storing `link`: it is appended unless it is refused.
    pub open spec fn insert_link(self, link: PaymentLinkView) -> LedgerView {
        if self.insert_refusal(link) is None {
            LedgerView { links: self.links.push(link), ..self }
        } else {
            self
        }
    }

    /// Why a link cannot be created under `id` at `now`, if it cannot: the id
    /// is malformed, the expiry time cannot be represented, or the id is
    /// taken.
    pub open spec fn create_refusal(
        self,
        id: Seq<char>,
        request: NewPaymentLinkView,
        now: i64,
    ) -> Option<LedgerError> {
        if !is_link_id(id) {
            Some(LedgerError::MalformedId)
        } else if !expiry_fits(now, request.expires_in_hours) {
            Some(LedgerError::ExpiryOutOfRange)
        } else if self.has_link(id) {
            Some(LedgerError::DuplicateId)
        } else {
            None
        }
    }

    /// Creating a link under `id` at `now`: the new link is appended unless
    /// the creation is refused.
    pub open spec fn create_link(
        self,
        id: Seq<char>,
        request: NewPaymentLinkView,
        now: i64,
    ) -> LedgerView {
        if self.create_refusal(id, request, now) is None {
            LedgerView { links: self.links.push(new_link(id, request, now)), ..self }
        } else {
            self
        }
    }

    /// What looking up the link `id` gives.
    pub open spec fn find_link(self, id: Seq<char>) -> Result<PaymentLinkView, LedgerError> {
        if self.has_link(id) {
            Ok(self.link(id))
        } else {
            Err(LedgerError::NotFound)
        }
    }

    /// All links created by `creator`, oldest first.
    pub open spec fn links_of(self, creator: Seq<char>) -> Seq<PaymentLinkView> {
        self.links.filter(created_by(creator))
    }

    /// The links listed for `creator`: the newest first, at most
    /// [`LIST_LIMIT`] of them.
    pub open spec fn user_links(self, creator: Seq<char>) -> Seq<PaymentLinkView> {
        let rows = self.links_of(creator);
        rows_at(rows, newest_page(link_times(rows), LIST_LIMIT as nat))
    }

    /// All claims made against the link `id`, oldest first.
    pub open spec fn claims_of(self, id: Seq<char>) -> Seq<PaymentClaimView> {
        self.claims.filter(claimed_against(id))
    }

    /// Whether the claims table can number another claim.
    pub open spec fn claims_have_room(self) -> bool {
        self.claims.len() < i64::MAX
    }

    /// Why a claim against the link `id` at `now` is refused, if it is: there
    /// is no such link, the link is switched off, exhausted or expired, or the
    /// claim cannot be numbered.
    pub open spec fn claim_refusal(self, id: Seq<char>, now: i64) -> Option<LedgerError> {
        if !self.has_link(id) {
            Some(LedgerError::NotFound)
        } else {
            match link_state(self.link(id), now) {
                LinkState::Inactive => Some(LedgerError::Inactive),
                LinkState::Exhausted => Some(LedgerError::Exhausted),
                LinkState::Expired => Some(LedgerError::Expired),
                LinkState::Active => if self.claims_have_room() {
                    None
                } else {
                    Some(LedgerError::StoreFull)
                },
            }
        }
    }

    /// The claim that is recorded at `now`; it gets the next number.
    pub open spec fn new_claim(
        self,
        id: Seq<char>,
        payer_address: Seq<char>,
        amount: Seq<char>,
        tx_hash: Seq<char>,
        now: i64,
    ) -> PaymentClaimView {
        PaymentClaimView {
            id: (self.claims.len() + 1) as i64,
            link_id: id,
            payer_address,
            amount,
            tx_hash,
            claimed_at: now,
        }
    }

    /// Claiming against the link `id` at `now`: unless the claim is refused,
    /// the claim is appended and the link counts one claim more, both or
    /// neither.
    pub open spec fn claim(
        self,
        id: Seq<char>,
        payer_address: Seq<char>,
        amount: Seq<char>,
        tx_hash: Seq<char>,
        now: i64,
    ) -> LedgerView {
        if self.claim_refusal(id, now) is None {
            let at = self.link_position(id);
            LedgerView {
                links: self.links.update(at, link_after_claim(self.links[at])),
                claims: self.claims.push(self.new_claim(id, payer_address, amount, tx_hash, now)),
                ..self
            }
        } else {
            self
        }
    }

    /// No two registrations are for the same address.
    pub open spec fn registrations_distinct(self) -> bool {
        forall|i: int, j: int|
            0 <= i < j < self.registrations.len() ==> (#[trigger] self.registrations[i]).address
                != (#[trigger] self.registrations[j]).address
    }

    /// Sweep records are numbered from 1 in the order they were stored.
    pub open spec fn history_numbered(self) -> bool {
        &&& self.history.len() <= i64::MAX
        &&& forall|i: int| 0 <= i < self.history.len() ==> (#[trigger] self.history[i]).id == i + 1
    }

    /// No two links have the same id.
    pub open spec fn links_distinct(self) -> bool {
        forall|i: int, j: int|
            0 <= i < j < self.links.len() ==> (#[trigger] self.links[i]).id != (
            #[trigger] self.links[j]).id
    }

    /// Every link has a well-formed id, counts exactly the claims recorded
    /// against it, and stays within its claim limit if it has one.
    pub open spec fn links_consistent(self) -> bool {
        forall|i: int|
            0 <= i < self.links.len() ==> {
                let link = #[trigger] self.links[i];
                &&& is_link_id(link.id)
                &&& link.claim_count == self.claims_of(link.id).len()
                &&& link.max_claims > 0 ==> link.claim_count <= link.max_claims
            }
    }

    /// Claims are numbered from 1 in the order they were stored, and each is
    /// against a link that exists.
    pub open spec fn claims_numbered(self) -> bool {
        &&& self.claims.len() <= i64::MAX
        &&& forall|i: int|
            0 <= i < self.claims.len() ==> {
                let claim = #[trigger] self.claims[i];
                &&& claim.id == i + 1
                &&& self.has_link(claim.link_id)
            }
    }

    /// The ledger's invariant.
    pub open spec fn wf(self) -> bool {
        &&& self.registrations_distinct()
        &&& self.history_numbered()
        &&& self.links_distinct()
        &&& self.links_consistent()
        &&& self.claims_numbered()
    }
}

} // verus!
