//! The rows of the ledger and the values they stand for in contracts.
//!
//! Each row type has a view that holds text as `Seq<char>` and addresses and
//! salts as `Seq<u8>`; every contract of the ledger speaks of views.

use vstd::prelude::*;
use crate::address::Address;
use crate::error::ErrorKind;
use crate::salt::Salt;

verus! {

/// Milliseconds in an hour.
pub const MILLIS_PER_HOUR: i64 = 3_600_000;

/// The text an optional string holds.
pub open spec fn text_view(text: Option<String>) -> Option<Seq<char>> {
    match text {
        Some(s) => Some(s@),
        None => None,
    }
}

/// Copies an optional string.
fn clone_text(text: &Option<String>) -> (copy: Option<String>)
    ensures
        text_view(copy) == text_view(*text),
{
    match text {
        Some(s) => Some(s.clone()),
        None => None,
    }
}

/// A wallet that opted into automatic sweeping.
#[derive(Clone, Copy, Debug)]
pub struct AutoSweepRegistration {
    pub address: Address,
    pub owner: Address,
    pub salt: Salt,
    pub created_at: i64,
    pub last_checked: i64,
    pub sweep_count: i64,
}

/// What an [`AutoSweepRegistration`] stands for.
pub struct RegistrationView {
    pub address: Seq<u8>,
    pub owner: Seq<u8>,
    pub salt: Seq<u8>,
    pub created_at: i64,
    pub last_checked: i64,
    pub sweep_count: i64,
}

impl View for AutoSweepRegistration {
    type V = RegistrationView;

    open spec fn view(&self) -> RegistrationView {
        RegistrationView {
            address: self.address@,
            owner: self.owner@,
            salt: self.salt@,
            created_at: self.created_at,
            last_checked: self.last_checked,
            sweep_count: self.sweep_count,
        }
    }
}

/// One sweep that was carried out for a wallet.
#[derive(Debug)]
pub struct SweepHistoryRecord {
    pub id: i64,
    pub wallet_address: Address,
    pub tx_hash: String,
    pub amount: String,
    pub timestamp: i64,
    pub recipient: Address,
}

/// What a [`SweepHistoryRecord`] stands for.
pub struct SweepRecordView {
    pub id: i64,
    pub wallet_address: Seq<u8>,
    pub tx_hash: Seq<char>,
    pub amount: Seq<char>,
    pub timestamp: i64,
    pub recipient: Seq<u8>,
}

impl View for SweepHistoryRecord {
    type V = SweepRecordView;

    open spec fn view(&self) -> SweepRecordView {
        SweepRecordView {
            id: self.id,
            wallet_address: self.wallet_address@,
            tx_hash: self.tx_hash@,
            amount: self.amount@,
            timestamp: self.timestamp,
            recipient: self.recipient@,
        }
    }
}

impl Clone for SweepHistoryRecord {
    fn clone(&self) -> (copy: Self)
        ensures
            copy@ == self@,
    {
        SweepHistoryRecord {
            id: self.id,
            wallet_address: self.wallet_address,
            tx_hash: self.tx_hash.clone(),
            amount: self.amount.clone(),
            timestamp: self.timestamp,
            recipient: self.recipient,
        }
    }
}

/// A shareable link that payers can claim against.
#[derive(Debug)]
pub struct PaymentLink {
    pub id: String,
    pub creator_address: String,
    pub recipient_address: Option<String>,
    pub amount: Option<String>,
    pub description: Option<String>,
    pub created_at: i64,
    pub expires_at: Option<i64>,
    pub claim_count: i64,
    pub max_claims: i64,
    pub is_active: bool,
}

/// What a [`PaymentLink`] stands for.
pub struct PaymentLinkView {
    pub id: Seq<char>,
    pub creator_address: Seq<char>,
    pub recipient_address: Option<Seq<char>>,
    pub amount: Option<Seq<char>>,
    pub description: Option<Seq<char>>,
    pub created_at: i64,
    pub expires_at: Option<i64>,
    pub claim_count: i64,
    pub max_claims: i64,
    pub is_active: bool,
}

impl View for PaymentLink {
    type V = PaymentLinkView;

    open spec fn view(&self) -> PaymentLinkView {
        PaymentLinkView {
            id: self.id@,
            creator_address: self.creator_address@,
            recipient_address: text_view(self.recipient_address),
            amount: text_view(self.amount),
            description: text_view(self.description),
            created_at: self.created_at,
            expires_at: self.expires_at,
            claim_count: self.claim_count,
            max_claims: self.max_claims,
            is_active: self.is_active,
        }
    }
}

impl Clone for PaymentLink {
    fn clone(&self) -> (copy: Self)
        ensures
            copy@ == self@,
    {
        PaymentLink {
            id: self.id.clone(),
            creator_address: self.creator_address.clone(),
            recipient_address: clone_text(&self.recipient_address),
            amount: clone_text(&self.amount),
            description: clone_text(&self.description),
            created_at: self.created_at,
            expires_at: self.expires_at,
            claim_count: self.claim_count,
            max_claims: self.max_claims,
            is_active: self.is_active,
        }
    }
}

/// One payer's use of a payment link.
#[derive(Debug)]
pub struct PaymentClaim {
    pub id: i64,
    pub link_id: String,
    pub payer_address: String,
    pub amount: String,
    pub tx_hash: String,
    pub claimed_at: i64,
}

/// What a [`PaymentClaim`] stands for.
pub struct PaymentClaimView {
    pub id: i64,
    pub link_id: Seq<char>,
    pub payer_address: Seq<char>,
    pub amount: Seq<char>,
    pub tx_hash: Seq<char>,
    pub claimed_at: i64,
}

impl View for PaymentClaim {
    type V = PaymentClaimView;

    open spec fn view(&self) -> PaymentClaimView {
        PaymentClaimView {
            id: self.id,
            link_id: self.link_id@,
            payer_address: self.payer_address@,
            amount: self.amount@,
            tx_hash: self.tx_hash@,
            claimed_at: self.claimed_at,
        }
    }
}

impl Clone for PaymentClaim {
    fn clone(&self) -> (copy: Self)
        ensures
            copy@ == self@,
    {
        PaymentClaim {
            id: self.id,
            link_id: self.link_id.clone(),
            payer_address: self.payer_address.clone(),
            amount: self.amount.clone(),
            tx_hash: self.tx_hash.clone(),
            claimed_at: self.claimed_at,
        }
    }
}

/// What a caller asks for when creating a payment link.
#[derive(Debug)]
pub struct NewPaymentLink {
    pub creator_address: String,
    pub recipient_address: Option<String>,
    pub amount: Option<String>,
    pub description: Option<String>,
    pub expires_in_hours: Option<i64>,
    pub max_claims: Option<i64>,
}

/// What a [`NewPaymentLink`] stands for.
pub struct NewPaymentLinkView {
    pub creator_address: Seq<char>,
    pub recipient_address: Option<Seq<char>>,
    pub amount: Option<Seq<char>>,
    pub description: Option<Seq<char>>,
    pub expires_in_hours: Option<i64>,
    pub max_claims: Option<i64>,
}

impl View for NewPaymentLink {
    type V = NewPaymentLinkView;

    open spec fn view(&self) -> NewPaymentLinkView {
        NewPaymentLinkView {
            creator_address: self.creator_address@,
            recipient_address: text_view(self.recipient_address),
            amount: text_view(self.amount),
            description: text_view(self.description),
            expires_in_hours: self.expires_in_hours,
            max_claims: self.max_claims,
        }
    }
}

/// Where a payment link stands with respect to further claims. The state is
/// derived from the link's fields and the time; it is never stored.
#[derive(Clone, Copy, Debug, PartialEq, Eq, Structural)]
pub enum LinkState {
    /// The link accepts a claim.
    Active,
    /// The link was switched off.
    Inactive,
    /// The link has a positive claim limit and has reached it.
    Exhausted,
    /// The link has an expiry time and it has come.
    Expired,
}

/// The link has a positive claim limit and as many claims as it allows.
pub open spec fn is_exhausted(link: PaymentLinkView) -> bool {
    link.max_claims > 0 && link.claim_count >= link.max_claims
}

/// The link has an expiry time and `now` is not before it.
pub open spec fn is_expired(link: PaymentLinkView, now: i64) -> bool {
    link.expires_at matches Some(at) && now >= at
}

/// The state of a link at time `now`. Where several reasons to refuse a claim
/// hold at once, being switched off comes first and exhaustion second.
pub open spec fn link_state(link: PaymentLinkView, now: i64) -> LinkState {
    if !link.is_active {
        LinkState::Inactive
    } else if is_exhausted(link) {
        LinkState::Exhausted
    } else if is_expired(link, now) {
        LinkState::Expired
    } else {
        LinkState::Active
    }
}

/// When a link created at `now` expires: `hours` hours later, or never if no
/// number of hours is given.
pub open spec fn expiry_time(now: i64, hours: Option<i64>) -> Option<int> {
    match hours {
        Some(h) => Some(now + h * MILLIS_PER_HOUR),
        None => None,
    }
}

/// The expiry time of a link can be held in an `i64`.
pub open spec fn expiry_fits(now: i64, hours: Option<i64>) -> bool {
    expiry_time(now, hours) matches Some(at) ==> i64::MIN <= at <= i64::MAX
}

/// The claim limit of a new link: the one asked for, or 1.
pub open spec fn claim_limit(max_claims: Option<i64>) -> i64 {
    match max_claims {
        Some(limit) => limit,
        None => 1,
    }
}

/// The link that a request creates under `id` at time `now`: no claims yet,
/// active, every other field as requested.
pub open spec fn new_link(id: Seq<char>, request: NewPaymentLinkView, now: i64) -> PaymentLinkView
    recommends
        expiry_fits(now, request.expires_in_hours),
{
    PaymentLinkView {
        id,
        creator_address: request.creator_address,
        recipient_address: request.recipient_address,
        amount: request.amount,
        description: request.description,
        created_at: now,
        expires_at: match expiry_time(now, request.expires_in_hours) {
            Some(at) => Some(at as i64),
            None => None,
        },
        claim_count: 0,
        max_claims: claim_limit(request.max_claims),
        is_active: true,
    }
}

/// Computes when a link created at `now` expires: `hours` hours later, or
/// never if no number of hours is given. A time that cannot be held in an
/// `i64` is refused.
pub fn expires_at(now: i64, hours: Option<i64>) -> (r: Result<Option<i64>, LedgerError>)
    ensures
        r is Ok <==> expiry_fits(now, hours),
        r matches Ok(at) ==> match expiry_time(now, hours) {
            Some(t) => at == Some(t as i64),
            None => at is None,
        },
        r matches Err(e) ==> e == LedgerError::ExpiryOutOfRange,
{
    match hours {
        None => Ok(None),
        Some(h) => {
            let at: i128 = now as i128 + h as i128 * MILLIS_PER_HOUR as i128;
            if at < i64::MIN as i128 || at > i64::MAX as i128 {
                Err(LedgerError::ExpiryOutOfRange)
            } else {
                Ok(Some(at as i64))
            }
        },
    }
}

impl PaymentLink {
    /// The state of the link at time `now`.
    pub fn state(&self, now: i64) -> (state: LinkState)
        ensures
            state == link_state(self@, now),
    {
        if !self.is_active {
            LinkState::Inactive
        } else if self.max_claims > 0 && self.claim_count >= self.max_claims {
            LinkState::Exhausted
        } else {
            match self.expires_at {
                Some(at) => if now >= at {
                    LinkState::Expired
                } else {
                    LinkState::Active
                },
                None => LinkState::Active,
            }
        }
    }
}

/// Why the ledger refused an operation.
#[derive(Clone, Copy, Debug, PartialEq, Eq, Structural)]
pub enum LedgerError {
    /// No payment link has the id asked for.
    NotFound,
    /// The link was switched off.
    Inactive,
    /// The link has reached its claim limit.
    Exhausted,
    /// The link's expiry time has come.
    Expired,
    /// A link with this id exists already; it is left as it is.
    DuplicateId,
    /// The id is not eight symbols of the id alphabet.
    MalformedId,
    /// The link to be stored counts claims already.
    ClaimedLink,
    /// The expiry time asked for cannot be represented.
    ExpiryOutOfRange,
    /// The table cannot number another row.
    StoreFull,
}

/// How each refusal is reported at the boundary.
pub open spec fn error_kind(error: LedgerError) -> ErrorKind {
    match error {
        LedgerError::NotFound => ErrorKind::NotFound,
        LedgerError::Inactive => ErrorKind::Conflict,
        LedgerError::Exhausted => ErrorKind::Conflict,
        LedgerError::Expired => ErrorKind::Conflict,
        LedgerError::DuplicateId => ErrorKind::Internal,
        LedgerError::MalformedId => ErrorKind::BadRequest,
        LedgerError::ClaimedLink => ErrorKind::BadRequest,
        LedgerError::ExpiryOutOfRange => ErrorKind::BadRequest,
        LedgerError::StoreFull => ErrorKind::Internal,
    }
}

impl LedgerError {
    /// The kind this refusal is reported as.
    pub fn kind(&self) -> (kind: ErrorKind)
        ensures
            kind == error_kind(*self),
    {
        match self {
            LedgerError::NotFound => ErrorKind::NotFound,
            LedgerError::Inactive => ErrorKind::Conflict,
            LedgerError::Exhausted => ErrorKind::Conflict,
            LedgerError::Expired => ErrorKind::Conflict,
            LedgerError::DuplicateId => ErrorKind::Internal,
            LedgerError::MalformedId => ErrorKind::BadRequest,
            LedgerError::ClaimedLink => ErrorKind::BadRequest,
            LedgerError::ExpiryOutOfRange => ErrorKind::BadRequest,
            LedgerError::StoreFull => ErrorKind::Internal,
        }
    }
}

} // verus!
