use vstd::prelude::*;

use crate::auth::{auth_verdict, verify_signature, AuthError};
use crate::database::{Database, DatabaseTrait};
use crate::ledger::{
    after_credit, after_debit, credit_fits, debit_allowed, record_or_fresh, DatabaseError,
};
use crate::signature_cache::{is_live, live_part, SignatureCache};
use crate::text::{decimal, decimal_string, lower_of, parse_u64, parse_u64_spec};

verus! {

/// The authentication headers of a request: the address exactly as sent,
/// the hex signature, and the unix timestamp.
pub struct AuthHeaders {
    pub address: String,
    pub signature: String,
    pub timestamp: u64,
}

/// Where an inbound request goes.
pub enum Admission {
    /// It carries a payment: the deposit flow.
    Deposit,
    /// It carries complete authentication headers.
    Authenticated(AuthHeaders),
    /// It carries neither: payment is required.
    MissingAuth,
}

/// Routes a request by its headers: a payment header wins; otherwise the
/// address, signature and a decimal timestamp must all be present.
pub fn classify_request(
    has_payment: bool,
    address: Option<&str>,
    signature: Option<&str>,
    timestamp: Option<&str>,
) -> (r: Admission)
    ensures
        has_payment ==> r is Deposit,
        !has_payment ==> match (address, signature, timestamp) {
            (Some(a), Some(s), Some(t)) => match parse_u64_spec(t@) {
                Some(ts) => r matches Admission::Authenticated(h) && h.address@ == a@
                    && h.signature@ == s@ && h.timestamp == ts,
                None => r is MissingAuth,
            },
            _ => r is MissingAuth,
        },
{
    if has_payment {
        return Admission::Deposit;
    }
    match (address, signature, timestamp) {
        (Some(a), Some(s), Some(t)) => match parse_u64(t) {
            Some(ts) => Admission::Authenticated(
                AuthHeaders { address: a.to_string(), signature: s.to_string(), timestamp: ts },
            ),
            None => Admission::MissingAuth,
        },
        _ => Admission::MissingAuth,
    }
}

/// The answer to an inbound request.
#[derive(Debug, PartialEq, Eq)]
pub enum RelayDecision {
    /// Pass the body to the upstream node and return its answer.
    Forward,
    /// 402 with the payment requirements.
    PaymentRequired,
    /// 402 with the payment requirements and the reason a payment was
    /// refused.
    PaymentRejected(String),
    /// 401 with a reason.
    Unauthorized(String),
    /// 400 with a reason.
    BadRequest(String),
    /// 500 with a reason.
    ServerError(String),
}

impl RelayDecision {
    /// The HTTP status of the answer (200 for a forward, which the upstream
    /// node may replace with its own).
    pub fn status(&self) -> (r: u16)
        ensures
            r == match self {
                RelayDecision::Forward => 200u16,
                RelayDecision::PaymentRequired => 402u16,
                RelayDecision::PaymentRejected(_) => 402u16,
                RelayDecision::Unauthorized(_) => 401u16,
                RelayDecision::BadRequest(_) => 400u16,
                RelayDecision::ServerError(_) => 500u16,
            },
    {
        match self {
            RelayDecision::Forward => 200,
            RelayDecision::PaymentRequired => 402,
            RelayDecision::PaymentRejected(_) => 402,
            RelayDecision::Unauthorized(_) => 401,
            RelayDecision::BadRequest(_) => 400,
            RelayDecision::ServerError(_) => 500,
        }
    }
}

/// The reason given for a replayed signature.
pub open spec fn replay_reason() -> Seq<char> {
    "Replay detected: signature already used"@
}

/// The reason given for a failed authentication.
pub open spec fn auth_failure_reason(e: AuthError) -> Seq<char> {
    "Authentication failed: "@ + match e {
        AuthError::TimestampDrift(d) => "Timestamp outside window: "@ + decimal(d as nat)
            + " seconds drift"@,
        AuthError::BadSignatureFormat => "Invalid signature format"@,
        AuthError::RecoveryFailed => "Failed to recover address"@,
        AuthError::BadAddressFormat => "Invalid address format"@,
        AuthError::AddressMismatch => "Signature verification failed: address mismatch"@,
    }
}

/// The human-readable reason for `e`, as sent with a 401.
pub fn auth_failure_message(e: &AuthError) -> (r: String)
    ensures
        r@ == auth_failure_reason(*e),
{
    let mut s = "Authentication failed: ".to_string();
    match e {
        AuthError::TimestampDrift(d) => {
            s.append("Timestamp outside window: ");
            let n = decimal_string(*d);
            s.append(n.as_str());
            s.append(" seconds drift");
        },
        AuthError::BadSignatureFormat => s.append("Invalid signature format"),
        AuthError::RecoveryFailed => s.append("Failed to recover address"),
        AuthError::BadAddressFormat => s.append("Invalid address format"),
        AuthError::AddressMismatch => s.append("Signature verification failed: address mismatch"),
    }
    s
}

/// The checks of the authenticated flow that come before the charge, at
/// `now_secs` on the wall clock (unix seconds) and `cache_now` on the cache's
/// clock: a replayed signature, then a signature that does not authorize the
/// request, are answered with 401. `None` means the request may be charged.
/// The cache only drops its expired entries.
pub fn check_before_debit(
    cache: &mut SignatureCache,
    auth: &AuthHeaders,
    body: &[u8],
    now_secs: u64,
    cache_now: u64,
) -> (r: Option<RelayDecision>)
    requires
        old(cache).wf(),
    ensures
        final(cache).wf(),
        final(cache).ttl_spec() == old(cache).ttl_spec(),
        final(cache)@ == live_part(old(cache)@, cache_now, old(cache).ttl_spec()),
        ({
            let seen = old(cache)@;
            let replay = seen.contains_key(auth.signature@) && is_live(
                seen[auth.signature@],
                cache_now,
                old(cache).ttl_spec(),
            );
            let verdict = auth_verdict(
                auth.address@,
                auth.signature@,
                auth.timestamp,
                body@,
                now_secs,
            );
            if replay {
                r matches Some(RelayDecision::Unauthorized(m)) && m@ == replay_reason()
            } else if verdict is Err {
                r matches Some(RelayDecision::Unauthorized(m)) && m@ == auth_failure_reason(
                    verdict->Err_0,
                )
            } else {
                r is None
            }
        }),
{
    if cache.is_replay_at(auth.signature.as_str(), cache_now) {
        return Some(RelayDecision::Unauthorized("Replay detected: signature already used".to_string()));
    }
    match verify_signature(
        auth.address.as_str(),
        auth.signature.as_str(),
        auth.timestamp,
        body,
        now_secs,
    ) {
        Err(e) => Some(RelayDecision::Unauthorized(auth_failure_message(&e))),
        Ok(()) => None,
    }
}

/// The end of the authenticated flow, once the ledger answered the charge:
/// a successful charge remembers the signature at `cache_now` and forwards the
/// request; any failure of the ledger asks for payment and remembers
/// nothing.
pub fn finish_after_debit(
    cache: &mut SignatureCache,
    signature: &str,
    debit: &Result<u64, DatabaseError>,
    cache_now: u64,
) -> (r: RelayDecision)
    requires
        old(cache).wf(),
    ensures
        final(cache).wf(),
        final(cache).ttl_spec() == old(cache).ttl_spec(),
        debit is Ok ==> r == RelayDecision::Forward && final(cache)@ == old(cache)@.insert(
            signature@,
            cache_now,
        ),
        debit is Err ==> r == RelayDecision::PaymentRequired && final(cache)@ == old(cache)@,
{
    match debit {
        Ok(_) => {
            cache.add_at(signature, cache_now);
            RelayDecision::Forward
        },
        Err(_) => RelayDecision::PaymentRequired,
    }
}

/// The gateway's state: the replay cache, a ledger backend, and the price
/// of one call in micro-units.
pub struct Gateway<L> {
    cache: SignatureCache,
    ledger: L,
    price: u64,
}

impl Gateway<Database> {
    /// A gateway with an empty cache and an empty in-memory ledger, charging
    /// `price` micro-units per call.
    pub fn new(price: u64) -> (r: Gateway<Database>)
        ensures
            r.wf(),
            r.cache_spec()@ == Map::<Seq<char>, u64>::empty(),
            r.cache_spec().ttl_spec() == crate::signature_cache::DEFAULT_TTL_MS,
            r.ledger_spec().records() == Map::<Seq<char>, crate::ledger::UserData>::empty(),
            r.ledger_spec().infallible(),
            r.price_spec() == price,
    {
        Gateway::with_ledger(Database::new(), price)
    }
}

impl<L: DatabaseTrait> Gateway<L> {
    pub open spec fn wf(&self) -> bool {
        self.cache_spec().wf() && self.ledger_spec().valid()
    }

    pub closed spec fn cache_spec(&self) -> SignatureCache {
        self.cache
    }

    pub closed spec fn ledger_spec(&self) -> L {
        self.ledger
    }

    pub closed spec fn price_spec(&self) -> u64 {
        self.price
    }

    /// A gateway with an empty cache over `ledger`, charging `price`
    /// micro-units per call.
    pub fn with_ledger(ledger: L, price: u64) -> (r: Gateway<L>)
        requires
            ledger.valid(),
        ensures
            r.wf(),
            r.cache_spec()@ == Map::<Seq<char>, u64>::empty(),
            r.cache_spec().ttl_spec() == crate::signature_cache::DEFAULT_TTL_MS,
            r.ledger_spec() == ledger,
            r.price_spec() == price,
    {
        Gateway { cache: SignatureCache::new(), ledger, price }
    }

    pub fn price(&self) -> (r: u64)
        ensures
            r == self.price_spec(),
    {
        self.price
    }

    pub fn ledger(&self) -> (r: &L)
        ensures
            *r == self.ledger_spec(),
    {
        &self.ledger
    }

    pub fn cache(&self) -> (r: &SignatureCache)
        ensures
            *r == self.cache_spec(),
    {
        &self.cache
    }

    /// The authenticated flow, at `now_secs` on the wall clock (unix seconds)
    /// and `cache_now` on the cache's clock: reject a
    /// replayed signature, then a signature that does not authorize the
    /// request, then charge the price to the address; only once the charge
    /// succeeded is the signature remembered and the request forwarded. A
    /// failed charge asks for payment; with a ledger that cannot fail on its
    /// own, the charge fails exactly when the balance does not cover it.
    pub fn handle_authenticated(
        &mut self,
        auth: &AuthHeaders,
        body: &[u8],
        now_secs: u64,
        cache_now: u64,
    ) -> (r: RelayDecision)
        requires
            old(self).wf(),
        ensures
            final(self).wf(),
            final(self).price_spec() == old(self).price_spec(),
            final(self).cache_spec().ttl_spec() == old(self).cache_spec().ttl_spec(),
            final(self).ledger_spec().infallible() == old(self).ledger_spec().infallible(),
            ({
                let seen = old(self).cache_spec()@;
                let ttl = old(self).cache_spec().ttl_spec();
                let cleaned = live_part(seen, cache_now, ttl);
                let replay = seen.contains_key(auth.signature@) && is_live(
                    seen[auth.signature@],
                    cache_now,
                    ttl,
                );
                let verdict = auth_verdict(
                    auth.address@,
                    auth.signature@,
                    auth.timestamp,
                    body@,
                    now_secs,
                );
                let before = old(self).ledger_spec().records();
                let after = final(self).ledger_spec().records();
                let key = lower_of(auth.address@);
                let prev = record_or_fresh(before, key);
                let price = old(self).price_spec();
                if replay {
                    &&& r == RelayDecision::Unauthorized(r->Unauthorized_0)
                    &&& r->Unauthorized_0@ == replay_reason()
                    &&& final(self).cache_spec()@ == cleaned
                    &&& after == before
                } else if verdict is Err {
                    &&& r == RelayDecision::Unauthorized(r->Unauthorized_0)
                    &&& r->Unauthorized_0@ == auth_failure_reason(verdict->Err_0)
                    &&& final(self).cache_spec()@ == cleaned
                    &&& after == before
                } else {
                    &&& r == RelayDecision::Forward || r == RelayDecision::PaymentRequired
                    &&& r == RelayDecision::Forward ==> debit_allowed(prev, price)
                        && final(self).cache_spec()@ == cleaned.insert(auth.signature@, cache_now)
                        && after == before.insert(key, after_debit(prev, price, auth.timestamp))
                    &&& r == RelayDecision::PaymentRequired ==> final(self).cache_spec()@
                        == cleaned && after == before
                    &&& !debit_allowed(prev, price) ==> r == RelayDecision::PaymentRequired
                    &&& old(self).ledger_spec().infallible() && debit_allowed(prev, price) ==> r
                        == RelayDecision::Forward
                }
            }),
    {
        match check_before_debit(&mut self.cache, auth, body, now_secs, cache_now) {
            Some(refusal) => refusal,
            None => {
                let debit = self.ledger.deduct_balance(
                    auth.address.as_str(),
                    self.price,
                    auth.timestamp,
                );
                finish_after_debit(&mut self.cache, auth.signature.as_str(), &debit, cache_now)
            },
        }
    }

    /// The bookkeeping of a verified and settled deposit of `amount`
    /// micro-units by `payer`, at `now_secs`: credit the amount, then charge
    /// this call's price, whose failure does not stop the request. A failed
    /// credit is a server error; otherwise the request is forwarded. With a
    /// ledger that cannot fail on its own, the credit fails exactly when the
    /// balance would overflow, and the charge exactly when the credited
    /// balance does not cover the price.
    pub fn apply_deposit(&mut self, payer: &str, amount: u64, now_secs: u64) -> (r: RelayDecision)
        requires
            old(self).wf(),
        ensures
            final(self).wf(),
            final(self).price_spec() == old(self).price_spec(),
            final(self).cache_spec() == old(self).cache_spec(),
            final(self).ledger_spec().infallible() == old(self).ledger_spec().infallible(),
            ({
                let before = old(self).ledger_spec().records();
                let after = final(self).ledger_spec().records();
                let key = lower_of(payer@);
                let prev = record_or_fresh(before, key);
                let credited = after_credit(prev, amount);
                let price = old(self).price_spec();
                &&& r == RelayDecision::Forward || r is ServerError
                &&& r is ServerError ==> after == before
                &&& r == RelayDecision::Forward ==> credit_fits(prev, amount) && (after
                    == before.insert(key, credited) || debit_allowed(credited, price) && after
                    == before.insert(key, after_debit(credited, price, now_secs)))
                &&& !credit_fits(prev, amount) ==> r is ServerError
                &&& old(self).ledger_spec().infallible() && credit_fits(prev, amount) ==> r
                    == RelayDecision::Forward && (debit_allowed(credited, price) ==> after
                    == before.insert(key, after_debit(credited, price, now_secs))) && (
                !debit_allowed(credited, price) ==> after == before.insert(key, credited))
            }),
    {
        match self.ledger.add_balance(payer, amount) {
            Err(e) => {
                let detail = match e {
                    DatabaseError::BalanceOverflow { has, add } => {
                        let mut s = "Failed to process payment: balance ".to_string();
                        let h = decimal_string(has);
                        s.append(h.as_str());
                        s.append(" cannot take a credit of ");
                        let a = decimal_string(add);
                        s.append(a.as_str());
                        s
                    },
                    _ => "Failed to process payment".to_string(),
                };
                RelayDecision::ServerError(detail)
            },
            Ok(_) => {
                let ghost mid = self.ledger.records();
                let _ = self.ledger.deduct_balance(payer, self.price, now_secs);
                proof {
                    let key = lower_of(payer@);
                    let credited = after_credit(
                        record_or_fresh(old(self).ledger.records(), key),
                        amount,
                    );
                    assert(record_or_fresh(mid, key) == credited);
                    assert(mid.insert(key, after_debit(credited, self.price, now_secs))
                        =~= old(self).ledger.records().insert(
                        key,
                        after_debit(credited, self.price, now_secs),
                    ));
                }
                RelayDecision::Forward
            },
        }
    }
}

/// A signature whose request was forwarded at `forwarded_at` is refused as
/// a replay by the next check at any `now` within the time to live: no
/// signature is accepted twice within its time to live.
pub proof fn lemma_forwarded_signature_refused_within_ttl(
    seen: Map<Seq<char>, u64>,
    signature: Seq<char>,
    forwarded_at: u64,
    now: u64,
    ttl: u64,
)
    requires
        is_live(forwarded_at, now, ttl),
    ensures
        ({
            let after = live_part(seen, forwarded_at, ttl).insert(signature, forwarded_at);
            after.contains_key(signature) && is_live(after[signature], now, ttl)
        }),
{
}

} // verus!
