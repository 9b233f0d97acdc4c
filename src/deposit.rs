use vstd::prelude::*;

use crate::pipeline::RelayDecision;
use crate::text::{decimal, decimal_string, parse_u64, parse_u64_spec};

verus! {

/// The fixed top-up amount, in micro-units: 1 USDC.
pub const TOPUP_AMOUNT_MICRO: u64 = 1_000_000;

/// How long a payment authorization may stay open, in seconds.
pub const MAX_TIMEOUT_SECONDS: u64 = 300;

/// The settlement asset's contract on the configured network.
pub const USDC_ASSET: &'static str = "0x036CbD53842c5426634e7929541eC2318f3dCF7e";

/// The single payment option offered with a 402.
pub struct PaymentRequirements {
    pub scheme: String,
    pub network: String,
    /// In micro-units.
    pub max_amount_required: u64,
    pub resource: String,
    pub description: String,
    pub mime_type: String,
    pub pay_to: String,
    pub max_timeout_seconds: u64,
    pub asset: String,
    pub extra_name: String,
    pub extra_version: String,
}

/// The address of the relay endpoint on `port`.
pub open spec fn resource_url(port: u16) -> Seq<char> {
    "http://localhost:"@ + decimal(port as nat) + "/relay"@
}

/// The top-up offer: exactly 1 USDC on base-sepolia to `pay_to`, for the
/// relay endpoint on `port`.
pub fn topup_requirements(port: u16, pay_to: &str) -> (r: PaymentRequirements)
    ensures
        r.scheme@ == "exact"@,
        r.network@ == "base-sepolia"@,
        r.max_amount_required == TOPUP_AMOUNT_MICRO,
        r.resource@ == resource_url(port),
        r.description@ == "Top up your RPC access balance with $1 USDC"@,
        r.mime_type@ == "application/json"@,
        r.pay_to@ == pay_to@,
        r.max_timeout_seconds == MAX_TIMEOUT_SECONDS,
        r.asset@ == USDC_ASSET@,
        r.extra_name@ == "USDC"@,
        r.extra_version@ == "2"@,
{
    let mut resource = "http://localhost:".to_string();
    let p = decimal_string(port as u64);
    resource.append(p.as_str());
    resource.append("/relay");
    PaymentRequirements {
        scheme: "exact".to_string(),
        network: "base-sepolia".to_string(),
        max_amount_required: TOPUP_AMOUNT_MICRO,
        resource,
        description: "Top up your RPC access balance with $1 USDC".to_string(),
        mime_type: "application/json".to_string(),
        pay_to: pay_to.to_string(),
        max_timeout_seconds: MAX_TIMEOUT_SECONDS,
        asset: USDC_ASSET.to_string(),
        extra_name: "USDC".to_string(),
        extra_version: "2".to_string(),
    }
}

/// A verified deposit: who paid, and how many micro-units.
pub struct Deposit {
    pub payer: String,
    pub amount: u64,
}

/// Reads the payer and the amount out of a verified payment's
/// authorization (its `from` and `value` fields); `None`, to be answered
/// with 400, when the payer is missing or empty or the value is missing or
/// not a decimal number.
pub fn deposit_from_authorization(from: Option<&str>, value: Option<&str>) -> (r: Option<Deposit>)
    ensures
        match (from, value) {
            (Some(f), Some(v)) => if f@.len() > 0 && parse_u64_spec(v@) is Some {
                r matches Some(d) && d.payer@ == f@ && d.amount == parse_u64_spec(v@)->Some_0
            } else {
                r is None
            },
            _ => r is None,
        },
{
    match (from, value) {
        (Some(f), Some(v)) => {
            if f.is_empty() {
                return None;
            }
            match parse_u64(v) {
                Some(amount) => Some(Deposit { payer: f.to_string(), amount }),
                None => None,
            }
        },
        _ => None,
    }
}

/// Where a deposit stands between the calls to the facilitator.
pub enum DepositStage {
    /// The envelope is being read and verified.
    Verifying,
    /// Verified; the deposit waits for settlement.
    Settling(Deposit),
    /// Nothing more is asked of the facilitator.
    Done,
}

/// What the facilitator, or the reading of the envelope, reported.
pub enum DepositEvent {
    /// The payment header is missing or does not hold an envelope, for the
    /// given reason.
    EnvelopeRejected { reason: String },
    /// The facilitator did not verify the payment, for the given reason.
    VerifyRejected { reason: String },
    /// The facilitator verified the payment, whose authorization names
    /// these `from` and `value` fields.
    VerifyAccepted { from: Option<String>, value: Option<String> },
    /// The facilitator did not settle the payment.
    SettleRejected,
    /// The facilitator settled the payment.
    SettleAccepted,
}

/// What to do next.
pub enum DepositAction {
    /// Answer the request and stop.
    Respond(RelayDecision),
    /// Ask the facilitator to settle.
    Settle,
    /// Credit the deposit, charge the call, and forward it.
    Credit(Deposit),
}

/// The characters of an optional text.
pub open spec fn text_of(t: Option<String>) -> Option<Seq<char>> {
    match t {
        Some(s) => Some(s@),
        None => None,
    }
}

/// The deposit flow's decisions: a rejected envelope or verification asks
/// for payment again and hands its reason on; a verified payment without payer or amount is a bad
/// request; a verified one is settled, and only a settled one is credited.
pub fn next_deposit_step(stage: DepositStage, event: DepositEvent) -> (r: (
    DepositStage,
    DepositAction,
))
    ensures
        match (stage, event) {
            (DepositStage::Verifying, DepositEvent::EnvelopeRejected { reason }) => r.0 is Done
                && r.1 == DepositAction::Respond(RelayDecision::PaymentRejected(reason)),
            (DepositStage::Verifying, DepositEvent::VerifyRejected { reason }) => r.0 is Done
                && r.1 == DepositAction::Respond(RelayDecision::PaymentRejected(reason)),
            (DepositStage::Verifying, DepositEvent::VerifyAccepted { from, value }) => {
                let f = text_of(from);
                let v = text_of(value);
                if f is Some && f->Some_0.len() > 0 && v is Some && parse_u64_spec(v->Some_0) is Some {
                    r.1 is Settle && (r.0 matches DepositStage::Settling(d) && d.payer@
                        == f->Some_0 && d.amount == parse_u64_spec(v->Some_0)->Some_0)
                } else {
                    r.0 is Done && (r.1 matches DepositAction::Respond(
                        RelayDecision::BadRequest(m),
                    ) && m@ == "Invalid payment format"@)
                }
            },
            (DepositStage::Settling(d), DepositEvent::SettleAccepted) => r.0 is Done && r.1
                == DepositAction::Credit(d),
            (DepositStage::Settling(_), DepositEvent::SettleRejected) => r.0 is Done
                && (r.1 matches DepositAction::Respond(RelayDecision::ServerError(m)) && m@
                == "Payment settlement failed"@),
            _ => r.0 is Done && r.1 matches DepositAction::Respond(RelayDecision::ServerError(_)),
        },
{
    match (stage, event) {
        (DepositStage::Verifying, DepositEvent::EnvelopeRejected { reason }) => (
            DepositStage::Done,
            DepositAction::Respond(RelayDecision::PaymentRejected(reason)),
        ),
        (DepositStage::Verifying, DepositEvent::VerifyRejected { reason }) => (
            DepositStage::Done,
            DepositAction::Respond(RelayDecision::PaymentRejected(reason)),
        ),
        (DepositStage::Verifying, DepositEvent::VerifyAccepted { from, value }) => {
            let found = match (&from, &value) {
                (Some(f), Some(v)) => deposit_from_authorization(Some(f.as_str()), Some(v.as_str())),
                _ => None,
            };
            match found {
                Some(d) => (DepositStage::Settling(d), DepositAction::Settle),
                None => (
                    DepositStage::Done,
                    DepositAction::Respond(
                        RelayDecision::BadRequest("Invalid payment format".to_string()),
                    ),
                ),
            }
        },
        (DepositStage::Settling(d), DepositEvent::SettleAccepted) => (
            DepositStage::Done,
            DepositAction::Credit(d),
        ),
        (DepositStage::Settling(_), DepositEvent::SettleRejected) => (
            DepositStage::Done,
            DepositAction::Respond(RelayDecision::ServerError("Payment settlement failed".to_string())),
        ),
        _ => (
            DepositStage::Done,
            DepositAction::Respond(RelayDecision::ServerError("Deposit event out of order".to_string())),
        ),
    }
}

/// The JSON-RPC error body sent with a 502 when the upstream node cannot be
/// reached (`reading` false) or its answer cannot be read (`reading` true).
pub open spec fn upstream_error_json(reading: bool, detail: Seq<char>) -> Seq<char> {
    "{\"jsonrpc\":\"2.0\",\"error\":{\"code\":-32603,\"message\":\""@ + (if reading {
        "Failed to read node response: "@
    } else {
        "Failed to connect to node: "@
    }) + detail + "\"},\"id\":null}"@
}

/// Builds the JSON-RPC error body for an upstream failure described by
/// `detail`.
pub fn upstream_error_body(reading: bool, detail: &str) -> (r: String)
    ensures
        r@ == upstream_error_json(reading, detail@),
{
    let mut s = "{\"jsonrpc\":\"2.0\",\"error\":{\"code\":-32603,\"message\":\"".to_string();
    if reading {
        s.append("Failed to read node response: ");
    } else {
        s.append("Failed to connect to node: ");
    }
    s.append(detail);
    s.append("\"},\"id\":null}");
    s
}

} // verus!
