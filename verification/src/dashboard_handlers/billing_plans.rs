//! Billing plans: request and response bodies, how a plan request becomes
//! the store's input, and how the store's refusals are answered.
use vstd::prelude::*;
use crate::error::{app_error, AppError, STATUS_BAD_REQUEST, STATUS_CONFLICT, STATUS_FORBIDDEN, STATUS_INTERNAL_SERVER_ERROR, STATUS_NOT_FOUND, STATUS_PAYMENT_REQUIRED};
use crate::text::{chars_of, eq_lit, string_of};
use crate::users::{BillingPlanInput, BillingPlanPriceInput};

verus! {

/// One price of a plan in a request: nano-USD or USD text, and a duration.
#[derive(Clone, Debug)]
pub struct BillingPlanPriceRequest {
    pub price_nano_usd: Option<String>,
    pub price_usd: Option<String>,
    pub duration_seconds: i64,
}

/// Body of a request to create or replace a billing plan.
#[derive(Clone, Debug)]
pub struct CreateBillingPlanRequest {
    pub name: String,
    pub description: String,
    pub limit_5h_nano_usd: Option<String>,
    pub limit_24h_nano_usd: Option<String>,
    pub limit_7d_nano_usd: Option<String>,
    pub limit_30d_nano_usd: Option<String>,
    pub group_ids: Vec<String>,
    pub multiplier: String,
    pub listed: bool,
    pub prices: Vec<BillingPlanPriceRequest>,
}

/// One price of a plan as the dashboard shows it.
#[derive(Clone, Debug)]
pub struct BillingPlanPriceResponse {
    pub id: String,
    pub price_nano_usd: String,
    pub price_usd: String,
    pub duration_seconds: i64,
    pub created_at: String,
}

/// A billing plan as the dashboard shows it.
#[derive(Clone, Debug)]
pub struct BillingPlanResponse {
    pub id: String,
    pub name: String,
    pub description: String,
    pub limit_5h_nano_usd: Option<String>,
    pub limit_24h_nano_usd: Option<String>,
    pub limit_7d_nano_usd: Option<String>,
    pub limit_30d_nano_usd: Option<String>,
    pub group_ids: Vec<String>,
    pub multiplier: String,
    pub listed: bool,
    pub prices: Vec<BillingPlanPriceResponse>,
    pub created_at: String,
    pub updated_at: String,
}

/// Body of a request to buy a plan at one of its prices.
#[derive(Clone, Debug)]
pub struct PurchaseBillingPlanRequest {
    pub price_id: String,
}

/// The multiplier of a plan whose request names none: `"1"`.
pub fn default_multiplier() -> (r: String)
    ensures
        r@ == "1"@,
{
    string_of("1")
}

/// The price request carried over unchanged into the store's input.
pub open spec fn price_carried(req: BillingPlanPriceRequest, input: BillingPlanPriceInput) -> bool {
    &&& input.price_nano_usd == req.price_nano_usd
    &&& input.price_usd == req.price_usd
    &&& input.duration_seconds == req.duration_seconds
}

/// The store's input for a plan request: every field carried over as it is.
pub fn plan_input(body: CreateBillingPlanRequest) -> (r: BillingPlanInput)
    ensures
        r.name == body.name,
        r.description == body.description,
        r.limit_5h_nano_usd == body.limit_5h_nano_usd,
        r.limit_24h_nano_usd == body.limit_24h_nano_usd,
        r.limit_7d_nano_usd == body.limit_7d_nano_usd,
        r.limit_30d_nano_usd == body.limit_30d_nano_usd,
        r.group_ids == body.group_ids,
        r.multiplier == body.multiplier,
        r.listed == body.listed,
        r.prices@.len() == body.prices@.len(),
        forall|i: int| 0 <= i < r.prices@.len() ==> #[trigger] price_carried(body.prices@[i], r.prices@[i]),
{
    let ghost initial = body.prices@;
    let CreateBillingPlanRequest {
        name,
        description,
        limit_5h_nano_usd,
        limit_24h_nano_usd,
        limit_7d_nano_usd,
        limit_30d_nano_usd,
        group_ids,
        multiplier,
        listed,
        prices,
    } = body;
    let mut rest = prices;
    let mut out: Vec<BillingPlanPriceInput> = Vec::new();
    while rest.len() > 0
        invariant
            out@.len() + rest@.len() == initial.len(),
            rest@ == initial.skip(out@.len() as int),
            forall|i: int| 0 <= i < out@.len() ==> #[trigger] price_carried(initial[i], out@[i]),
        decreases rest@.len(),
    {
        let price = rest.remove(0);
        proof {
            assert(price == initial[out@.len() as int]);
        }
        out.push(BillingPlanPriceInput {
            price_nano_usd: price.price_nano_usd,
            price_usd: price.price_usd,
            duration_seconds: price.duration_seconds,
        });
        proof {
            assert(rest@ =~= initial.skip(out@.len() as int));
        }
    }
    BillingPlanInput {
        name,
        description,
        limit_5h_nano_usd,
        limit_24h_nano_usd,
        limit_7d_nano_usd,
        limit_30d_nano_usd,
        group_ids,
        multiplier,
        listed,
        prices: out,
    }
}

/// Whether `e` is one of the validation failures the store reports with the
/// failure's own name as code and message.
pub open spec fn is_plan_validation_error(e: Seq<char>) -> bool {
    ||| e == "invalid_plan_name"@
    ||| e == "invalid_plan_description"@
    ||| e == "invalid_plan_limits"@
    ||| e == "invalid_plan_groups"@
    ||| e == "invalid_plan_multiplier"@
    ||| e == "invalid_plan_prices"@
}

/// The status, code and message answered for a billing-plan store error.
pub open spec fn plan_error_answer(e: Seq<char>) -> (u16, Seq<char>, Seq<char>) {
    if e == "plan_name_exists"@ {
        (409, "plan_name_exists"@, "a billing plan with this name already exists"@)
    } else if is_plan_validation_error(e) {
        (400, e, e)
    } else if e == "not_found"@ {
        (404, "not_found"@, "plan not found"@)
    } else if e == "plan_not_available"@ {
        (409, "plan_not_available"@, "billing plan or price is not available"@)
    } else if e == "active_subscription_exists"@ {
        (409, "active_subscription_exists"@, "an active billing plan subscription already exists"@)
    } else if e == "insufficient_balance"@ {
        (402, "insufficient_balance"@, "insufficient prepaid balance"@)
    } else if e == "user_disabled"@ {
        (403, "user_disabled"@, "user is disabled"@)
    } else {
        (500, "internal_error"@, e)
    }
}

/// The API error answered for a billing-plan store error.
pub fn map_plan_error(error: String) -> (r: AppError)
    ensures
        r.status == plan_error_answer(error@).0,
        r.code@ == plan_error_answer(error@).1,
        r.message@ == plan_error_answer(error@).2,
{
    let e = chars_of(error.as_str());
    if eq_lit(&e, "plan_name_exists") {
        app_error(STATUS_CONFLICT, "plan_name_exists", "a billing plan with this name already exists")
    } else if eq_lit(&e, "invalid_plan_name") || eq_lit(&e, "invalid_plan_description") || eq_lit(
        &e,
        "invalid_plan_limits",
    ) || eq_lit(&e, "invalid_plan_groups") || eq_lit(&e, "invalid_plan_multiplier") || eq_lit(
        &e,
        "invalid_plan_prices",
    ) {
        AppError::new(STATUS_BAD_REQUEST, error.clone(), error)
    } else if eq_lit(&e, "not_found") {
        app_error(STATUS_NOT_FOUND, "not_found", "plan not found")
    } else if eq_lit(&e, "plan_not_available") {
        app_error(STATUS_CONFLICT, "plan_not_available", "billing plan or price is not available")
    } else if eq_lit(&e, "active_subscription_exists") {
        app_error(STATUS_CONFLICT, "active_subscription_exists", "an active billing plan subscription already exists")
    } else if eq_lit(&e, "insufficient_balance") {
        app_error(STATUS_PAYMENT_REQUIRED, "insufficient_balance", "insufficient prepaid balance")
    } else if eq_lit(&e, "user_disabled") {
        app_error(STATUS_FORBIDDEN, "user_disabled", "user is disabled")
    } else {
        AppError::new(STATUS_INTERNAL_SERVER_ERROR, string_of("internal_error"), error)
    }
}

} // verus!
