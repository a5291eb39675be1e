//! The gateway's per-route decision logic: classification of upstream
//! responses, the checkout form body, the webhook route's dispatch, and the
//! configuration defaults. Transport and JSON envelope shaping stay outside
//! this crate; every decision that orders or rejects work is made here.

use vstd::prelude::*;
use vstd::string::StrSliceExecFns;
use vstd::string::StringExecFns;
use vstd::string::StringSliceAdditionalSpecFns;

use crate::catalog::StripeCheckoutSession;
use crate::encoding::form_encoding;
use crate::error::ApiError;
use crate::webhook::timing_safe_eq;

verus! {

// --- Decimal rendering of status codes for error messages ---

/// The character of a decimal digit value.
pub open spec fn digit_char(d: int) -> char {
    if d == 0 {
        '0'
    } else if d == 1 {
        '1'
    } else if d == 2 {
        '2'
    } else if d == 3 {
        '3'
    } else if d == 4 {
        '4'
    } else if d == 5 {
        '5'
    } else if d == 6 {
        '6'
    } else if d == 7 {
        '7'
    } else if d == 8 {
        '8'
    } else {
        '9'
    }
}

/// The decimal digits of `n >= 0` as characters, most significant first.
pub open spec fn dec_chars(n: int) -> Seq<char>
    decreases n,
{
    if n < 10 {
        seq![digit_char(n)]
    } else {
        dec_chars(n / 10) + seq![digit_char(n % 10)]
    }
}

fn append_digit_char(s: &mut String, d: u16)
    requires
        d < 10,
    ensures
        final(s)@ == old(s)@ + seq![digit_char(d as int)],
{
    if d == 0 {
        s.append("0");
        proof {
            reveal_strlit("0");
        }
    } else if d == 1 {
        s.append("1");
        proof {
            reveal_strlit("1");
        }
    } else if d == 2 {
        s.append("2");
        proof {
            reveal_strlit("2");
        }
    } else if d == 3 {
        s.append("3");
        proof {
            reveal_strlit("3");
        }
    } else if d == 4 {
        s.append("4");
        proof {
            reveal_strlit("4");
        }
    } else if d == 5 {
        s.append("5");
        proof {
            reveal_strlit("5");
        }
    } else if d == 6 {
        s.append("6");
        proof {
            reveal_strlit("6");
        }
    } else if d == 7 {
        s.append("7");
        proof {
            reveal_strlit("7");
        }
    } else if d == 8 {
        s.append("8");
        proof {
            reveal_strlit("8");
        }
    } else {
        s.append("9");
        proof {
            reveal_strlit("9");
        }
    }
    proof {
        assert(final(s)@ =~= old(s)@ + seq![digit_char(d as int)]);
    }
}

/// Append the decimal digits of `n` to `s`.
pub fn append_u16_chars(s: &mut String, n: u16)
    ensures
        final(s)@ == old(s)@ + dec_chars(n as int),
    decreases n,
{
    if n >= 10 {
        append_u16_chars(s, n / 10);
    }
    append_digit_char(s, n % 10);
    proof {
        assert(final(s)@ =~= old(s)@ + dec_chars(n as int));
    }
}

// --- Upstream response classification ---

/// Classify a billing-provider response: any status of 400 or above is an
/// upstream error whose message embeds the operation, the path, the status
/// and the provider's body verbatim; anything below 400 is success.
pub fn classify_upstream_response(op: &str, path: &str, status: u16, body: &str) -> (r: Result<
    (),
    ApiError,
>)
    ensures
        status < 400 <==> r is Ok,
        status >= 400 ==> (r matches Err(ApiError::Internal(m)) && m@ == ("Stripe ")@ + op@ + (
        " ")@ + path@ + (" failed: ")@ + dec_chars(status as int) + (" ")@ + body@),
{
    if status < 400 {
        Ok(())
    } else {
        let mut m = String::from_str("Stripe ");
        m.append(op);
        m.append(" ");
        m.append(path);
        m.append(" failed: ");
        append_u16_chars(&mut m, status);
        m.append(" ");
        m.append(body);
        Err(ApiError::Internal(m))
    }
}

// --- The checkout route's request body ---

/// The redirect target after a completed checkout, under the application's
/// base URL.
pub open spec fn checkout_success_url(base: Seq<u8>) -> Seq<u8> {
    base + ("/pricing?checkout=success&session_id={CHECKOUT_SESSION_ID}").spec_bytes()
}

/// The redirect target after an abandoned checkout.
pub open spec fn checkout_cancel_url(base: Seq<u8>) -> Seq<u8> {
    base + ("/pricing").spec_bytes()
}

/// The form fields of a checkout-session request: a card subscription for
/// the given price, one unit, tagged with the caller as reference, with
/// promotion codes allowed and a 14-day trial.
pub open spec fn checkout_session_fields(
    price_id: Seq<u8>,
    user_id: Seq<u8>,
    base_url: Seq<u8>,
) -> Seq<(Seq<u8>, Seq<u8>)> {
    seq![
        (("payment_method_types[]").spec_bytes(), ("card").spec_bytes()),
        (("line_items[0][price]").spec_bytes(), price_id),
        (("line_items[0][quantity]").spec_bytes(), ("1").spec_bytes()),
        (("mode").spec_bytes(), ("subscription").spec_bytes()),
        (("success_url").spec_bytes(), checkout_success_url(base_url)),
        (("cancel_url").spec_bytes(), checkout_cancel_url(base_url)),
        (("client_reference_id").spec_bytes(), user_id),
        (("allow_promotion_codes").spec_bytes(), ("true").spec_bytes()),
        (("subscription_data[trial_period_days]").spec_bytes(), ("14").spec_bytes()),
    ]
}

/// Build the form-encoded body of a checkout-session request.
pub fn checkout_form_body(price_id: &[u8], user_id: &[u8], base_url: &[u8]) -> (r: Vec<u8>)
    ensures
        r@ == form_encoding(checkout_session_fields(price_id@, user_id@, base_url@)),
{
    let mut success_url = vstd::slice::slice_to_vec(base_url);
    let mut tail = ("/pricing?checkout=success&session_id={CHECKOUT_SESSION_ID}").as_bytes_vec();
    success_url.append(&mut tail);
    let mut cancel_url = vstd::slice::slice_to_vec(base_url);
    let mut tail2 = ("/pricing").as_bytes_vec();
    cancel_url.append(&mut tail2);

    let mut fields: Vec<(Vec<u8>, Vec<u8>)> = Vec::new();
    fields.push((("payment_method_types[]").as_bytes_vec(), ("card").as_bytes_vec()));
    fields.push((("line_items[0][price]").as_bytes_vec(), vstd::slice::slice_to_vec(price_id)));
    fields.push((("line_items[0][quantity]").as_bytes_vec(), ("1").as_bytes_vec()));
    fields.push((("mode").as_bytes_vec(), ("subscription").as_bytes_vec()));
    fields.push((("success_url").as_bytes_vec(), success_url));
    fields.push((("cancel_url").as_bytes_vec(), cancel_url));
    fields.push((("client_reference_id").as_bytes_vec(), vstd::slice::slice_to_vec(user_id)));
    fields.push((("allow_promotion_codes").as_bytes_vec(), ("true").as_bytes_vec()));
    fields.push(
        (("subscription_data[trial_period_days]").as_bytes_vec(), ("14").as_bytes_vec()),
    );
    proof {
        assert(crate::encoding::fields_view(fields@) =~= checkout_session_fields(
            price_id@,
            user_id@,
            base_url@,
        ));
    }
    crate::encoding::encode_form(&fields)
}

/// The response body of a successful checkout call must carry the redirect
/// URL; this picks it out, or reports the session as unusable.
pub fn checkout_redirect_url(session: &StripeCheckoutSession) -> (r: Option<&String>)
    ensures
        r is Some <==> session.url is Some,
        r is Some ==> r.unwrap()@ == session.url.unwrap()@,
{
    match &session.url {
        Some(u) => Some(u),
        None => None,
    }
}

// --- Configuration defaults ---

/// The application base URL: the configured value, or the local development
/// URL when none is set.
pub fn app_base_url_or_default(configured: Option<String>) -> (r: String)
    ensures
        configured matches Some(u) ==> r@ == u@,
        configured is None ==> r@ == ("http://localhost:5285")@,
{
    match configured {
        Some(u) => u,
        None => String::from_str("http://localhost:5285"),
    }
}

/// The billing-portal route's stub error: the feature awaits a storage
/// collaborator.
pub fn portal_not_implemented() -> (e: ApiError)
    ensures
        e matches ApiError::Internal(m) && m@ == ("Billing portal not yet implemented")@,
{
    ApiError::Internal(String::from_str("Billing portal not yet implemented"))
}

// --- The webhook route's dispatch ---

/// What the webhook route does with a verified event.
#[derive(Debug, PartialEq, Eq)]
pub enum WebhookAction {
    /// A subscription lifecycle event: the subscription status is to be
    /// updated by the (future) persistence collaborator.
    UpdateSubscription,
    /// Any other event type: accepted and ignored, for forward
    /// compatibility with new event types.
    Ignore,
}

/// The action for an event type: subscription updates and deletions are
/// recognized, everything else is accepted and ignored.
pub open spec fn spec_webhook_action(event_type: Seq<u8>) -> WebhookAction {
    if event_type == ("customer.subscription.updated").spec_bytes() || event_type == (
    "customer.subscription.deleted").spec_bytes() {
        WebhookAction::UpdateSubscription
    } else {
        WebhookAction::Ignore
    }
}

/// Decide what to do with a verified event of the given type.
pub fn webhook_event_action(event_type: &[u8]) -> (a: WebhookAction)
    ensures
        a == spec_webhook_action(event_type@),
{
    if timing_safe_eq(event_type, ("customer.subscription.updated").as_bytes())
        || timing_safe_eq(event_type, ("customer.subscription.deleted").as_bytes()) {
        WebhookAction::UpdateSubscription
    } else {
        WebhookAction::Ignore
    }
}

/// The webhook route's whole decision, taken only after signature
/// verification: a verification error propagates unchanged, a false verdict
/// is an invalid-signature request error, an unparseable event body (handed
/// in as no event type) is a request error, and a verified event maps to its
/// action. Verification strictly precedes any reading of the body: no action
/// is produced unless the verdict was a definite yes.
pub fn webhook_disposition(verdict: Result<bool, ApiError>, event_type: Option<Vec<u8>>) -> (r:
    Result<WebhookAction, ApiError>)
    ensures
        verdict matches Err(e) ==> (r matches Err(e2) && e2 == e),
        verdict == Ok::<bool, ApiError>(false) ==> (r matches Err(ApiError::BadRequest(m)) && m@
            == ("Invalid signature")@),
        verdict == Ok::<bool, ApiError>(true) && event_type is None ==> (r matches Err(
        ApiError::BadRequest(m)) && m@ == ("Invalid event payload")@),
        (verdict == Ok::<bool, ApiError>(true) && event_type is Some) ==> r == Ok::<
            WebhookAction,
            ApiError,
        >(spec_webhook_action(event_type.unwrap()@)),
{
    match verdict {
        Err(e) => Err(e),
        Ok(false) => Err(ApiError::BadRequest(String::from_str("Invalid signature"))),
        Ok(true) => match event_type {
            None => Err(ApiError::BadRequest(String::from_str("Invalid event payload"))),
            Some(t) => Ok(webhook_event_action(t.as_slice())),
        },
    }
}

} // verus!
