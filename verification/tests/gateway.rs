use billing_gateway::auth::{classify_identity_response, extract_bearer_token, missing_credential_error};
use billing_gateway::gateway::{
    app_base_url_or_default, checkout_form_body, classify_upstream_response, portal_not_implemented,
    webhook_disposition, webhook_event_action, WebhookAction,
};
use billing_gateway::webhook::{sign_payload, verify_webhook_signature};
use billing_gateway::ApiError;

#[test]
fn bearer_token_extraction() {
    assert_eq!(extract_bearer_token(b"Bearer abc"), Some(b"abc".to_vec()));
    assert_eq!(extract_bearer_token(b"Bearer "), Some(b"".to_vec()));
    assert_eq!(extract_bearer_token(b"bearer abc"), None);
    assert_eq!(extract_bearer_token(b"Token abc"), None);
    assert_eq!(extract_bearer_token(b""), None);
    assert_eq!(extract_bearer_token(b"Bearer"), None);
}

#[test]
fn missing_credential_is_unauthorized() {
    let e = missing_credential_error();
    assert_eq!(e.status_code(), 401);
    assert_eq!(e.message().as_str(), "Missing or invalid Authorization header");
}

// A valid introspection response yields the subject id as the principal.
#[test]
fn identity_success_yields_principal() {
    let id: serde_json::Value = serde_json::from_str("{\"id\":\"u_42\"}").unwrap();
    let subject = id.get("id").unwrap().as_str().unwrap().to_string();
    let user = classify_identity_response(200, "", Some(subject)).unwrap();
    assert_eq!(user.user_id, "u_42");
}

#[test]
fn identity_rejection_is_unauthorized() {
    let r = classify_identity_response(401, "", None);
    match r {
        Err(ApiError::Unauthorized(m)) => assert_eq!(m, "Invalid or expired token"),
        other => panic!("expected Unauthorized, got {:?}", other.map(|u| u.user_id)),
    }
}

#[test]
fn identity_upstream_failure_is_internal() {
    let r = classify_identity_response(503, "overloaded", None);
    match r {
        Err(ApiError::Internal(m)) => assert_eq!(m, "Supabase auth error: 503 overloaded"),
        other => panic!("expected Internal, got {:?}", other.map(|u| u.user_id)),
    }
}

#[test]
fn identity_unreadable_body_is_internal() {
    let r = classify_identity_response(200, "", None);
    assert!(matches!(r, Err(ApiError::Internal(_))));
}

#[test]
fn upstream_status_classification() {
    assert!(classify_upstream_response("GET", "products", 200, "").is_ok());
    assert!(classify_upstream_response("GET", "products", 399, "").is_ok());
    let r = classify_upstream_response("GET", "products", 502, "bad gateway");
    match r {
        Err(ApiError::Internal(m)) => {
            assert_eq!(m, "Stripe GET products failed: 502 bad gateway")
        }
        _ => panic!("expected Internal"),
    }
    let r = classify_upstream_response("POST", "checkout/sessions", 400, "{\"error\":\"x\"}");
    match r {
        Err(e) => {
            assert_eq!(e.status_code(), 500);
            assert_eq!(
                e.message().as_str(),
                "Stripe POST checkout/sessions failed: 400 {\"error\":\"x\"}"
            );
        }
        _ => panic!("expected Err"),
    }
}

#[test]
fn checkout_form_is_exactly_encoded() {
    let body = checkout_form_body(b"price_1", b"u_42", b"http://localhost:5285");
    let expected = "payment_method_types%5B%5D=card\
&line_items%5B0%5D%5Bprice%5D=price_1\
&line_items%5B0%5D%5Bquantity%5D=1\
&mode=subscription\
&success_url=http%3A%2F%2Flocalhost%3A5285%2Fpricing%3Fcheckout%3Dsuccess%26session_id%3D%7BCHECKOUT_SESSION_ID%7D\
&cancel_url=http%3A%2F%2Flocalhost%3A5285%2Fpricing\
&client_reference_id=u_42\
&allow_promotion_codes=true\
&subscription_data%5Btrial_period_days%5D=14";
    assert_eq!(String::from_utf8(body).unwrap(), expected);
}

#[test]
fn base_url_default() {
    assert_eq!(app_base_url_or_default(None), "http://localhost:5285");
    assert_eq!(
        app_base_url_or_default(Some("https://example.test".to_string())),
        "https://example.test"
    );
}

#[test]
fn portal_is_a_tagged_stub() {
    let e = portal_not_implemented();
    assert_eq!(e.status_code(), 500);
    assert_eq!(e.message().as_str(), "Billing portal not yet implemented");
}

#[test]
fn error_status_codes() {
    assert_eq!(ApiError::Unauthorized(String::new()).status_code(), 401);
    assert_eq!(ApiError::BadRequest(String::new()).status_code(), 400);
    assert_eq!(ApiError::Internal(String::new()).status_code(), 500);
}

#[test]
fn event_actions() {
    assert_eq!(
        webhook_event_action(b"customer.subscription.updated"),
        WebhookAction::UpdateSubscription
    );
    assert_eq!(
        webhook_event_action(b"customer.subscription.deleted"),
        WebhookAction::UpdateSubscription
    );
    assert_eq!(webhook_event_action(b"invoice.paid"), WebhookAction::Ignore);
    assert_eq!(webhook_event_action(b""), WebhookAction::Ignore);
}

#[test]
fn webhook_disposition_branches() {
    let r = webhook_disposition(Ok(true), Some(b"customer.subscription.updated".to_vec()));
    assert_eq!(r.unwrap(), WebhookAction::UpdateSubscription);

    let r = webhook_disposition(Ok(true), Some(b"something.new".to_vec()));
    assert_eq!(r.unwrap(), WebhookAction::Ignore);

    match webhook_disposition(Ok(false), Some(b"x".to_vec())) {
        Err(ApiError::BadRequest(m)) => assert_eq!(m, "Invalid signature"),
        _ => panic!("expected BadRequest"),
    }

    match webhook_disposition(Ok(true), None) {
        Err(ApiError::BadRequest(m)) => assert_eq!(m, "Invalid event payload"),
        _ => panic!("expected BadRequest"),
    }

    match webhook_disposition(Err(ApiError::BadRequest("Missing timestamp".to_string())), None) {
        Err(ApiError::BadRequest(m)) => assert_eq!(m, "Missing timestamp"),
        _ => panic!("expected the error to pass through"),
    }
}

// The webhook route end to end: a correctly signed subscription event within
// the window is received; the same body signed under a different secret is a
// 400.
#[test]
fn webhook_route_scenario() {
    let secret = b"whsec_route";
    let body = b"{\"type\":\"customer.subscription.updated\",\"data\":{\"object\":{}}}";
    let t: i64 = 1700000000;
    let now = t + 120;  // within 5 minutes

    let header = sign_payload(body, secret, t);
    let verdict = verify_webhook_signature(body, &header, secret, now);
    let event: serde_json::Value = serde_json::from_slice(body).unwrap();
    let event_type = event
        .get("type")
        .and_then(|v| v.as_str())
        .map(|s| s.as_bytes().to_vec());
    let r = webhook_disposition(verdict, event_type.clone());
    assert_eq!(r.unwrap(), WebhookAction::UpdateSubscription);

    let forged = sign_payload(body, b"whsec_somebody_else", t);
    let verdict = verify_webhook_signature(body, &forged, secret, now);
    match webhook_disposition(verdict, event_type) {
        Err(e) => {
            assert_eq!(e.status_code(), 400);
            assert_eq!(e.message().as_str(), "Invalid signature");
        }
        _ => panic!("expected a 400"),
    }
}
