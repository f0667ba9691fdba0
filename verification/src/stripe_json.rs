//! What the library reads out of Stripe's JSON: a webhook event's type, id
//! and object; a subscription fetched from Stripe; the first price of a
//! price list; and the intake of a webhook from its secret, signature
//! header and body.

use vstd::prelude::*;
use crate::billing::{webhook_action_spec, WebhookAction};
use crate::error::{ApiError, is_error};
use crate::json::{
    JsonLeaf, JsonStep, json_lookup, json_lookup_spec, key_path, key_step, leaf_view, path_view, push_index,
    push_key,
};
use crate::login::opt_string;
use crate::text::{push_str, to_owned_string};

verus! {

/// A JSON leaf as plain values: as a string, an `i64`, a boolean.
pub type LeafView = (Option<Seq<char>>, Option<i64>, Option<bool>);

/// A path as plain values.
pub type PathView = Seq<(Option<Seq<char>>, usize)>;

/// A Stripe object as plain values, in the order of `StripeObject`'s fields.
pub type ObjectView = (
    Option<Seq<char>>,
    Option<Seq<char>>,
    Option<Seq<char>>,
    Option<Seq<char>>,
    Option<i64>,
    Option<i64>,
    Option<i64>,
    Option<bool>,
);

/// The fields of a Stripe object (a checkout session or a subscription)
/// that the billing rules read.
#[derive(Debug, Clone, PartialEq, Eq)]
pub struct StripeObject {
    pub id: Option<String>,
    pub subscription: Option<String>,
    pub customer: Option<String>,
    pub status: Option<String>,
    /// `items.data[0].quantity`.
    pub quantity: Option<i64>,
    pub current_period_start: Option<i64>,
    pub current_period_end: Option<i64>,
    pub cancel_at_period_end: Option<bool>,
}

/// An object as plain values.
pub open spec fn object_view(o: StripeObject) -> ObjectView {
    (
        opt_string(o.id),
        opt_string(o.subscription),
        opt_string(o.customer),
        opt_string(o.status),
        o.quantity,
        o.current_period_start,
        o.current_period_end,
        o.cancel_at_period_end,
    )
}

/// What a document holds at a path: nothing when it is not JSON.
pub open spec fn leaf_at(body: Seq<u8>, path: PathView) -> LeafView {
    match json_lookup_spec(body, path) {
        Ok(l) => l,
        Err(_) => (None, None, None),
    }
}

/// The paths of an object's fields under `prefix`: `id`, `subscription`,
/// `customer`, `status`, `items.data[0].quantity`, `current_period_start`,
/// `current_period_end`, `cancel_at_period_end`.
pub open spec fn object_field_paths(prefix: PathView) -> Seq<PathView> {
    seq![
        prefix.push(key_step("id"@)),
        prefix.push(key_step("subscription"@)),
        prefix.push(key_step("customer"@)),
        prefix.push(key_step("status"@)),
        prefix.push(key_step("items"@)).push(key_step("data"@)).push((None::<Seq<char>>, 0usize)).push(
            key_step("quantity"@),
        ),
        prefix.push(key_step("current_period_start"@)),
        prefix.push(key_step("current_period_end"@)),
        prefix.push(key_step("cancel_at_period_end"@)),
    ]
}

/// The object a document holds under `prefix`: the strings of the first
/// four fields, the integers of the next three, the boolean of the last.
pub open spec fn stripe_object_spec(body: Seq<u8>, prefix: PathView) -> ObjectView {
    let ps = object_field_paths(prefix);
    (
        leaf_at(body, ps[0]).0,
        leaf_at(body, ps[1]).0,
        leaf_at(body, ps[2]).0,
        leaf_at(body, ps[3]).0,
        leaf_at(body, ps[4]).1,
        leaf_at(body, ps[5]).1,
        leaf_at(body, ps[6]).1,
        leaf_at(body, ps[7]).2,
    )
}

/// The path of a webhook event's object: `data.object`.
pub open spec fn event_object_prefix() -> PathView {
    seq![key_step("data"@), key_step("object"@)]
}

/// The path of the top of a document.
pub open spec fn top_prefix() -> PathView {
    Seq::empty()
}

fn object_paths(prefix: &Vec<JsonStep>) -> (ps: Vec<Vec<JsonStep>>)
    ensures
        ps@.len() == 8,
        forall|i: int| 0 <= i < 8 ==> #[trigger] path_view(ps@[i]) == object_field_paths(path_view(*prefix))[i],
{
    let mut ps: Vec<Vec<JsonStep>> = Vec::new();
    ps.push(push_key(prefix, "id"));
    ps.push(push_key(prefix, "subscription"));
    ps.push(push_key(prefix, "customer"));
    ps.push(push_key(prefix, "status"));
    let items = push_key(prefix, "items");
    let data = push_key(&items, "data");
    let first = push_index(&data, 0);
    ps.push(push_key(&first, "quantity"));
    ps.push(push_key(prefix, "current_period_start"));
    ps.push(push_key(prefix, "current_period_end"));
    ps.push(push_key(prefix, "cancel_at_period_end"));
    ps
}

fn copy_text(o: &Option<String>) -> (r: Option<String>)
    ensures
        opt_string(r) == opt_string(*o),
{
    match o {
        Some(t) => Some(to_owned_string(t.as_str())),
        None => None,
    }
}

/// The object made of eight leaves starting at `s`.
fn object_from_leaves(v: &Vec<JsonLeaf>, s: usize) -> (o: StripeObject)
    requires
        s + 8 <= v@.len(),
    ensures
        object_view(o) == (
            leaf_view(v@[s as int]).0,
            leaf_view(v@[s + 1]).0,
            leaf_view(v@[s + 2]).0,
            leaf_view(v@[s + 3]).0,
            leaf_view(v@[s + 4]).1,
            leaf_view(v@[s + 5]).1,
            leaf_view(v@[s + 6]).1,
            leaf_view(v@[s + 7]).2,
        ),
{
    let n = v.len();
    assert(s + 8 <= n);
    StripeObject {
        id: copy_text(&v[s].text),
        subscription: copy_text(&v[s + 1].text),
        customer: copy_text(&v[s + 2].text),
        status: copy_text(&v[s + 3].text),
        quantity: v[s + 4].int,
        current_period_start: v[s + 5].int,
        current_period_end: v[s + 6].int,
        cancel_at_period_end: v[s + 7].flag,
    }
}

/// Read the object at the top of a document (a subscription fetched from
/// Stripe); the parse error's text when the bytes are not JSON.
pub fn read_stripe_object(body: &[u8]) -> (r: Result<StripeObject, String>)
    ensures
        match json_lookup_spec(body@, object_field_paths(top_prefix())[0]) {
            Ok(_) => r matches Ok(o) && object_view(o) == stripe_object_spec(body@, top_prefix()),
            Err(e) => r matches Err(x) && x@ == e,
        },
{
    let prefix: Vec<JsonStep> = Vec::new();
    proof {
        assert(path_view(prefix) =~= top_prefix());
    }
    let ps = object_paths(&prefix);
    let r = json_lookup(body, ps.as_slice());
    proof {
        assert(path_view(ps@[0]) == object_field_paths(top_prefix())[0]);
    }
    match r {
        Ok(v) => {
            let o = object_from_leaves(&v, 0);
            proof {
                let fp = object_field_paths(top_prefix());
                assert forall|k: int| 0 <= k < 8 implies leaf_view(v@[k]) == leaf_at(body@, fp[k]) by {
                    assert(path_view(ps@[k]) == fp[k]);
                }
                assert(leaf_view(v@[0]) == leaf_at(body@, fp[0]));
                assert(leaf_view(v@[1]) == leaf_at(body@, fp[1]));
                assert(leaf_view(v@[2]) == leaf_at(body@, fp[2]));
                assert(leaf_view(v@[3]) == leaf_at(body@, fp[3]));
                assert(leaf_view(v@[4]) == leaf_at(body@, fp[4]));
                assert(leaf_view(v@[5]) == leaf_at(body@, fp[5]));
                assert(leaf_view(v@[6]) == leaf_at(body@, fp[6]));
                assert(leaf_view(v@[7]) == leaf_at(body@, fp[7]));
            }
            Ok(o)
        },
        Err(e) => Err(e),
    }
}

/// A text field, the empty text when absent (`as_str().unwrap_or("")`).
pub open spec fn field_text(o: Option<Seq<char>>) -> Seq<char> {
    match o {
        Some(t) => t,
        None => Seq::empty(),
    }
}

/// The path of an event's type.
pub open spec fn type_path() -> PathView {
    seq![key_step("type"@)]
}

/// The path of an event's id.
pub open spec fn id_path() -> PathView {
    seq![key_step("id"@)]
}

/// A webhook event as the dispatch reads it.
#[derive(Debug, Clone, PartialEq, Eq)]
pub struct StripeEvent {
    pub id: String,
    pub action: WebhookAction,
    /// `data.object`.
    pub object: StripeObject,
}

/// How a webhook body is read: not JSON is refused as invalid JSON; an
/// event without an id (absent, not a string, or empty) is refused; any
/// other event is classified by its type (an absent type reads as the
/// empty one) and carries its `data.object`.
pub open spec fn stripe_event_spec(body: Seq<u8>) -> Result<(Seq<char>, WebhookAction, ObjectView), (u16, Seq<char>)> {
    match json_lookup_spec(body, type_path()) {
        Err(_) => Err((400u16, "invalid JSON"@)),
        Ok(t) => {
            let id = field_text(leaf_at(body, id_path()).0);
            if id.len() == 0 {
                Err((400u16, "missing event id"@))
            } else {
                Ok((id, webhook_action_spec(field_text(t.0)), stripe_object_spec(body, event_object_prefix())))
            }
        },
    }
}

fn text_or_empty(o: &Option<String>) -> (r: String)
    ensures
        r@ == field_text(opt_string(*o)),
{
    match o {
        Some(t) => to_owned_string(t.as_str()),
        None => String::new(),
    }
}

/// Read a webhook body.
pub fn webhook_event(body: &[u8]) -> (r: Result<StripeEvent, ApiError>)
    ensures
        match stripe_event_spec(body@) {
            Ok((id, action, object)) => r matches Ok(e) && e.id@ == id && e.action == action && object_view(e.object)
                == object,
            Err((code, m)) => is_error(r, code, m),
        },
{
    let data = key_path("data");
    let prefix = push_key(&data, "object");
    proof {
        assert(path_view(prefix) =~= event_object_prefix());
    }
    let mut ps = object_paths(&prefix);
    let ghost old = ps@;
    let idp = key_path("id");
    let tp = key_path("type");
    ps.insert(0, idp);
    ps.insert(0, tp);
    let ghost fp = object_field_paths(event_object_prefix());
    proof {
        assert(ps@ =~= seq![tp, idp] + old);
        assert(path_view(ps@[0]) == type_path());
        assert(path_view(ps@[1]) == id_path());
        assert forall|k: int| 0 <= k < 8 implies #[trigger] path_view(ps@[k + 2]) == fp[k] by {
            assert(ps@[k + 2] == old[k]);
            assert(path_view(old[k]) == fp[k]);
        }
    }
    match json_lookup(body, ps.as_slice()) {
        Err(_) => Err(ApiError::BadRequest(to_owned_string("invalid JSON"))),
        Ok(v) => {
            proof {
                assert(path_view(ps@[0]) == type_path());
                assert(path_view(ps@[1]) == id_path());
                assert(leaf_view(v@[0]) == leaf_at(body@, type_path()));
                assert(leaf_view(v@[1]) == leaf_at(body@, id_path()));
                assert forall|k: int| 0 <= k < 8 implies leaf_view(v@[k + 2]) == leaf_at(body@, fp[k]) by {
                    assert(path_view(ps@[k + 2]) == fp[k]);
                    assert(path_view(ps@[k + 2]) == path_view(ps@[k + 2]));
                }
                assert(leaf_view(v@[2]) == leaf_at(body@, fp[0]));
                assert(leaf_view(v@[3]) == leaf_at(body@, fp[1]));
                assert(leaf_view(v@[4]) == leaf_at(body@, fp[2]));
                assert(leaf_view(v@[5]) == leaf_at(body@, fp[3]));
                assert(leaf_view(v@[6]) == leaf_at(body@, fp[4]));
                assert(leaf_view(v@[7]) == leaf_at(body@, fp[5]));
                assert(leaf_view(v@[8]) == leaf_at(body@, fp[6]));
                assert(leaf_view(v@[9]) == leaf_at(body@, fp[7]));
            }
            let id = text_or_empty(&v[1].text);
            let event_type = text_or_empty(&v[0].text);
            let action = match crate::billing::classify_webhook(event_type.as_str(), id.as_str()) {
                Ok(a) => a,
                Err(e) => return Err(e),
            };
            let object = object_from_leaves(&v, 2);
            Ok(StripeEvent { id, action, object })
        },
    }
}

/// The intake of a Stripe webhook: the webhook secret must be configured,
/// the `Stripe-Signature` header present and valid for the body at the
/// clock's reading, and the body an event with an id. Which second the
/// clock gives is not known here: the result is stated for one `i64`
/// second, at which the signature check decides.
pub fn webhook_intake(secret: Option<&str>, sig_header: Option<&str>, body: &[u8]) -> (r: Result<StripeEvent, ApiError>)
    ensures
        secret is None ==> is_error(r, 500, "webhook secret not configured"@),
        secret is Some && sig_header is None ==> is_error(r, 400, "missing Stripe-Signature"@),
        (secret matches Some(s) && sig_header matches Some(h)) ==> exists|now: int|
            i64::MIN <= now <= i64::MAX && if #[trigger] crate::stripe::stripe_signature_valid(
                secret->0@,
                body@,
                sig_header->0@,
                now,
            ) {
                match stripe_event_spec(body@) {
                    Ok((id, action, object)) => r matches Ok(e) && e.id@ == id && e.action == action && object_view(
                        e.object,
                    ) == object,
                    Err((code, m)) => is_error(r, code, m),
                }
            } else {
                is_error(r, 400, "invalid webhook signature"@)
            },
{
    let s = match secret {
        Some(s) => s,
        None => return Err(ApiError::Internal(to_owned_string("webhook secret not configured"))),
    };
    let h = match sig_header {
        Some(h) => h,
        None => return Err(ApiError::BadRequest(to_owned_string("missing Stripe-Signature"))),
    };
    let checked = crate::stripe::verify_stripe_signature(s, body, h);
    if checked.is_err() {
        return Err(ApiError::BadRequest(to_owned_string("invalid webhook signature")));
    }
    webhook_event(body)
}

/// Read a subscription fetched from Stripe; a body that is not JSON is an
/// internal error naming the parse failure.
pub fn subscription_details(body: &[u8]) -> (r: Result<StripeObject, ApiError>)
    ensures
        match json_lookup_spec(body@, object_field_paths(top_prefix())[0]) {
            Ok(_) => r matches Ok(o) && object_view(o) == stripe_object_spec(body@, top_prefix()),
            Err(e) => is_error(r, 500, "stripe subscription parse: "@ + e),
        },
{
    match read_stripe_object(body) {
        Ok(o) => Ok(o),
        Err(e) => {
            let mut m = String::new();
            push_str(&mut m, "stripe subscription parse: ");
            push_str(&mut m, e.as_str());
            Err(ApiError::Internal(m))
        },
    }
}

/// The ids of a completed checkout session, when all three are there and
/// non-empty: the session, its subscription, its customer.
pub fn checkout_ids(session: &StripeObject) -> (r: Option<(String, String, String)>)
    ensures
        ({
            let v = object_view(*session);
            if field_text(v.0).len() > 0 && field_text(v.1).len() > 0 && field_text(v.2).len() > 0 {
                r matches Some((a, b, c)) && a@ == field_text(v.0) && b@ == field_text(v.1) && c@ == field_text(v.2)
            } else {
                r is None
            }
        }),
{
    let a = text_or_empty(&session.id);
    let b = text_or_empty(&session.subscription);
    let c = text_or_empty(&session.customer);
    if crate::billing::checkout_event_ids_present(a.as_str(), b.as_str(), c.as_str()) {
        Some((a, b, c))
    } else {
        None
    }
}

/// The subscription columns written from a Stripe subscription object, as
/// `subscription_fields` reads them, with `fallback_seats` when it reports
/// no quantity.
pub fn object_subscription_fields(o: &StripeObject, fallback_seats: i64) -> (r: crate::billing::SubscriptionFields)
    ensures
        r.seats == (match o.quantity {
            Some(q) => q,
            None => fallback_seats,
        }) as i32,
        r.status@ == (match opt_string(o.status) {
            Some(s) => s,
            None => "active"@,
        }),
        r.current_period_start == (match o.current_period_start {
            Some(t) => if crate::billing::timestamp_representable(t) { Some(t) } else { None::<i64> },
            None => None::<i64>,
        }),
        r.current_period_end == (match o.current_period_end {
            Some(t) => if crate::billing::timestamp_representable(t) { Some(t) } else { None::<i64> },
            None => None::<i64>,
        }),
        r.cancel_at_period_end == (match o.cancel_at_period_end {
            Some(c) => c,
            None => false,
        }),
{
    let status: Option<&str> = match &o.status {
        Some(s) => Some(s.as_str()),
        None => None,
    };
    crate::billing::subscription_fields(
        o.quantity,
        fallback_seats,
        status,
        o.current_period_start,
        o.current_period_end,
        o.cancel_at_period_end,
    )
}

/// The path of a price list's first id: `data[0].id`.
pub open spec fn first_price_path() -> PathView {
    seq![key_step("data"@), (None::<Seq<char>>, 0usize), key_step("id"@)]
}

/// The Stripe request that finds the active price with a lookup key.
pub fn price_lookup_url(api_base: &str, lookup_key: &str) -> (u: String)
    ensures
        u@ == api_base@ + "/prices?lookup_keys[]="@ + crate::login::url_encode_spec(
            vstd::utf8::encode_utf8(lookup_key@),
        ) + "&active=true&limit=1"@,
{
    let enc = crate::login::url_encode(lookup_key);
    let mut u = String::new();
    push_str(&mut u, api_base);
    push_str(&mut u, "/prices?lookup_keys[]=");
    push_str(&mut u, enc.as_str());
    push_str(&mut u, "&active=true&limit=1");
    u
}

/// The price a lookup key resolves to: the first listed price's id. A body
/// that is not JSON, or a list without a price, is an internal error.
pub fn price_from_lookup(body: &[u8], lookup_key: &str) -> (r: Result<String, ApiError>)
    ensures
        match json_lookup_spec(body@, first_price_path()) {
            Err(e) => is_error(r, 500, "stripe price parse: "@ + e),
            Ok(l) => match l.0 {
                Some(id) => r matches Ok(s) && s@ == id,
                None => is_error(r, 500, "no active Stripe price for lookup_key="@ + lookup_key@),
            },
        },
{
    let data = key_path("data");
    let first = push_index(&data, 0);
    let p = push_key(&first, "id");
    proof {
        assert(path_view(p) =~= first_price_path());
    }
    let mut ps: Vec<Vec<JsonStep>> = Vec::new();
    ps.push(p);
    proof {
        assert(ps@[0] == p);
        assert(path_view(ps@[0]) == first_price_path());
    }
    match json_lookup(body, ps.as_slice()) {
        Err(e) => {
            let mut m = String::new();
            push_str(&mut m, "stripe price parse: ");
            push_str(&mut m, e.as_str());
            Err(ApiError::Internal(m))
        },
        Ok(v) => {
            proof {
                assert(path_view(ps@[0]) == first_price_path());
            }
            match &v[0].text {
                Some(id) => Ok(to_owned_string(id.as_str())),
                None => {
                    let mut m = String::new();
                    push_str(&mut m, "no active Stripe price for lookup_key=");
                    push_str(&mut m, lookup_key);
                    Err(ApiError::Internal(m))
                },
            }
        },
    }
}

} // verus!
