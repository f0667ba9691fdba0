//! Billing rules: which country pays in euros, what a checkout request may
//! ask for, where Stripe sends the user back to, which webhook events are
//! acted on, and what subscription a dashboard is shown.

use vstd::prelude::*;
use crate::error::{ApiError, is_error};
use crate::text::{chars_of, push_chars, push_str, string_from_chars, to_owned_string};

verus! {

/// The currencies a Team plan is sold in.
#[derive(Debug, Clone, Copy, PartialEq, Eq, Structural)]
pub enum Currency {
    Eur,
    Usd,
}

/// The ISO code of a currency, lower case.
pub open spec fn currency_code_spec(c: Currency) -> Seq<char> {
    match c {
        Currency::Eur => seq!['e', 'u', 'r'],
        Currency::Usd => seq!['u', 's', 'd'],
    }
}

impl Currency {
    /// The lower-case ISO code, as stored and sent to Stripe.
    pub fn code(&self) -> (s: String)
        ensures
            s@ == currency_code_spec(*self),
    {
        match self {
            Currency::Eur => string_from_chars(&['e', 'u', 'r']),
            Currency::Usd => string_from_chars(&['u', 's', 'd']),
        }
    }
}

/// Whether a two-letter code is one of the EU member states.
pub open spec fn is_eu_country_spec(s: Seq<char>) -> bool {
    s.len() == 2 && {
        let a = s[0];
        let b = s[1];
        ||| a == 'A' && b == 'T'
        ||| a == 'B' && b == 'E'
        ||| a == 'B' && b == 'G'
        ||| a == 'C' && b == 'Y'
        ||| a == 'C' && b == 'Z'
        ||| a == 'D' && b == 'E'
        ||| a == 'D' && b == 'K'
        ||| a == 'E' && b == 'E'
        ||| a == 'E' && b == 'S'
        ||| a == 'F' && b == 'I'
        ||| a == 'F' && b == 'R'
        ||| a == 'G' && b == 'R'
        ||| a == 'H' && b == 'R'
        ||| a == 'H' && b == 'U'
        ||| a == 'I' && b == 'E'
        ||| a == 'I' && b == 'T'
        ||| a == 'L' && b == 'T'
        ||| a == 'L' && b == 'U'
        ||| a == 'L' && b == 'V'
        ||| a == 'M' && b == 'T'
        ||| a == 'N' && b == 'L'
        ||| a == 'P' && b == 'L'
        ||| a == 'P' && b == 'T'
        ||| a == 'R' && b == 'O'
        ||| a == 'S' && b == 'E'
        ||| a == 'S' && b == 'I'
        ||| a == 'S' && b == 'K'
    }
}

/// The codes of the 27 EU member states: Austria, Belgium, Bulgaria,
/// Cyprus, Czechia, Germany, Denmark, Estonia, Spain, Finland, France,
/// Greece, Croatia, Hungary, Ireland, Italy, Lithuania, Luxembourg, Latvia,
/// Malta, the Netherlands, Poland, Portugal, Romania, Sweden, Slovenia,
/// Slovakia.
pub open spec fn eu_member_codes() -> Seq<Seq<char>> {
    seq![
        seq!['A', 'T'],
        seq!['B', 'E'],
        seq!['B', 'G'],
        seq!['C', 'Y'],
        seq!['C', 'Z'],
        seq!['D', 'E'],
        seq!['D', 'K'],
        seq!['E', 'E'],
        seq!['E', 'S'],
        seq!['F', 'I'],
        seq!['F', 'R'],
        seq!['G', 'R'],
        seq!['H', 'R'],
        seq!['H', 'U'],
        seq!['I', 'E'],
        seq!['I', 'T'],
        seq!['L', 'T'],
        seq!['L', 'U'],
        seq!['L', 'V'],
        seq!['M', 'T'],
        seq!['N', 'L'],
        seq!['P', 'L'],
        seq!['P', 'T'],
        seq!['R', 'O'],
        seq!['S', 'E'],
        seq!['S', 'I'],
        seq!['S', 'K'],
    ]
}

/// A visitor pays in euros exactly when their country is an EU member
/// state: the codes that count as EU are exactly the 27 member states.
pub proof fn law_eu_countries_are_the_member_states(s: Seq<char>)
    ensures
        is_eu_country_spec(s) <==> eu_member_codes().contains(s),
{
    let l = eu_member_codes();
    assert(l.len() == 27);
    if is_eu_country_spec(s) {
        let a = s[0];
        let b = s[1];
        assert(s =~= seq![a, b]);
        assert(exists|i: int| 0 <= i < l.len() && l[i] == s) by {
            if a == 'A' && b == 'T' { assert(l[0] =~= s); }
            if a == 'B' && b == 'E' { assert(l[1] =~= s); }
            if a == 'B' && b == 'G' { assert(l[2] =~= s); }
            if a == 'C' && b == 'Y' { assert(l[3] =~= s); }
            if a == 'C' && b == 'Z' { assert(l[4] =~= s); }
            if a == 'D' && b == 'E' { assert(l[5] =~= s); }
            if a == 'D' && b == 'K' { assert(l[6] =~= s); }
            if a == 'E' && b == 'E' { assert(l[7] =~= s); }
            if a == 'E' && b == 'S' { assert(l[8] =~= s); }
            if a == 'F' && b == 'I' { assert(l[9] =~= s); }
            if a == 'F' && b == 'R' { assert(l[10] =~= s); }
            if a == 'G' && b == 'R' { assert(l[11] =~= s); }
            if a == 'H' && b == 'R' { assert(l[12] =~= s); }
            if a == 'H' && b == 'U' { assert(l[13] =~= s); }
            if a == 'I' && b == 'E' { assert(l[14] =~= s); }
            if a == 'I' && b == 'T' { assert(l[15] =~= s); }
            if a == 'L' && b == 'T' { assert(l[16] =~= s); }
            if a == 'L' && b == 'U' { assert(l[17] =~= s); }
            if a == 'L' && b == 'V' { assert(l[18] =~= s); }
            if a == 'M' && b == 'T' { assert(l[19] =~= s); }
            if a == 'N' && b == 'L' { assert(l[20] =~= s); }
            if a == 'P' && b == 'L' { assert(l[21] =~= s); }
            if a == 'P' && b == 'T' { assert(l[22] =~= s); }
            if a == 'R' && b == 'O' { assert(l[23] =~= s); }
            if a == 'S' && b == 'E' { assert(l[24] =~= s); }
            if a == 'S' && b == 'I' { assert(l[25] =~= s); }
            if a == 'S' && b == 'K' { assert(l[26] =~= s); }
        }
    }
    if l.contains(s) {
        let i = choose|i: int| 0 <= i < l.len() && l[i] == s;
        assert(s.len() == 2);
        if i == 0 { assert(s[0] == 'A' && s[1] == 'T'); }
        if i == 1 { assert(s[0] == 'B' && s[1] == 'E'); }
        if i == 2 { assert(s[0] == 'B' && s[1] == 'G'); }
        if i == 3 { assert(s[0] == 'C' && s[1] == 'Y'); }
        if i == 4 { assert(s[0] == 'C' && s[1] == 'Z'); }
        if i == 5 { assert(s[0] == 'D' && s[1] == 'E'); }
        if i == 6 { assert(s[0] == 'D' && s[1] == 'K'); }
        if i == 7 { assert(s[0] == 'E' && s[1] == 'E'); }
        if i == 8 { assert(s[0] == 'E' && s[1] == 'S'); }
        if i == 9 { assert(s[0] == 'F' && s[1] == 'I'); }
        if i == 10 { assert(s[0] == 'F' && s[1] == 'R'); }
        if i == 11 { assert(s[0] == 'G' && s[1] == 'R'); }
        if i == 12 { assert(s[0] == 'H' && s[1] == 'R'); }
        if i == 13 { assert(s[0] == 'H' && s[1] == 'U'); }
        if i == 14 { assert(s[0] == 'I' && s[1] == 'E'); }
        if i == 15 { assert(s[0] == 'I' && s[1] == 'T'); }
        if i == 16 { assert(s[0] == 'L' && s[1] == 'T'); }
        if i == 17 { assert(s[0] == 'L' && s[1] == 'U'); }
        if i == 18 { assert(s[0] == 'L' && s[1] == 'V'); }
        if i == 19 { assert(s[0] == 'M' && s[1] == 'T'); }
        if i == 20 { assert(s[0] == 'N' && s[1] == 'L'); }
        if i == 21 { assert(s[0] == 'P' && s[1] == 'L'); }
        if i == 22 { assert(s[0] == 'P' && s[1] == 'T'); }
        if i == 23 { assert(s[0] == 'R' && s[1] == 'O'); }
        if i == 24 { assert(s[0] == 'S' && s[1] == 'E'); }
        if i == 25 { assert(s[0] == 'S' && s[1] == 'I'); }
        if i == 26 { assert(s[0] == 'S' && s[1] == 'K'); }
    }
}

/// Whether `country` (an upper-case ISO 3166-1 alpha-2 code) is in the EU.
pub fn is_eu_country(country: &str) -> (r: bool)
    ensures
        r == is_eu_country_spec(country@),
{
    let v = chars_of(country);
    if v.len() != 2 {
        return false;
    }
    let a = v[0];
    let b = v[1];
    (a == 'A' && b == 'T') || (a == 'B' && b == 'E') || (a == 'B' && b == 'G') || (a == 'C' && b
        == 'Y') || (a == 'C' && b == 'Z') || (a == 'D' && b == 'E') || (a == 'D' && b == 'K') || (a
        == 'E' && b == 'E') || (a == 'E' && b == 'S') || (a == 'F' && b == 'I') || (a == 'F' && b
        == 'R') || (a == 'G' && b == 'R') || (a == 'H' && b == 'R') || (a == 'H' && b == 'U') || (a
        == 'I' && b == 'E') || (a == 'I' && b == 'T') || (a == 'L' && b == 'T') || (a == 'L' && b
        == 'U') || (a == 'L' && b == 'V') || (a == 'M' && b == 'T') || (a == 'N' && b == 'L') || (a
        == 'P' && b == 'L') || (a == 'P' && b == 'T') || (a == 'R' && b == 'O') || (a == 'S' && b
        == 'E') || (a == 'S' && b == 'I') || (a == 'S' && b == 'K')
}

/// The price shown to a visitor: currency and monthly base price per seat.
#[derive(Debug, Clone, Copy, PartialEq, Eq, Structural)]
pub struct GeoPricing {
    pub currency: Currency,
    pub base_price: u32,
}

/// The country a request comes from, from the first of the geo headers that
/// is present (Cloudflare's, then the load balancer's, then the manual
/// override). Each argument is `None` when the header is absent and
/// `Some(None)` when its value is not visible ASCII; a present but
/// unreadable header still wins, and reads as the empty code.
pub fn request_country<'a>(
    cf_ip_country: Option<Option<&'a str>>,
    client_geo_country: Option<Option<&'a str>>,
    country_code: Option<Option<&'a str>>,
) -> (r: Option<&'a str>)
    ensures
        r == (if cf_ip_country is Some {
            cf_ip_country->0
        } else if client_geo_country is Some {
            client_geo_country->0
        } else if country_code is Some {
            country_code->0
        } else {
            None::<&'a str>
        }),
{
    match cf_ip_country {
        Some(v) => v,
        None => match client_geo_country {
            Some(v) => v,
            None => match country_code {
                Some(v) => v,
                None => None,
            },
        },
    }
}

/// Pricing by country: euros at 15 inside the EU, dollars at 20 elsewhere
/// (an unknown or missing country included).
pub fn geo_pricing(country: Option<&str>) -> (p: GeoPricing)
    ensures
        (country matches Some(c) && is_eu_country_spec(c@)) ==> p == (GeoPricing {
            currency: Currency::Eur,
            base_price: 15,
        }),
        !(country matches Some(c) && is_eu_country_spec(c@)) ==> p == (GeoPricing {
            currency: Currency::Usd,
            base_price: 20,
        }),
{
    let eu = match country {
        Some(c) => is_eu_country(c),
        None => false,
    };
    if eu {
        GeoPricing { currency: Currency::Eur, base_price: 15 }
    } else {
        GeoPricing { currency: Currency::Usd, base_price: 20 }
    }
}

/// The code point of `c` in ASCII lower case; other characters are kept.
pub open spec fn ascii_lower(c: char) -> u32 {
    if 'A' <= c && c <= 'Z' {
        (c as u32 + 32) as u32
    } else {
        c as u32
    }
}

/// Whether `s`, lower-cased, reads `w` (itself lower case ASCII). No
/// character outside ASCII lower-cases to an ASCII letter other than `k`,
/// so ASCII case folding decides this for the codes used here.
pub open spec fn lower_eq(s: Seq<char>, w: Seq<char>) -> bool {
    s.len() == w.len() && forall|i: int| 0 <= i < s.len() ==> ascii_lower(#[trigger] s[i]) == w[i] as u32
}

fn lower_eq_exec(s: &[char], w: &[char]) -> (r: bool)
    ensures
        r == lower_eq(s@, w@),
{
    if s.len() != w.len() {
        return false;
    }
    let mut i: usize = 0;
    while i < s.len()
        invariant
            s@.len() == w@.len(),
            i <= s@.len(),
            forall|j: int| 0 <= j < i ==> ascii_lower(#[trigger] s@[j]) == w@[j] as u32,
        decreases s@.len() - i,
    {
        let c = s[i];
        let l: u32 = if 'A' <= c && c <= 'Z' {
            c as u32 + 32
        } else {
            c as u32
        };
        if l != w[i] as u32 {
            return false;
        }
        i = i + 1;
    }
    true
}

/// The smallest and largest seat count a self-serve checkout may buy.
pub const MIN_CHECKOUT_SEATS: u32 = 2;
pub const MAX_CHECKOUT_SEATS: u32 = 20;

/// Check the seat count and currency of a checkout request. The seat count
/// is checked first; the currency is read case-insensitively.
pub fn validate_checkout(seats: u32, currency: &str) -> (r: Result<Currency, ApiError>)
    ensures
        (seats < 2 || seats > 20) ==> is_error(r, 400, "seats must be between 2 and 20"@),
        2 <= seats <= 20 && lower_eq(currency@, seq!['e', 'u', 'r']) ==> r == Ok::<Currency, ApiError>(Currency::Eur),
        2 <= seats <= 20 && lower_eq(currency@, seq!['u', 's', 'd']) ==> r == Ok::<Currency, ApiError>(Currency::Usd),
        2 <= seats <= 20 && !lower_eq(currency@, seq!['e', 'u', 'r']) && !lower_eq(currency@, seq!['u', 's', 'd'])
            ==> is_error(r, 400, "currency must be eur or usd"@),
{
    if seats < MIN_CHECKOUT_SEATS || seats > MAX_CHECKOUT_SEATS {
        return Err(ApiError::BadRequest(to_owned_string("seats must be between 2 and 20")));
    }
    let v = chars_of(currency);
    let eur: [char; 3] = ['e', 'u', 'r'];
    let usd: [char; 3] = ['u', 's', 'd'];
    assert(eur@ =~= seq!['e', 'u', 'r']);
    assert(usd@ =~= seq!['u', 's', 'd']);
    if lower_eq_exec(v.as_slice(), &eur) {
        assert(ascii_lower(v@[0]) == 'e' as u32);
        Ok(Currency::Eur)
    } else if lower_eq_exec(v.as_slice(), &usd) {
        Ok(Currency::Usd)
    } else {
        Err(ApiError::BadRequest(to_owned_string("currency must be eur or usd")))
    }
}

/// `s` without any trailing `c`, as `str::trim_end_matches(c)` gives it.
pub open spec fn trim_end_char(s: Seq<char>, c: char) -> Seq<char>
    decreases s.len(),
{
    if s.len() > 0 && s.last() == c {
        trim_end_char(s.drop_last(), c)
    } else {
        s
    }
}

/// The characters of `s` without trailing `c`.
pub fn trim_end_char_exec(s: &str, c: char) -> (r: Vec<char>)
    ensures
        r@ == trim_end_char(s@, c),
{
    let mut v = chars_of(s);
    while v.len() > 0 && v[v.len() - 1] == c
        invariant
            trim_end_char(v@, c) == trim_end_char(s@, c),
        decreases v@.len(),
    {
        let ghost before = v@;
        v.pop();
        proof {
            assert(v@ =~= before.drop_last());
        }
    }
    v
}

/// The dashboard's base URL with `path` appended, the base stripped of
/// trailing slashes first.
pub open spec fn dashboard_link(dashboard_url: Seq<char>, path: Seq<char>) -> Seq<char> {
    trim_end_char(dashboard_url, '/') + path
}

fn join_dashboard(dashboard_url: &str, path: &str) -> (r: String)
    ensures
        r@ == dashboard_link(dashboard_url@, path@),
{
    let base = trim_end_char_exec(dashboard_url, '/');
    let mut s = String::new();
    push_chars(&mut s, base.as_slice());
    push_str(&mut s, path);
    s
}

/// Billing endpoints act for an account, so they need a session that
/// carries the user.
pub fn billing_user(user_id: Option<u128>) -> (r: Result<u128, ApiError>)
    ensures
        user_id matches Some(u) ==> r == Ok::<u128, ApiError>(u),
        user_id is None ==> is_error(r, 401, "multi-org session required"@),
{
    match user_id {
        Some(u) => Ok(u),
        None => Err(ApiError::Unauthorized(to_owned_string("multi-org session required"))),
    }
}

/// The Stripe price a checkout in `currency` is billed at; a missing price
/// for that currency is a deployment error.
pub fn checkout_price_id(currency: Currency, eur_price_id: Option<&str>, usd_price_id: Option<&str>) -> (r: Result<
    String,
    ApiError,
>)
    ensures
        currency == Currency::Eur ==> (match eur_price_id {
            Some(p) => r matches Ok(s) && s@ == p@,
            None => is_error(r, 500, "STRIPE_EUR_PRICE_ID not set"@),
        }),
        currency == Currency::Usd ==> (match usd_price_id {
            Some(p) => r matches Ok(s) && s@ == p@,
            None => is_error(r, 500, "STRIPE_USD_PRICE_ID not set"@),
        }),
{
    match currency {
        Currency::Eur => match eur_price_id {
            Some(p) => Ok(to_owned_string(p)),
            None => Err(ApiError::Internal(to_owned_string("STRIPE_EUR_PRICE_ID not set"))),
        },
        Currency::Usd => match usd_price_id {
            Some(p) => Ok(to_owned_string(p)),
            None => Err(ApiError::Internal(to_owned_string("STRIPE_USD_PRICE_ID not set"))),
        },
    }
}

/// The trial a checkout asks Stripe for: the deployment's default length
/// when the request wants a trial.
pub fn checkout_trial_days(trial: bool, default_days: u32) -> (r: Option<u32>)
    ensures
        r == (if trial { Some(default_days) } else { None::<u32> }),
{
    if trial {
        Some(default_days)
    } else {
        None
    }
}

/// Where a polled checkout stands.
#[derive(Debug, Clone, Copy, PartialEq, Eq, Structural)]
pub enum CheckoutStatus {
    Pending,
    /// Fulfilled into this org.
    Fulfilled(u128),
}

/// A caller polls a checkout: it must exist (`checkout` is its owner and
/// the org it produced, if any) and be the caller's own.
pub fn checkout_status(caller: u128, checkout: Option<(u128, Option<u128>)>) -> (r: Result<CheckoutStatus, ApiError>)
    ensures
        checkout is None ==> is_error(r, 404, "checkout not found"@),
        checkout matches Some((owner, org)) ==> (if owner != caller {
            is_error(r, 403, "not your checkout"@)
        } else {
            r == Ok::<CheckoutStatus, ApiError>(match org {
                Some(o) => CheckoutStatus::Fulfilled(o),
                None => CheckoutStatus::Pending,
            })
        }),
{
    match checkout {
        None => Err(ApiError::NotFound(to_owned_string("checkout not found"))),
        Some((owner, org)) => {
            if owner != caller {
                return Err(ApiError::Forbidden(to_owned_string("not your checkout")));
            }
            match org {
                Some(o) => Ok(CheckoutStatus::Fulfilled(o)),
                None => Ok(CheckoutStatus::Pending),
            }
        },
    }
}

/// The Stripe key billing calls need; without one billing is not set up.
pub fn billing_secret_key(key: Option<&str>) -> (r: Result<String, ApiError>)
    ensures
        key matches Some(k) ==> (r matches Ok(s) && s@ == k@),
        key is None ==> is_error(r, 500, "billing not configured"@),
{
    match key {
        Some(k) => Ok(to_owned_string(k)),
        None => Err(ApiError::Internal(to_owned_string("billing not configured"))),
    }
}

/// Only the org's billing contact opens its customer portal: the org must
/// have a subscription (`subscription_customer` is its Stripe customer),
/// and the caller's own Stripe customer must be that one.
pub fn portal_customer(subscription_customer: Option<&str>, caller_customer: Option<&str>) -> (r: Result<
    String,
    ApiError,
>)
    ensures
        subscription_customer is None ==> is_error(r, 404, "no subscription for this org"@),
        subscription_customer matches Some(sc) ==> (match caller_customer {
            Some(cc) => if cc@ == sc@ {
                r matches Ok(s) && s@ == cc@
            } else {
                is_error(r, 403, "not the billing contact for this org"@)
            },
            None => is_error(r, 403, "not the billing contact for this org"@),
        }),
{
    let sc = match subscription_customer {
        Some(sc) => sc,
        None => return Err(ApiError::NotFound(to_owned_string("no subscription for this org"))),
    };
    match caller_customer {
        Some(cc) => {
            if crate::text::str_eq(cc, sc) {
                Ok(to_owned_string(cc))
            } else {
                Err(ApiError::Forbidden(to_owned_string("not the billing contact for this org")))
            }
        },
        None => Err(ApiError::Forbidden(to_owned_string("not the billing contact for this org"))),
    }
}

/// An admin reads the subscription of their own org only.
pub fn check_subscription_org(admin_org: u128, org: u128) -> (r: Result<(), ApiError>)
    ensures
        admin_org == org ==> r is Ok,
        admin_org != org ==> is_error(r, 403, "org mismatch"@),
{
    if admin_org != org {
        Err(ApiError::Forbidden(to_owned_string("org mismatch")))
    } else {
        Ok(())
    }
}

/// What saving a freshly created Stripe customer on the user gave.
#[derive(Debug, Clone, Copy, PartialEq, Eq, Structural)]
pub enum CustomerSave {
    Saved,
    /// No row was updated: the user vanished meanwhile.
    UserGone,
    /// The store failed.
    Failed,
}

/// What follows saving a new Stripe customer.
#[derive(Debug, Clone, PartialEq, Eq)]
pub enum CustomerSaveStep {
    /// Go on with the checkout.
    Proceed,
    /// Delete the new customer at Stripe, so no orphan is left, then fail:
    /// with this error, or with the store's own error when `None`.
    DeleteCustomerThenFail(Option<ApiError>),
}

/// A customer that could not be saved on the user is deleted again at
/// Stripe before the checkout fails.
pub fn customer_save_step(save: CustomerSave) -> (r: CustomerSaveStep)
    ensures
        save == CustomerSave::Saved ==> r == CustomerSaveStep::Proceed,
        save == CustomerSave::UserGone ==> (r matches CustomerSaveStep::DeleteCustomerThenFail(Some(e))
            && is_error(Err::<(), ApiError>(e), 404, "user not found"@)),
        save == CustomerSave::Failed ==> r == CustomerSaveStep::DeleteCustomerThenFail(None),
{
    match save {
        CustomerSave::Saved => CustomerSaveStep::Proceed,
        CustomerSave::UserGone => CustomerSaveStep::DeleteCustomerThenFail(
            Some(ApiError::NotFound(to_owned_string("user not found"))),
        ),
        CustomerSave::Failed => CustomerSaveStep::DeleteCustomerThenFail(None),
    }
}

/// What follows storing the pending checkout of a Stripe session just
/// created.
#[derive(Debug, Clone, Copy, PartialEq, Eq, Structural)]
pub enum PendingCheckoutStep {
    /// Hand the checkout URL back.
    Proceed,
    /// Expire the Stripe session, so no payable orphan is left, then fail
    /// with the store's error.
    ExpireSessionThenFail,
}

/// A Stripe session whose pending checkout could not be stored is expired
/// before the request fails.
pub fn pending_checkout_step(stored: bool) -> (r: PendingCheckoutStep)
    ensures
        stored ==> r == PendingCheckoutStep::Proceed,
        !stored ==> r == PendingCheckoutStep::ExpireSessionThenFail,
{
    if stored {
        PendingCheckoutStep::Proceed
    } else {
        PendingCheckoutStep::ExpireSessionThenFail
    }
}

/// Where Stripe Checkout returns to: the success page (with Stripe's
/// session-id placeholder) and the page a cancelled checkout goes back to.
pub fn checkout_return_urls(dashboard_url: &str) -> (r: (String, String))
    ensures
        r.0@ == dashboard_link(dashboard_url@, "/billing/success?session_id={CHECKOUT_SESSION_ID}"@),
        r.1@ == dashboard_link(dashboard_url@, "/billing/new-team"@),
{
    let success = join_dashboard(dashboard_url, "/billing/success?session_id={CHECKOUT_SESSION_ID}");
    let cancel = join_dashboard(dashboard_url, "/billing/new-team");
    (success, cancel)
}

/// Where the Stripe customer portal returns to.
pub fn portal_return_url(dashboard_url: &str) -> (r: String)
    ensures
        r@ == dashboard_link(dashboard_url@, "/org"@),
{
    join_dashboard(dashboard_url, "/org")
}

/// What a verified Stripe event leads to.
#[derive(Debug, Clone, Copy, PartialEq, Eq, Structural)]
pub enum WebhookAction {
    CheckoutCompleted,
    SubscriptionUpdated,
    SubscriptionDeleted,
    InvoicePaid,
    InvoicePaymentFailed,
    Ignore,
}

/// The action for an event type.
pub open spec fn webhook_action_spec(event_type: Seq<char>) -> WebhookAction {
    if event_type == "checkout.session.completed"@ {
        WebhookAction::CheckoutCompleted
    } else if event_type == "customer.subscription.updated"@ {
        WebhookAction::SubscriptionUpdated
    } else if event_type == "customer.subscription.deleted"@ {
        WebhookAction::SubscriptionDeleted
    } else if event_type == "invoice.payment_succeeded"@ {
        WebhookAction::InvoicePaid
    } else if event_type == "invoice.payment_failed"@ {
        WebhookAction::InvoicePaymentFailed
    } else {
        WebhookAction::Ignore
    }
}

/// Route a signed event. An event without an id is refused: every such
/// Each Stripe event type the webhook handles is routed to its own
/// handler, and every other type is acknowledged and ignored.
pub proof fn law_webhook_routes_each_handled_type(t: Seq<char>)
    ensures
        t == "checkout.session.completed"@ ==> webhook_action_spec(t) == WebhookAction::CheckoutCompleted,
        t == "customer.subscription.updated"@ ==> webhook_action_spec(t) == WebhookAction::SubscriptionUpdated,
        t == "customer.subscription.deleted"@ ==> webhook_action_spec(t) == WebhookAction::SubscriptionDeleted,
        t == "invoice.payment_succeeded"@ ==> webhook_action_spec(t) == WebhookAction::InvoicePaid,
        t == "invoice.payment_failed"@ ==> webhook_action_spec(t) == WebhookAction::InvoicePaymentFailed,
        (webhook_action_spec(t) == WebhookAction::Ignore) <==> (t != "checkout.session.completed"@ && t
            != "customer.subscription.updated"@ && t != "customer.subscription.deleted"@ && t
            != "invoice.payment_succeeded"@ && t != "invoice.payment_failed"@),
{
    reveal_strlit("checkout.session.completed");
    reveal_strlit("customer.subscription.updated");
    reveal_strlit("customer.subscription.deleted");
    reveal_strlit("invoice.payment_succeeded");
    reveal_strlit("invoice.payment_failed");
    let c = "checkout.session.completed"@;
    let u = "customer.subscription.updated"@;
    let d = "customer.subscription.deleted"@;
    let p = "invoice.payment_succeeded"@;
    let f = "invoice.payment_failed"@;
    assert(c.len() == 26 && u.len() == 29 && d.len() == 29 && p.len() == 25 && f.len() == 22);
    assert(u[22] != d[22]);
}

/// event would share one idempotency key.
pub fn classify_webhook(event_type: &str, event_id: &str) -> (r: Result<WebhookAction, ApiError>)
    ensures
        event_id@.len() == 0 ==> is_error(r, 400, "missing event id"@),
        event_id@.len() > 0 ==> r == Ok::<WebhookAction, ApiError>(webhook_action_spec(event_type@)),
{
    if event_id.is_empty() {
        return Err(ApiError::BadRequest(to_owned_string("missing event id")));
    }
    let a = if crate::text::str_eq(event_type, "checkout.session.completed") {
        WebhookAction::CheckoutCompleted
    } else if crate::text::str_eq(event_type, "customer.subscription.updated") {
        WebhookAction::SubscriptionUpdated
    } else if crate::text::str_eq(event_type, "customer.subscription.deleted") {
        WebhookAction::SubscriptionDeleted
    } else if crate::text::str_eq(event_type, "invoice.payment_succeeded") {
        WebhookAction::InvoicePaid
    } else if crate::text::str_eq(event_type, "invoice.payment_failed") {
        WebhookAction::InvoicePaymentFailed
    } else {
        WebhookAction::Ignore
    };
    Ok(a)
}

/// The seat count recorded for a subscription: the quantity Stripe reports,
/// else the fallback, cut to 32 bits as the store keeps it.
pub fn subscription_seats(quantity: Option<i64>, fallback: i64) -> (r: i32)
    ensures
        r == (match quantity {
            Some(q) => q,
            None => fallback,
        }) as i32,
{
    let q = match quantity {
        Some(q) => q,
        None => fallback,
    };
    #[verifier::truncate]
    (q as i32)
}

/// Whether a `checkout.session.completed` event carries all three ids the
/// fulfilment needs: the session, the subscription and the customer.
pub fn checkout_event_ids_present(session_id: &str, subscription_id: &str, customer_id: &str) -> (b: bool)
    ensures
        b == (session_id@.len() > 0 && subscription_id@.len() > 0 && customer_id@.len() > 0),
{
    !session_id.is_empty() && !subscription_id.is_empty() && !customer_id.is_empty()
}

/// Why a completed checkout is acknowledged without provisioning anything.
#[derive(Debug, Clone, Copy, PartialEq, Eq, Structural)]
pub enum CheckoutSkip {
    /// No pending checkout was recorded for the session.
    NoPendingCheckout,
    /// The pending checkout already produced an org.
    AlreadyFulfilled,
    /// The slug belongs to an org of another user; the charge needs a refund.
    SlugTakenByOther,
}

/// The pending checkout found for a session (`None`: none found, else
/// whether it is already fulfilled) decides whether fulfilment goes on.
pub fn pending_checkout_skip(fulfilled: Option<bool>) -> (r: Option<CheckoutSkip>)
    ensures
        r == (match fulfilled {
            None => Some(CheckoutSkip::NoPendingCheckout),
            Some(true) => Some(CheckoutSkip::AlreadyFulfilled),
            Some(false) => None::<CheckoutSkip>,
        }),
{
    match fulfilled {
        None => Some(CheckoutSkip::NoPendingCheckout),
        Some(true) => Some(CheckoutSkip::AlreadyFulfilled),
        Some(false) => None,
    }
}

/// What creating the checkout's org gave.
#[derive(Debug, Clone, Copy, PartialEq, Eq, Structural)]
pub enum OrgCreation {
    Created,
    /// The slug is already taken.
    SlugTaken,
    /// Any other store failure.
    Failed,
}

/// Which org a completed checkout is fulfilled into.
#[derive(Debug, Clone, Copy, PartialEq, Eq, Structural)]
pub enum CheckoutOrg {
    /// The org just created.
    New,
    /// The org that already holds the slug: a redelivery for the same user.
    Existing,
    /// Stop without fulfilling.
    Skip(CheckoutSkip),
    /// The store failure is the answer.
    Fail,
}

/// A taken slug is reused only when the checkout's own user already has an
/// identity in that org; otherwise the user would become admin of a
/// stranger's org, so the checkout is left unfulfilled.
pub fn checkout_org_choice(creation: OrgCreation, owns_existing: bool) -> (r: CheckoutOrg)
    ensures
        r == (match creation {
            OrgCreation::Created => CheckoutOrg::New,
            OrgCreation::SlugTaken => if owns_existing {
                CheckoutOrg::Existing
            } else {
                CheckoutOrg::Skip(CheckoutSkip::SlugTakenByOther)
            },
            OrgCreation::Failed => CheckoutOrg::Fail,
        }),
{
    match creation {
        OrgCreation::Created => CheckoutOrg::New,
        OrgCreation::SlugTaken => if owns_existing {
            CheckoutOrg::Existing
        } else {
            CheckoutOrg::Skip(CheckoutSkip::SlugTakenByOther)
        },
        OrgCreation::Failed => CheckoutOrg::Fail,
    }
}

/// Whether `OffsetDateTime::from_unix_timestamp` accepts a timestamp: the
/// seconds of the crate's date range, years -9999 to 9999 (its
/// `large-dates` feature, which would widen it, is not enabled here).
pub open spec fn timestamp_representable(ts: i64) -> bool {
    -377_705_116_800 <= ts <= 253_402_300_799
}

/// Calls `time::OffsetDateTime::from_unix_timestamp` and reports whether it
/// succeeded: it accepts exactly the timestamps within the crate's date
/// range, -377705116800 (-9999-01-01, by its own day count) to
/// 253402300799 (9999-12-31T23:59:59), as this build has it.
#[verifier::external_body]
fn unix_timestamp_representable(ts: i64) -> (b: bool)
    ensures
        b == timestamp_representable(ts),
{
    time::OffsetDateTime::from_unix_timestamp(ts).is_ok()
}

/// A Stripe period bound kept as a timestamp when the date type can hold it.
pub fn period_timestamp(ts: Option<i64>) -> (r: Option<i64>)
    ensures
        r == (match ts {
            Some(t) => if timestamp_representable(t) { Some(t) } else { None::<i64> },
            None => None::<i64>,
        }),
{
    match ts {
        Some(t) => if unix_timestamp_representable(t) { Some(t) } else { None },
        None => None,
    }
}

/// The subscription columns written from a Stripe subscription object.
#[derive(Debug, Clone, PartialEq, Eq)]
pub struct SubscriptionFields {
    pub seats: i32,
    pub status: String,
    pub current_period_start: Option<i64>,
    pub current_period_end: Option<i64>,
    pub cancel_at_period_end: bool,
}

/// Read a Stripe subscription object: the reported quantity else the
/// fallback seats, the status else `active`, the period bounds that the date
/// type can hold, and `cancel_at_period_end` else false.
pub fn subscription_fields(
    quantity: Option<i64>,
    fallback_seats: i64,
    status: Option<&str>,
    period_start: Option<i64>,
    period_end: Option<i64>,
    cancel_at_period_end: Option<bool>,
) -> (r: SubscriptionFields)
    ensures
        r.seats == (match quantity {
            Some(q) => q,
            None => fallback_seats,
        }) as i32,
        r.status@ == (match status {
            Some(s) => s@,
            None => "active"@,
        }),
        r.current_period_start == (match period_start {
            Some(t) => if timestamp_representable(t) { Some(t) } else { None::<i64> },
            None => None::<i64>,
        }),
        r.current_period_end == (match period_end {
            Some(t) => if timestamp_representable(t) { Some(t) } else { None::<i64> },
            None => None::<i64>,
        }),
        r.cancel_at_period_end == (match cancel_at_period_end {
            Some(c) => c,
            None => false,
        }),
{
    let status = match status {
        Some(s) => to_owned_string(s),
        None => to_owned_string("active"),
    };
    SubscriptionFields {
        seats: subscription_seats(quantity, fallback_seats),
        status,
        current_period_start: period_timestamp(period_start),
        current_period_end: period_timestamp(period_end),
        cancel_at_period_end: match cancel_at_period_end {
            Some(c) => c,
            None => false,
        },
    }
}

/// The seats assumed when a `customer.subscription.updated` event reports
/// no quantity.
pub const UPDATED_SUBSCRIPTION_DEFAULT_SEATS: i64 = 2;

/// A trial an operator granted, as of now.
#[derive(Debug, Clone, Copy, PartialEq, Eq, Structural)]
pub enum TrialState {
    NoTrial,
    Active { ends_at: i64 },
    Expired { ends_at: i64 },
}

/// The subscription summary a dashboard shows.
#[derive(Debug, Clone, PartialEq, Eq)]
pub struct PlanSummary {
    pub plan: String,
    pub seats: i32,
    pub status: String,
    pub currency: String,
    pub current_period_end: Option<i64>,
    pub cancel_at_period_end: bool,
}

/// The summary for an org that has no Stripe subscription by design: a
/// courtesy org first, then an operator-granted trial; `None` when the org
/// is billed through Stripe.
pub fn synthetic_plan(free_unlimited: bool, trial: TrialState) -> (r: Option<PlanSummary>)
    ensures
        free_unlimited ==> (r matches Some(p) && p.plan@ == "free_unlimited"@ && p.seats == 0
            && p.status@ == "active"@ && p.currency@.len() == 0 && p.current_period_end is None
            && !p.cancel_at_period_end),
        (!free_unlimited && trial is Active) ==> (r matches Some(p)
            && p.plan@ == "trial"@ && p.seats == 0 && p.status@ == "trialing"@ && p.currency@.len() == 0
            && p.current_period_end == Some(trial->Active_ends_at) && !p.cancel_at_period_end),
        (!free_unlimited && trial is Expired) ==> (r matches Some(p)
            && p.plan@ == "trial"@ && p.seats == 0 && p.status@ == "trial_expired"@ && p.currency@.len() == 0
            && p.current_period_end == Some(trial->Expired_ends_at) && !p.cancel_at_period_end),
        !free_unlimited && trial is NoTrial ==> r is None,
{
    if free_unlimited {
        return Some(PlanSummary {
            plan: to_owned_string("free_unlimited"),
            seats: 0,
            status: to_owned_string("active"),
            currency: String::new(),
            current_period_end: None,
            cancel_at_period_end: false,
        });
    }
    match trial {
        TrialState::Active { ends_at } => Some(PlanSummary {
            plan: to_owned_string("trial"),
            seats: 0,
            status: to_owned_string("trialing"),
            currency: String::new(),
            current_period_end: Some(ends_at),
            cancel_at_period_end: false,
        }),
        TrialState::Expired { ends_at } => Some(PlanSummary {
            plan: to_owned_string("trial"),
            seats: 0,
            status: to_owned_string("trial_expired"),
            currency: String::new(),
            current_period_end: Some(ends_at),
            cancel_at_period_end: false,
        }),
        TrialState::NoTrial => None,
    }
}

} // verus!
