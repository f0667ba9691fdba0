//! Who may sign in to a corporate org through its subdomain, and how the
//! sign-in is bound to an actor there: the existing identity of the IdP
//! subject, the account's existing identity, a pre-created member with the
//! same e-mail, or a fresh admission through the org's gate. Also the
//! steps of a first root login, which provisions a personal org.

use vstd::prelude::*;
use crate::error::{ApiError, is_error};
use crate::login::ascii_lowercase;
use crate::magic_link::lowercase_spec;
use crate::text::{chars_of, push_str, str_eq, to_owned_string};

verus! {

/// The characters after the last `@` of an address (all of it without
/// one), as `rsplit('@').next()` gives them.
pub open spec fn email_domain_raw(email: Seq<char>) -> Seq<char> {
    match crate::login::after_last(email, '@') {
        Some(d) => d,
        None => email,
    }
}

/// The domain an address is admitted by: its part after the last `@`,
/// lower-cased.
pub open spec fn email_domain(email: Seq<char>) -> Seq<char> {
    lowercase_spec(email_domain_raw(email))
}

/// ASCII case-insensitive equality, as `str::eq_ignore_ascii_case`.
pub open spec fn eq_ignore_ascii_case(a: Seq<char>, b: Seq<char>) -> bool {
    ascii_lowercase(a) == ascii_lowercase(b)
}

/// Whether some listed domain matches `domain`, ignoring ASCII case.
pub open spec fn domain_listed(list: Seq<Seq<char>>, domain: Seq<char>) -> bool {
    exists|i: int| 0 <= i < list.len() && eq_ignore_ascii_case(#[trigger] list[i], domain)
}

fn domain_listed_exec(list: &[String], domain: &str) -> (r: bool)
    ensures
        r == domain_listed(crate::audit::string_views(list@), domain@),
{
    let d = crate::login::to_ascii_lowercase(domain);
    let mut i: usize = 0;
    while i < list.len()
        invariant
            i <= list@.len(),
            d@ == ascii_lowercase(domain@),
            forall|j: int| 0 <= j < i ==> !eq_ignore_ascii_case(
                #[trigger] crate::audit::string_views(list@)[j],
                domain@,
            ),
        decreases list@.len() - i,
    {
        let x = crate::login::to_ascii_lowercase(list[i].as_str());
        if crate::text::chars_eq(x.as_slice(), d.as_slice()) {
            assert(eq_ignore_ascii_case(crate::audit::string_views(list@)[i as int], domain@));
            return true;
        }
        i = i + 1;
    }
    false
}

/// The admission check in front of a brand-new member. A self-hosted deployment pinned
/// to this org admits anyone its own IdP authenticated. An org using the
/// Overslash-managed sign-in admits only invitees when invites are
/// required, else addresses whose domain is on its (non-empty) allowlist.
/// Otherwise the org's own IdP configuration must exist, and its domain
/// list, when not empty, must hold the address's domain.
pub open spec fn admission_gate_spec(
    slug: Seq<char>,
    single_org_mode: Option<Seq<char>>,
    allow_managed: bool,
    require_invite: bool,
    managed_domains: Seq<Seq<char>>,
    idp_domains: Option<Seq<Seq<char>>>,
    email: Seq<char>,
) -> Result<(), Seq<char>> {
    if single_org_mode == Some(slug) {
        Ok(())
    } else if allow_managed {
        if require_invite {
            Err("not_invited"@)
        } else if managed_domains.len() == 0 {
            Err("domain_admission_not_configured"@)
        } else if !domain_listed(managed_domains, email_domain(email)) {
            Err("domain_not_allowed"@)
        } else {
            Ok(())
        }
    } else {
        match idp_domains {
            None => Err("not_permitted_by_org_idp"@),
            Some(list) => if list.len() > 0 && !domain_listed(list, email_domain(email)) {
                Err("not_permitted_by_org_idp"@)
            } else {
                Ok(())
            },
        }
    }
}

fn email_domain_exec(email: &str) -> (d: String)
    ensures
        d@ == email_domain(email@),
{
    let v = chars_of(email);
    let raw = match crate::login::chars_after_last(v.as_slice(), '@') {
        Some(x) => x,
        None => v,
    };
    let s = crate::text::string_from_chars(raw.as_slice());
    crate::magic_link::to_lowercase(s.as_str())
}

/// Check a brand-new member against the org's admission gate; a refusal is
/// a 403 carrying the reason.
pub fn admission_gate(
    slug: &str,
    single_org_mode: Option<&str>,
    allow_managed: bool,
    require_invite: bool,
    managed_domains: &[String],
    idp_domains: Option<&[String]>,
    email: &str,
) -> (r: Result<(), ApiError>)
    ensures
        match admission_gate_spec(
            slug@,
            crate::cookies::opt_str(single_org_mode),
            allow_managed,
            require_invite,
            crate::audit::string_views(managed_domains@),
            match idp_domains {
                Some(l) => Some(crate::audit::string_views(l@)),
                None => None,
            },
            email@,
        ) {
            Ok(()) => r is Ok,
            Err(m) => is_error(r, 403, m),
        },
{
    let pinned = match single_org_mode {
        Some(p) => str_eq(p, slug),
        None => false,
    };
    if pinned {
        return Ok(());
    }
    if allow_managed {
        if require_invite {
            return Err(ApiError::Forbidden(to_owned_string("not_invited")));
        }
        if managed_domains.len() == 0 {
            return Err(ApiError::Forbidden(to_owned_string("domain_admission_not_configured")));
        }
        let d = email_domain_exec(email);
        if !domain_listed_exec(managed_domains, d.as_str()) {
            return Err(ApiError::Forbidden(to_owned_string("domain_not_allowed")));
        }
        Ok(())
    } else {
        match idp_domains {
            None => Err(ApiError::Forbidden(to_owned_string("not_permitted_by_org_idp"))),
            Some(list) => {
                if list.len() > 0 {
                    let d = email_domain_exec(email);
                    if !domain_listed_exec(list, d.as_str()) {
                        return Err(ApiError::Forbidden(to_owned_string("not_permitted_by_org_idp")));
                    }
                }
                Ok(())
            },
        }
    }
}

/// An identity the sign-in may land on: its id, the user it is linked to,
/// and whether an IdP subject has claimed it.
#[derive(Debug, Clone, Copy, PartialEq, Eq, Structural)]
pub struct IdentityFacts {
    pub identity_id: u128,
    pub user_id: Option<u128>,
    pub has_external_id: bool,
}

/// What the store knows about a corporate org when one of its members signs
/// in through its subdomain.
#[derive(Debug, Clone)]
pub struct OrgLoginFacts {
    pub is_personal: bool,
    pub allow_managed_signin: bool,
    pub require_invite_admission: bool,
    pub managed_signin_allowed_domains: Vec<String>,
    /// The org's configuration of the signing-in provider, by its allowed
    /// e-mail domains; `None` when the org has not configured it.
    pub idp_allowed_domains: Option<Vec<String>>,
    /// The identity already bound to the IdP subject in this org.
    pub subject_identity: Option<IdentityFacts>,
    /// The Overslash-backed account behind the IdP subject.
    pub overslash_user: Option<u128>,
    /// That account's identity in this org.
    pub account_identity: Option<IdentityFacts>,
    /// A user identity with the signing-in e-mail in this org.
    pub email_identity: Option<IdentityFacts>,
}

/// The user a sign-in is bound to.
#[derive(Debug, Clone, Copy, PartialEq, Eq, Structural)]
pub enum UserChoice {
    Existing(u128),
    NewOrgOnly,
}

/// How a subdomain sign-in proceeds.
#[derive(Debug, Clone, Copy, PartialEq, Eq, Structural)]
pub enum OrgLoginPlan {
    /// The subject is known here: refresh that identity's profile.
    Returning { identity_id: u128, user_id: u128 },
    /// The account already acts in this org under another address: adopt
    /// that identity, claiming the subject if none has.
    AdoptByUser { identity_id: u128, user_id: u128, claim_subject: bool },
    /// A member was pre-created with this e-mail: adopt it, link the user,
    /// and finish the invite when it was never signed in.
    AdoptByEmail { identity_id: u128, user: UserChoice, claim_subject: bool, complete_invite: bool },
    /// A brand-new member passed admission: create a user-kind identity
    /// bound to the IdP subject and e-mail, link it to the user, and give
    /// the user a membership with `role` (always a plain member: admission
    /// never makes an admin; an existing membership is kept).
    Admit { user: UserChoice, role: MemberRole },
}

/// A membership's role.
#[derive(Debug, Clone, Copy, PartialEq, Eq, Structural)]
pub enum MemberRole {
    Admin,
    Member,
}

impl MemberRole {
    /// The role as the store writes it.
    pub fn as_str(self) -> (s: &'static str)
        ensures
            s@ == (match self {
                MemberRole::Admin => "admin"@,
                MemberRole::Member => "member"@,
            }),
    {
        match self {
            MemberRole::Admin => "admin",
            MemberRole::Member => "member",
        }
    }
}

/// What inserting a membership gave.
#[derive(Debug, Clone, Copy, PartialEq, Eq, Structural)]
pub enum MembershipInsert {
    Inserted,
    /// The user already holds a membership in the org.
    AlreadyMember,
    Failed,
}

/// An admitted member's membership: a new row, or the existing one kept
/// as it is (its role untouched); only a store failure fails the sign-in.
/// `Ok(true)` when a row was created.
pub fn admission_membership(insert: MembershipInsert) -> (r: Result<bool, ()>)
    ensures
        r == (match insert {
            MembershipInsert::Inserted => Ok::<bool, ()>(true),
            MembershipInsert::AlreadyMember => Ok::<bool, ()>(false),
            MembershipInsert::Failed => Err::<bool, ()>(()),
        }),
{
    match insert {
        MembershipInsert::Inserted => Ok(true),
        MembershipInsert::AlreadyMember => Ok(false),
        MembershipInsert::Failed => Err(()),
    }
}

/// The plan for a subdomain sign-in, checked in this order: the org must
/// exist and not be personal; a known subject returns (its identity must be
/// linked to a user); the account's identity is adopted before an e-mail
/// match; only then does a brand-new member face the admission gate.
pub open spec fn org_login_spec(
    facts: Option<OrgLoginFacts>,
    slug: Seq<char>,
    single_org_mode: Option<Seq<char>>,
    email: Seq<char>,
) -> Result<OrgLoginPlan, (u16, Seq<char>)> {
    match facts {
        None => Err((404u16, "org not found: "@ + slug)),
        Some(f) => if f.is_personal {
            Err((400u16, "personal orgs do not accept IdP logins"@))
        } else if f.subject_identity is Some {
            match f.subject_identity->0.user_id {
                Some(u) => Ok(OrgLoginPlan::Returning { identity_id: f.subject_identity->0.identity_id, user_id: u }),
                None => Err((500u16, "org-identity missing user_id; migration 040 backfill incomplete"@)),
            }
        } else if f.overslash_user is Some && f.account_identity is Some {
            Ok(OrgLoginPlan::AdoptByUser {
                identity_id: f.account_identity->0.identity_id,
                user_id: f.overslash_user->0,
                claim_subject: !f.account_identity->0.has_external_id,
            })
        } else if f.email_identity is Some {
            let e = f.email_identity->0;
            Ok(OrgLoginPlan::AdoptByEmail {
                identity_id: e.identity_id,
                user: match e.user_id {
                    Some(u) => UserChoice::Existing(u),
                    None => match f.overslash_user {
                        Some(u) => UserChoice::Existing(u),
                        None => UserChoice::NewOrgOnly,
                    },
                },
                claim_subject: !e.has_external_id,
                complete_invite: e.user_id is None,
            })
        } else {
            match admission_gate_spec(
                slug,
                single_org_mode,
                f.allow_managed_signin,
                f.require_invite_admission,
                crate::audit::string_views(f.managed_signin_allowed_domains@),
                match f.idp_allowed_domains {
                    Some(l) => Some(crate::audit::string_views(l@)),
                    None => None,
                },
                email,
            ) {
                Err(m) => Err((403u16, m)),
                Ok(()) => Ok(OrgLoginPlan::Admit {
                    user: match f.overslash_user {
                        Some(u) => UserChoice::Existing(u),
                        None => UserChoice::NewOrgOnly,
                    },
                    role: MemberRole::Member,
                }),
            }
        },
    }
}

/// Decide how a sign-in through an org's subdomain proceeds.
pub fn plan_org_login(
    facts: Option<&OrgLoginFacts>,
    slug: &str,
    single_org_mode: Option<&str>,
    email: &str,
) -> (r: Result<OrgLoginPlan, ApiError>)
    ensures
        match org_login_spec(
            match facts {
                Some(f) => Some(*f),
                None => None,
            },
            slug@,
            crate::cookies::opt_str(single_org_mode),
            email@,
        ) {
            Ok(p) => r == Ok::<OrgLoginPlan, ApiError>(p),
            Err((code, m)) => is_error(r, code, m),
        },
{
    let f = match facts {
        None => {
            let mut m = String::new();
            push_str(&mut m, "org not found: ");
            push_str(&mut m, slug);
            return Err(ApiError::NotFound(m));
        },
        Some(f) => f,
    };
    if f.is_personal {
        return Err(ApiError::BadRequest(to_owned_string("personal orgs do not accept IdP logins")));
    }
    if let Some(sub) = f.subject_identity {
        return match sub.user_id {
            Some(u) => Ok(OrgLoginPlan::Returning { identity_id: sub.identity_id, user_id: u }),
            None => Err(
                ApiError::Internal(to_owned_string("org-identity missing user_id; migration 040 backfill incomplete")),
            ),
        };
    }
    if let (Some(u), Some(acc)) = (f.overslash_user, f.account_identity) {
        return Ok(OrgLoginPlan::AdoptByUser {
            identity_id: acc.identity_id,
            user_id: u,
            claim_subject: !acc.has_external_id,
        });
    }
    if let Some(e) = f.email_identity {
        let user = match e.user_id {
            Some(u) => UserChoice::Existing(u),
            None => match f.overslash_user {
                Some(u) => UserChoice::Existing(u),
                None => UserChoice::NewOrgOnly,
            },
        };
        return Ok(OrgLoginPlan::AdoptByEmail {
            identity_id: e.identity_id,
            user,
            claim_subject: !e.has_external_id,
            complete_invite: e.user_id.is_none(),
        });
    }
    let idp = match &f.idp_allowed_domains {
        Some(l) => Some(l.as_slice()),
        None => None,
    };
    match admission_gate(
        slug,
        single_org_mode,
        f.allow_managed_signin,
        f.require_invite_admission,
        f.managed_signin_allowed_domains.as_slice(),
        idp,
        email,
    ) {
        Err(e) => Err(e),
        Ok(()) => Ok(OrgLoginPlan::Admit {
            user: match f.overslash_user {
                Some(u) => UserChoice::Existing(u),
                None => UserChoice::NewOrgOnly,
            },
            role: MemberRole::Member,
        }),
    }
}

/// A sign-in never creates a second user for an account that exists: a
/// plan that binds to a new org-only user is made only when the IdP
/// subject has no Overslash account; and a member pre-created with this
/// e-mail is bound to its own user when it has one, else to the signing-in
/// account's user when there is one.
pub proof fn law_existing_account_is_reused(
    facts: Option<OrgLoginFacts>,
    slug: Seq<char>,
    single_org_mode: Option<Seq<char>>,
    email: Seq<char>,
)
    ensures
        match org_login_spec(facts, slug, single_org_mode, email) {
            Ok(OrgLoginPlan::AdoptByEmail { identity_id, user, .. }) => {
                &&& facts is Some
                &&& facts->0.email_identity is Some
                &&& identity_id == facts->0.email_identity->0.identity_id
                &&& (user == UserChoice::NewOrgOnly ==> facts->0.overslash_user is None)
                &&& (facts->0.email_identity->0.user_id is Some ==> user
                    == UserChoice::Existing(facts->0.email_identity->0.user_id->0))
                &&& (facts->0.email_identity->0.user_id is None && facts->0.overslash_user is Some
                    ==> user == UserChoice::Existing(facts->0.overslash_user->0))
            },
            Ok(OrgLoginPlan::Admit { user, .. }) => {
                &&& facts is Some
                &&& (user == UserChoice::NewOrgOnly <==> facts->0.overslash_user is None)
                &&& (facts->0.overslash_user is Some ==> user == UserChoice::Existing(
                    facts->0.overslash_user->0,
                ))
            },
            _ => true,
        },
{
}

/// Admission never makes an admin: whenever a sign-in is admitted as a
/// brand-new member, its membership role is `Member`.
pub proof fn law_admission_never_grants_admin(
    facts: Option<OrgLoginFacts>,
    slug: Seq<char>,
    single_org_mode: Option<Seq<char>>,
    email: Seq<char>,
)
    ensures
        org_login_spec(facts, slug, single_org_mode, email) matches Ok(OrgLoginPlan::Admit { role, .. })
            ==> role == MemberRole::Member,
{
}

/// A brand-new member the admission gate refuses is refused as a whole:
/// no plan binds such a sign-in to any identity.
pub proof fn law_gate_refusal_blocks_admission(
    facts: OrgLoginFacts,
    slug: Seq<char>,
    single_org_mode: Option<Seq<char>>,
    email: Seq<char>,
)
    requires
        !facts.is_personal,
        facts.subject_identity is None,
        !(facts.overslash_user is Some && facts.account_identity is Some),
        facts.email_identity is None,
        admission_gate_spec(
            slug,
            single_org_mode,
            facts.allow_managed_signin,
            facts.require_invite_admission,
            crate::audit::string_views(facts.managed_signin_allowed_domains@),
            match facts.idp_allowed_domains {
                Some(l) => Some(crate::audit::string_views(l@)),
                None => None,
            },
            email,
        ) is Err,
    ensures
        org_login_spec(Some(facts), slug, single_org_mode, email) is Err,
{
}

/// An org on invite-only managed sign-in admits no stranger: an address
/// with no pre-created identity is refused with `not_invited`, whatever its
/// domain, unless the deployment is pinned to this org.
pub proof fn law_invite_only_refuses_strangers(
    slug: Seq<char>,
    single_org_mode: Option<Seq<char>>,
    managed_domains: Seq<Seq<char>>,
    idp_domains: Option<Seq<Seq<char>>>,
    email: Seq<char>,
)
    requires
        single_org_mode != Some(slug),
    ensures
        admission_gate_spec(slug, single_org_mode, true, true, managed_domains, idp_domains, email) == Err::<
            (),
            Seq<char>,
        >("not_invited"@),
{
}

/// The slug of a new personal org: `personal-` and the suffix as sixteen
/// lowercase hex digits.
pub open spec fn personal_slug_spec(suffix: u64) -> Seq<char> {
    "personal-"@ + Seq::new(16, |i: int| crate::codec::hex_digit((suffix as int / pow16(15 - i)) % 16))
}

/// `16^k`.
pub open spec fn pow16(k: int) -> int
    decreases k,
{
    if k <= 0 {
        1
    } else {
        16 * pow16(k - 1)
    }
}

/// `rand::random::<u64>()`: 64 random bits. Nothing is stated of them.
#[verifier::external_body]
fn random_u64() -> u64 {
    rand::random::<u64>()
}

/// The slug for a personal org with `suffix`.
pub fn personal_slug(suffix: u64) -> (s: String)
    ensures
        s@ == personal_slug_spec(suffix),
{
    let mut s = String::new();
    push_str(&mut s, "personal-");
    let ghost start = s@;
    let mut k: usize = 0;
    let mut div: u64 = 1152921504606846976;
    let digits: [char; 16] = ['0', '1', '2', '3', '4', '5', '6', '7', '8', '9', 'a', 'b', 'c', 'd', 'e', 'f'];
    proof {
        reveal_with_fuel(pow16, 16);
        assert(pow16(15) == 1152921504606846976);
    }
    while k < 16
        invariant
            k <= 16,
            k < 16 ==> div as int == pow16(15 - k as int),
            div > 0,
            s@.len() == start.len() + k,
            start == "personal-"@,
            forall|i: int| 0 <= i < k ==> #[trigger] s@[start.len() + i] == crate::codec::hex_digit(
                (suffix as int / pow16(15 - i)) % 16,
            ),
            forall|i: int| 0 <= i < start.len() ==> s@[i] == start[i],
            digits@ == seq!['0', '1', '2', '3', '4', '5', '6', '7', '8', '9', 'a', 'b', 'c', 'd', 'e', 'f'],
        decreases 16 - k,
    {
        let d = ((suffix / div) % 16) as usize;
        push_char_digit(&mut s, digits[d]);
        if k < 15 {
            proof {
                assert(pow16(15 - k as int) == 16 * pow16(15 - (k + 1) as int));
                lemma_pow16_pos(15 - (k + 1) as int);
            }
            div = div / 16;
        }
        k = k + 1;
    }
    proof {
        let want = personal_slug_spec(suffix);
        assert(want.len() == s@.len());
        assert forall|j: int| 0 <= j < s@.len() implies s@[j] == want[j] by {
            if j >= start.len() {
                let i = j - start.len();
                assert(s@[start.len() + i] == crate::codec::hex_digit((suffix as int / pow16(15 - i)) % 16));
            }
        }
        assert(s@ =~= want);
    }
    s
}

proof fn lemma_pow16_pos(k: int)
    ensures
        pow16(k) > 0,
    decreases k,
{
    if k > 0 {
        lemma_pow16_pos(k - 1);
    }
}

fn push_char_digit(s: &mut String, c: char)
    ensures
        final(s)@ == old(s)@.push(c),
{
    crate::text::push_char(s, c);
}

/// A fresh personal org slug.
pub fn generate_personal_slug() -> (s: String)
    ensures
        exists|x: u64| s@ == personal_slug_spec(x),
{
    let x = random_u64();
    personal_slug(x)
}

/// How many fresh slugs a first root login tries after the first one is
/// taken.
pub const PERSONAL_SLUG_RETRIES: u32 = 5;

/// What a first root login does after trying to create its personal org.
#[derive(Debug, Clone, Copy, PartialEq, Eq, Structural)]
pub enum PersonalOrgStep {
    /// The org was created.
    Created,
    /// The slug was taken: try again with a fresh one.
    RetryFreshSlug,
    /// Give up with the store's error.
    Fail,
}

/// After `attempts` retries, a taken slug is retried with a fresh one until
/// the retries run out; any other failure ends the login.
pub fn personal_org_step(created: bool, slug_taken: bool, attempts: u32) -> (r: PersonalOrgStep)
    ensures
        created ==> r == PersonalOrgStep::Created,
        !created && slug_taken && attempts < PERSONAL_SLUG_RETRIES ==> r == PersonalOrgStep::RetryFreshSlug,
        !created && !(slug_taken && attempts < PERSONAL_SLUG_RETRIES) ==> r == PersonalOrgStep::Fail,
{
    if created {
        PersonalOrgStep::Created
    } else if slug_taken && attempts < PERSONAL_SLUG_RETRIES {
        PersonalOrgStep::RetryFreshSlug
    } else {
        PersonalOrgStep::Fail
    }
}

/// `2^k`.
pub open spec fn pow2(k: nat) -> nat
    decreases k,
{
    if k == 0 {
        1
    } else {
        2 * pow2((k - 1) as nat)
    }
}

/// How many times a login that lost the first-login race re-reads the
/// winner's row before giving up.
pub const WINNER_POLL_ATTEMPTS: u32 = 5;

/// The pause before the winner's row is re-read for the `attempts`-th time:
/// 50 ms, doubled each time (at most 800 ms).
pub fn winner_poll_delay_ms(attempts: u32) -> (ms: u64)
    requires
        attempts < WINNER_POLL_ATTEMPTS,
    ensures
        ms == 50 * pow2(attempts as nat),
{
    proof {
        reveal_with_fuel(pow2, 5);
    }
    let mut ms: u64 = 50;
    let mut k: u32 = 0;
    while k < attempts
        invariant
            k <= attempts < WINNER_POLL_ATTEMPTS,
            ms == 50 * pow2(k as nat),
            ms <= 800,
        decreases attempts - k,
    {
        proof {
            assert(pow2((k + 1) as nat) == 2 * pow2(k as nat));
            lemma_pow2_small(k as nat);
        }
        ms = ms * 2;
        k = k + 1;
    }
    ms
}

proof fn lemma_pow2_small(k: nat)
    requires
        k < 4,
    ensures
        pow2(k) <= 8,
{
    reveal_with_fuel(pow2, 5);
}

/// Whether the winner's row is read again: it still has no personal org and
/// the attempts are not used up.
pub fn winner_poll_again(has_personal_org: bool, attempts: u32) -> (b: bool)
    ensures
        b == (!has_personal_org && attempts < WINNER_POLL_ATTEMPTS),
{
    !has_personal_org && attempts < WINNER_POLL_ATTEMPTS
}

/// A returning root user's personal org, which every such user must have.
pub fn returning_user_personal_org(personal_org_id: Option<u128>) -> (r: Result<u128, ApiError>)
    ensures
        personal_org_id matches Some(o) ==> r == Ok::<u128, ApiError>(o),
        personal_org_id is None ==> is_error(
            r,
            500,
            "Overslash-backed user has no personal_org_id; backfill incomplete"@,
        ),
{
    match personal_org_id {
        Some(o) => Ok(o),
        None => Err(ApiError::Internal(to_owned_string(
            "Overslash-backed user has no personal_org_id; backfill incomplete",
        ))),
    }
}

/// The name shown for a new member: the IdP's name, else the address.
pub fn member_display_name<'a>(name: Option<&'a str>, email: &'a str) -> (r: &'a str)
    ensures
        r == (match name {
            Some(n) => n,
            None => email,
        }),
{
    match name {
        Some(n) => n,
        None => email,
    }
}

} // verus!
