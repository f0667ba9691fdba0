//! Development sign-in: the deterministic dev profiles and the dev org a
//! dev login lands in (the shared `dev-org`, or a per-run scoped org).

use vstd::prelude::*;
use crate::error::{ApiError, is_error};
use crate::text::{chars_of, push_str, str_eq, to_owned_string, trim_chars, trim_spec, string_from_chars};

verus! {

/// The debug rendering of a string (quoted, with escapes), as `{:?}`
/// writes it.
pub uninterp spec fn str_debug_spec(s: Seq<char>) -> Seq<char>;

/// `format!("{:?}", s)` for a string slice.
#[verifier::external_body]
fn debug_quoted(s: &str) -> (r: String)
    ensures
        r@ == str_debug_spec(s@),
{
    format!("{:?}", s)
}

/// Where a dev login lands: the shared `dev-org`, or a scoped org named
/// by `?org=`.
#[derive(Debug, Clone, PartialEq, Eq)]
pub enum DevOrg {
    Shared,
    Scoped(String),
}

/// Whether a character may stand in a dev org slug.
pub open spec fn slug_char_ok(c: char) -> bool {
    ('a' <= c && c <= 'z') || ('0' <= c && c <= '9') || c == '-'
}

/// The public slug rules: 2 to 63 characters of `[a-z0-9-]`, no leading or
/// trailing hyphen. (Such a slug is ASCII, so its length in characters is
/// its length in bytes.)
pub open spec fn dev_slug_ok(s: Seq<char>) -> bool {
    &&& 2 <= s.len() <= 63
    &&& forall|i: int| 0 <= i < s.len() ==> slug_char_ok(#[trigger] s[i])
    &&& s[0] != '-'
    &&& s.last() != '-'
}

/// The message for a slug that breaks the rules.
pub open spec fn invalid_slug_message(slug: Seq<char>) -> Seq<char> {
    "invalid dev org slug "@ + str_debug_spec(slug) + ": 2-63 chars of [a-z0-9-], no leading/trailing hyphen"@
}

/// The model of a dev org choice: `None` for the shared org.
pub open spec fn dev_org_view(o: DevOrg) -> Option<Seq<char>> {
    match o {
        DevOrg::Shared => None,
        DevOrg::Scoped(s) => Some(s@),
    }
}

fn dev_slug_ok_exec(s: &[char]) -> (r: bool)
    ensures
        r == dev_slug_ok(s@),
{
    if s.len() < 2 || s.len() > 63 {
        return false;
    }
    let mut i: usize = 0;
    while i < s.len()
        invariant
            i <= s@.len(),
            forall|j: int| 0 <= j < i ==> slug_char_ok(#[trigger] s@[j]),
        decreases s@.len() - i,
    {
        let c = s[i];
        if !(('a' <= c && c <= 'z') || ('0' <= c && c <= '9') || c == '-') {
            assert(!slug_char_ok(s@[i as int]));
            return false;
        }
        i = i + 1;
    }
    s[0] != '-' && s[s.len() - 1] != '-'
}

impl DevOrg {
    /// Read `?org=`: absent means the shared org; otherwise the trimmed slug
    /// must follow the public slug rules and must not be `dev-org`, which
    /// would collide with the shared org under scoped e-mails.
    pub fn parse(slug: Option<&str>) -> (r: Result<DevOrg, ApiError>)
        ensures
            slug is None ==> r == Ok::<DevOrg, ApiError>(DevOrg::Shared),
            (slug matches Some(s) && !dev_slug_ok(trim_spec(s@))) ==> is_error(
                r,
                400,
                invalid_slug_message(trim_spec(slug->0@)),
            ),
            (slug matches Some(s) && dev_slug_ok(trim_spec(s@)) && trim_spec(s@) == "dev-org"@) ==> is_error(
                r,
                400,
                "dev org slug 'dev-org' is reserved — omit ?org= to use the shared org"@,
            ),
            (slug matches Some(s) && dev_slug_ok(trim_spec(s@)) && trim_spec(s@) != "dev-org"@) ==> (r matches Ok(
                o,
            ) && dev_org_view(o) == Some(trim_spec(slug->0@))),
    {
        let raw = match slug {
            None => return Ok(DevOrg::Shared),
            Some(s) => s,
        };
        let t = trim_chars(chars_of(raw).as_slice());
        let ts = string_from_chars(t.as_slice());
        if !dev_slug_ok_exec(t.as_slice()) {
            let mut m = String::new();
            push_str(&mut m, "invalid dev org slug ");
            let q = debug_quoted(ts.as_str());
            push_str(&mut m, q.as_str());
            push_str(&mut m, ": 2-63 chars of [a-z0-9-], no leading/trailing hyphen");
            return Err(ApiError::BadRequest(m));
        }
        if str_eq(ts.as_str(), "dev-org") {
            return Err(
                ApiError::BadRequest(
                    to_owned_string("dev org slug 'dev-org' is reserved — omit ?org= to use the shared org"),
                ),
            );
        }
        Ok(DevOrg::Scoped(ts))
    }

    /// The org's slug.
    pub fn slug(&self) -> (s: &str)
        ensures
            s@ == (match dev_org_view(*self) {
                Some(x) => x,
                None => "dev-org"@,
            }),
    {
        match self {
            DevOrg::Shared => "dev-org",
            DevOrg::Scoped(s) => s.as_str(),
        }
    }

    /// The org's display name: `Dev Org`, or `Dev Org (<slug>)`.
    pub fn display_name(&self) -> (s: String)
        ensures
            s@ == (match dev_org_view(*self) {
                Some(x) => "Dev Org ("@ + x + ")"@,
                None => "Dev Org"@,
            }),
    {
        match self {
            DevOrg::Shared => to_owned_string("Dev Org"),
            DevOrg::Scoped(x) => {
                let mut s = String::new();
                push_str(&mut s, "Dev Org (");
                push_str(&mut s, x.as_str());
                push_str(&mut s, ")");
                s
            },
        }
    }
}

/// The role a dev login signs in as.
#[derive(Debug, Clone, Copy, PartialEq, Eq, Structural)]
pub enum DevProfile {
    Admin,
    Member,
    Readonly,
}

/// The profile named by `?profile=`: `member` and `readonly` by name,
/// anything else (or nothing) the admin.
pub open spec fn dev_profile_spec(s: Option<Seq<char>>) -> DevProfile {
    match s {
        Some(x) => if x == "member"@ {
            DevProfile::Member
        } else if x == "readonly"@ {
            DevProfile::Readonly
        } else {
            DevProfile::Admin
        },
        None => DevProfile::Admin,
    }
}

/// The local part of a profile's e-mail.
pub open spec fn profile_local(p: DevProfile) -> Seq<char> {
    match p {
        DevProfile::Admin => "dev"@,
        DevProfile::Member => "member"@,
        DevProfile::Readonly => "readonly"@,
    }
}

impl DevProfile {
    /// Read `?profile=`; unknown values fall back to the admin.
    pub fn parse(s: Option<&str>) -> (p: DevProfile)
        ensures
            p == dev_profile_spec(match s {
                Some(x) => Some(x@),
                None => None,
            }),
    {
        match s {
            Some(x) => {
                if str_eq(x, "member") {
                    DevProfile::Member
                } else if str_eq(x, "readonly") {
                    DevProfile::Readonly
                } else {
                    DevProfile::Admin
                }
            },
            None => DevProfile::Admin,
        }
    }

    /// The profile's e-mail in the shared dev org.
    pub fn email(self) -> (s: &'static str)
        ensures
            s@ == profile_local(self) + "@overslash.local"@,
    {
        match self {
            DevProfile::Admin => {
                proof {
                    reveal_strlit("dev@overslash.local");
                    reveal_strlit("dev");
                    reveal_strlit("@overslash.local");
                    assert("dev@overslash.local"@ =~= "dev"@ + "@overslash.local"@);
                }
                "dev@overslash.local"
            },
            DevProfile::Member => {
                proof {
                    reveal_strlit("member@overslash.local");
                    reveal_strlit("member");
                    reveal_strlit("@overslash.local");
                    assert("member@overslash.local"@ =~= "member"@ + "@overslash.local"@);
                }
                "member@overslash.local"
            },
            DevProfile::Readonly => {
                proof {
                    reveal_strlit("readonly@overslash.local");
                    reveal_strlit("readonly");
                    reveal_strlit("@overslash.local");
                    assert("readonly@overslash.local"@ =~= "readonly"@ + "@overslash.local"@);
                }
                "readonly@overslash.local"
            },
        }
    }

    /// The profile's e-mail within a dev org: the shared org keeps the
    /// historical addresses; a scoped org tags the local part with its slug,
    /// so that the global lookup by e-mail never crosses orgs.
    pub fn email_for(self, org: &DevOrg) -> (s: String)
        ensures
            s@ == dev_email_spec(self, dev_org_view(*org)),
    {
        match org {
            DevOrg::Shared => to_owned_string(self.email()),
            DevOrg::Scoped(slug) => {
                let local = match self {
                    DevProfile::Admin => "dev",
                    DevProfile::Member => "member",
                    DevProfile::Readonly => "readonly",
                };
                let mut s = String::new();
                push_str(&mut s, local);
                push_str(&mut s, "+");
                push_str(&mut s, slug.as_str());
                push_str(&mut s, "@overslash.local");
                s
            },
        }
    }

    /// The profile's display name.
    pub fn display_name(self) -> (s: &'static str)
        ensures
            s@ == (match self {
                DevProfile::Admin => "Dev User"@,
                DevProfile::Member => "Dev Member"@,
                DevProfile::Readonly => "Dev Readonly"@,
            }),
    {
        match self {
            DevProfile::Admin => "Dev User",
            DevProfile::Member => "Dev Member",
            DevProfile::Readonly => "Dev Readonly",
        }
    }

    /// The profile's external id.
    pub fn external_id(self) -> (s: &'static str)
        ensures
            s@ == (match self {
                DevProfile::Admin => "dev-local"@,
                DevProfile::Member => "dev-local-member"@,
                DevProfile::Readonly => "dev-local-readonly"@,
            }),
    {
        match self {
            DevProfile::Admin => "dev-local",
            DevProfile::Member => "dev-local-member",
            DevProfile::Readonly => "dev-local-readonly",
        }
    }

    /// The profile's tag in the identity metadata.
    pub fn tag(self) -> (s: &'static str)
        ensures
            s@ == (match self {
                DevProfile::Admin => "admin"@,
                DevProfile::Member => "member"@,
                DevProfile::Readonly => "readonly"@,
            }),
    {
        match self {
            DevProfile::Admin => "admin",
            DevProfile::Member => "member",
            DevProfile::Readonly => "readonly",
        }
    }

    /// Whether the profile joins the org's admins.
    pub fn is_admin(self) -> (b: bool)
        ensures
            b == (self == DevProfile::Admin),
    {
        match self {
            DevProfile::Admin => true,
            _ => false,
        }
    }
}

/// The lifetime of a session token, in seconds: a week.
pub const SESSION_TTL_SECS: i64 = 604800;

/// When a session minted at `now` expires.
pub fn session_expiry(now: i64) -> (exp: i64)
    requires
        now <= i64::MAX - SESSION_TTL_SECS,
    ensures
        exp == now + SESSION_TTL_SECS,
{
    now + SESSION_TTL_SECS
}

/// The local part of a profile's address in a dev org: the profile's name,
/// tagged `+<slug>` in a scoped org.
pub open spec fn dev_email_local(p: DevProfile, org: Option<Seq<char>>) -> Seq<char> {
    match org {
        None => profile_local(p),
        Some(slug) => profile_local(p) + "+"@ + slug,
    }
}

/// A profile's address in a dev org (`None`: the shared org).
pub open spec fn dev_email_spec(p: DevProfile, org: Option<Seq<char>>) -> Seq<char> {
    dev_email_local(p, org) + "@overslash.local"@
}

proof fn lemma_profile_local_plain(p: DevProfile)
    ensures
        forall|i: int| 0 <= i < profile_local(p).len() ==> profile_local(p)[i] != '+',
        p == DevProfile::Admin ==> profile_local(p).len() == 3,
        p == DevProfile::Member ==> profile_local(p).len() == 6,
        p == DevProfile::Readonly ==> profile_local(p).len() == 8,
{
    reveal_strlit("dev");
    reveal_strlit("member");
    reveal_strlit("readonly");
}

/// No two dev logins share an address: two addresses of dev profiles, each
/// in the shared org or in a scoped org, are equal only for the same
/// profile in the same org. So different profiles differ within an org,
/// one profile differs across scoped orgs, and a scoped address never
/// equals a shared one.
pub proof fn law_dev_emails_distinct(p: DevProfile, q: DevProfile, o1: Option<Seq<char>>, o2: Option<Seq<char>>)
    ensures
        dev_email_spec(p, o1) == dev_email_spec(q, o2) ==> p == q && o1 == o2,
{
    reveal_strlit("+");
    reveal_strlit("@overslash.local");
    lemma_profile_local_plain(p);
    lemma_profile_local_plain(q);
    let sfx = "@overslash.local"@;
    let plus = "+"@;
    assert(sfx.len() == 16);
    assert(plus.len() == 1 && plus[0] == '+');
    let h1 = dev_email_local(p, o1);
    let h2 = dev_email_local(q, o2);
    let e1 = dev_email_spec(p, o1);
    let e2 = dev_email_spec(q, o2);
    let lp = profile_local(p);
    let lq = profile_local(q);
    if e1 == e2 {
        assert(e1.len() == h1.len() + 16);
        assert(e2.len() == h2.len() + 16);
        assert(h1 =~= e1.take(h1.len() as int));
        assert(h2 =~= e2.take(h2.len() as int));
        assert(h1 == h2);
        match (o1, o2) {
            (None, None) => {
                assert(lp.len() == lq.len());
            },
            (Some(a), None) => {
                assert(h1[lp.len() as int] == '+');
                assert(h2[lp.len() as int] == lq[lp.len() as int]);
                assert(false);
            },
            (None, Some(b)) => {
                assert(h2[lq.len() as int] == '+');
                assert(h1[lq.len() as int] == lp[lq.len() as int]);
                assert(false);
            },
            (Some(a), Some(b)) => {
                if lp.len() < lq.len() {
                    assert(h1[lp.len() as int] == '+');
                    assert(h2[lp.len() as int] == lq[lp.len() as int]);
                    assert(false);
                } else if lq.len() < lp.len() {
                    assert(h2[lq.len() as int] == '+');
                    assert(h1[lq.len() as int] == lp[lq.len() as int]);
                    assert(false);
                } else {
                    assert(p == q);
                    assert(a =~= h1.skip(lp.len() as int + 1));
                    assert(b =~= h2.skip(lq.len() as int + 1));
                }
            },
        }
    }
}

} // verus!
