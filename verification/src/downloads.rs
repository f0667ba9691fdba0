//! Redeeming a deferred-download link: the per-IP throttle, which stored
//! response headers are passed on, and what the audit row records about the
//! fetch.

use vstd::prelude::*;
use crate::admission::eq_ignore_ascii_case;
use crate::text::{chars_eq, push_str, to_owned_string};

verus! {

/// Redemptions allowed per client IP in one window, and the window.
pub const DOWNLOAD_IP_MAX: u32 = 120;
pub const DOWNLOAD_IP_WINDOW_SECS: u32 = 60;

/// The throttle key of a client IP (`unknown` when it is not known).
pub fn download_throttle_key(ip: Option<&str>) -> (k: String)
    ensures
        k@ == "dl:redeem:ip:"@ + (match ip {
            Some(a) => a@,
            None => "unknown"@,
        }),
{
    let mut k = String::new();
    push_str(&mut k, "dl:redeem:ip:");
    match ip {
        Some(a) => push_str(&mut k, a),
        None => push_str(&mut k, "unknown"),
    }
    k
}

/// What a redemption did.
#[derive(Debug, Clone, Copy, PartialEq, Eq, Structural)]
pub enum Redeemed {
    /// Replayed upstream; `status` is what the caller received.
    Upstream { status: u16 },
    /// Served stored bytes (the caller received 200); `stored_status` is what
    /// the original call recorded.
    Stored { stored_status: u16 },
    /// Failed before any bytes were chosen.
    Failed,
}

/// The audit fields of a redemption: the status the caller received, whether
/// it is an error, and the stored call's own status on the stored path.
pub fn download_audit_fields(outcome: Redeemed) -> (r: (Option<u16>, bool, Option<u16>))
    ensures
        match outcome {
            Redeemed::Upstream { status } => r == (Some(status), status >= 400, None::<u16>),
            Redeemed::Stored { stored_status } => r == (Some(200u16), false, Some(stored_status)),
            Redeemed::Failed => r == (None::<u16>, true, None::<u16>),
        },
{
    match outcome {
        Redeemed::Upstream { status } => (Some(status), status >= 400, None),
        Redeemed::Stored { stored_status } => (Some(200), false, Some(stored_status)),
        Redeemed::Failed => (None, true, None),
    }
}

/// The value of the first header named `name` (ignoring ASCII case).
pub open spec fn header_lookup(headers: Seq<(Seq<char>, Seq<char>)>, name: Seq<char>) -> Option<Seq<char>>
    decreases headers.len(),
{
    if headers.len() == 0 {
        None
    } else if eq_ignore_ascii_case(headers[0].0, name) {
        Some(headers[0].1)
    } else {
        header_lookup(headers.skip(1), name)
    }
}

/// The headers a stored download is served with: for each allowed name in
/// order, except `content-length` (the stored body may have been re-encoded),
/// the stored header of that name, when there is one.
pub open spec fn forwarded_spec(allowed: Seq<Seq<char>>, headers: Seq<(Seq<char>, Seq<char>)>) -> Seq<(Seq<char>, Seq<char>)>
    decreases allowed.len(),
{
    if allowed.len() == 0 {
        Seq::empty()
    } else {
        let prev = forwarded_spec(allowed.drop_last(), headers);
        let name = allowed.last();
        if eq_ignore_ascii_case(name, "content-length"@) {
            prev
        } else {
            match header_lookup(headers, name) {
                Some(v) => prev.push((name, v)),
                None => prev,
            }
        }
    }
}

/// The views of header pairs.
pub open spec fn header_views(h: Seq<(String, String)>) -> Seq<(Seq<char>, Seq<char>)> {
    h.map_values(|p: (String, String)| (p.0@, p.1@))
}

fn eq_ignore_case_exec(a: &str, b: &str) -> (r: bool)
    ensures
        r == eq_ignore_ascii_case(a@, b@),
{
    let x = crate::login::to_ascii_lowercase(a);
    let y = crate::login::to_ascii_lowercase(b);
    chars_eq(x.as_slice(), y.as_slice())
}

fn lookup_header(headers: &[(String, String)], name: &str) -> (r: Option<String>)
    ensures
        match header_lookup(header_views(headers@), name@) {
            Some(v) => r matches Some(s) && s@ == v,
            None => r is None,
        },
{
    let ghost hv = header_views(headers@);
    let mut i: usize = 0;
    proof {
        assert(hv.skip(0) =~= hv);
    }
    while i < headers.len()
        invariant
            i <= headers@.len(),
            hv == header_views(headers@),
            header_lookup(hv, name@) == header_lookup(hv.skip(i as int), name@),
        decreases headers@.len() - i,
    {
        proof {
            assert(hv.skip(i as int)[0] == (headers@[i as int].0@, headers@[i as int].1@));
            assert(hv.skip(i as int).skip(1) =~= hv.skip(i + 1));
        }
        if eq_ignore_case_exec(headers[i].0.as_str(), name) {
            return Some(to_owned_string(headers[i].1.as_str()));
        }
        i = i + 1;
    }
    None
}

/// Choose the stored headers a download is served with.
pub fn forwarded_headers(allowed: &[&str], headers: &[(String, String)]) -> (out: Vec<(String, String)>)
    ensures
        header_views(out@) == forwarded_spec(allowed@.map_values(|s: &str| s@), header_views(headers@)),
{
    let ghost names = allowed@.map_values(|s: &str| s@);
    let mut out: Vec<(String, String)> = Vec::new();
    let mut i: usize = 0;
    proof {
        assert(header_views(out@) =~= forwarded_spec(names.take(0), header_views(headers@)));
    }
    while i < allowed.len()
        invariant
            i <= allowed@.len(),
            names == allowed@.map_values(|s: &str| s@),
            header_views(out@) == forwarded_spec(names.take(i as int), header_views(headers@)),
        decreases allowed@.len() - i,
    {
        proof {
            assert(names.take(i + 1).drop_last() =~= names.take(i as int));
            assert(names.take(i + 1).last() == allowed@[i as int]@);
        }
        let name = allowed[i];
        if !eq_ignore_case_exec(name, "content-length") {
            match lookup_header(headers, name) {
                Some(v) => {
                    let ghost before = header_views(out@);
                    out.push((to_owned_string(name), v));
                    proof {
                        assert(header_views(out@) =~= before.push((name@, out@[out@.len() - 1].1@)));
                    }
                },
                None => {},
            }
        }
        i = i + 1;
    }
    proof {
        assert(names.take(allowed@.len() as int) =~= names);
    }
    out
}

} // verus!
