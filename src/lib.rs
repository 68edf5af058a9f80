//! HTTP security headers, after the protections of helmet.js, and a builder for
//! the `Content-Security-Policy` header.
pub mod csp;
pub mod header_map;
pub mod report_to;
pub mod text;

use vstd::prelude::*;

use crate::header_map::{
    append_header, contains_header, header_entries, insert_header, remove_header, HeaderEntries,
};

verus! {

/// The frameguard level.
#[derive(Debug, Clone, Copy, PartialEq, Eq, Structural)]
pub enum FrameOptions {
    /// `sameorigin`
    SameOrigin,
    /// `deny`
    Deny,
}

/// The Referrer-Policy level.
#[derive(Debug, Clone, Copy, PartialEq, Eq, Structural)]
pub enum ReferrerOptions {
    /// The empty value: the browser's or site's own default
    Empty,
    /// `no-referrer`
    NoReferrer,
    /// `no-referrer-when-downgrade`
    NoReferrerDowngrade,
    /// `same-origin`
    SameOrigin,
    /// `origin`
    Origin,
    /// `strict-origin`
    StrictOrigin,
    /// `origin-when-cross-origin`
    CrossOrigin,
    /// `strict-origin-when-cross-origin`
    StrictCrossOrigin,
    /// `unsafe-url`
    UnsafeUrl,
}

/// The `X-Frame-Options` value for a frameguard level; none means `sameorigin`.
pub open spec fn frame_options_text(guard: Option<FrameOptions>) -> Seq<char> {
    match guard {
        Some(FrameOptions::Deny) => "deny"@,
        _ => "sameorigin"@,
    }
}

/// The `Referrer-Policy` value for a level; none means the empty value.
pub open spec fn referrer_text(referrer: Option<ReferrerOptions>) -> Seq<char> {
    match referrer {
        None => ""@,
        Some(ReferrerOptions::Empty) => ""@,
        Some(ReferrerOptions::NoReferrer) => "no-referrer"@,
        Some(ReferrerOptions::NoReferrerDowngrade) => "no-referrer-when-downgrade"@,
        Some(ReferrerOptions::SameOrigin) => "same-origin"@,
        Some(ReferrerOptions::Origin) => "origin"@,
        Some(ReferrerOptions::StrictOrigin) => "strict-origin"@,
        Some(ReferrerOptions::CrossOrigin) => "origin-when-cross-origin"@,
        Some(ReferrerOptions::StrictCrossOrigin) => "strict-origin-when-cross-origin"@,
        Some(ReferrerOptions::UnsafeUrl) => "unsafe-url"@,
    }
}

/// The header map after `referrer_policy`: the value is added after any held already.
pub open spec fn with_referrer(m: HeaderEntries, referrer: Option<ReferrerOptions>) -> HeaderEntries {
    let name = "referrer-policy"@;
    m.insert(
        name,
        if m.contains_key(name) {
            m[name].push(referrer_text(referrer))
        } else {
            seq![referrer_text(referrer)]
        },
    )
}

/// Setting the referrer policy twice keeps both values, after any held before,
/// the first one first: neither call overwrites.
pub proof fn lemma_referrer_policy_twice(
    m: HeaderEntries,
    first: Option<ReferrerOptions>,
    second: Option<ReferrerOptions>,
)
    ensures
        with_referrer(with_referrer(m, first), second)["referrer-policy"@] == (if m.contains_key(
            "referrer-policy"@,
        ) {
            m["referrer-policy"@]
        } else {
            Seq::empty()
        }) + seq![referrer_text(first), referrer_text(second)],
{
    let name = "referrer-policy"@;
    if m.contains_key(name) {
        assert(m[name].push(referrer_text(first)).push(referrer_text(second)) =~= m[name] + seq![
            referrer_text(first),
            referrer_text(second),
        ]);
    } else {
        assert(seq![referrer_text(first)].push(referrer_text(second)) =~= Seq::<Seq<char>>::empty()
            + seq![referrer_text(first), referrer_text(second)]);
    }
}

/// The header map after `armor`.
pub open spec fn armored(m: HeaderEntries) -> HeaderEntries {
    m.insert("x-dns-prefetch-control"@, seq!["on"@]).insert(
        "x-content-type-options"@,
        seq!["nosniff"@],
    ).insert("x-frame-options"@, seq!["sameorigin"@]).remove("x-powered-by"@).insert(
        "strict-transport-security"@,
        seq!["max-age=5184000"@],
    ).insert("x-xss-protection"@, seq!["1; mode=block"@])
}

/// A map with room for `n` more header names.
pub open spec fn has_room_for(m: HeaderEntries, n: nat) -> bool {
    m.dom().finite() && m.dom().len() + n <= header_map::header_capacity()
}

/// Applies every protection but the referrer policy and the content security policy:
/// `dns_prefetch_control`, `dont_sniff_mimetype`, `frameguard` at its default level,
/// `hide_powered_by`, `hsts` and `xss_filter`, in that order.
pub fn armor(headers: &mut http::HeaderMap)
    requires
        has_room_for(header_entries(*old(headers)), 5),
    ensures
        header_entries(*final(headers)) == armored(header_entries(*old(headers))),
{
    dns_prefetch_control(headers);
    dont_sniff_mimetype(headers);
    frameguard(headers, None);
    hide_powered_by(headers);
    hsts(headers);
    xss_filter(headers);
}

/// Disables the browsers' DNS prefetching: `X-DNS-Prefetch-Control: on`.
pub fn dns_prefetch_control(headers: &mut http::HeaderMap)
    requires
        has_room_for(header_entries(*old(headers)), 1),
    ensures
        header_entries(*final(headers)) == header_entries(*old(headers)).insert(
            "x-dns-prefetch-control"@,
            seq!["on"@],
        ),
{
    proof {
        reveal_strlit("x-dns-prefetch-control");
        reveal_strlit("on");
    }
    insert_header(headers, "x-dns-prefetch-control", "on");
}

/// Mitigates clickjacking: `X-Frame-Options` set to the level's value.
pub fn frameguard(headers: &mut http::HeaderMap, guard: Option<FrameOptions>)
    requires
        has_room_for(header_entries(*old(headers)), 1),
    ensures
        header_entries(*final(headers)) == header_entries(*old(headers)).insert(
            "x-frame-options"@,
            seq![frame_options_text(guard)],
        ),
{
    proof {
        reveal_strlit("x-frame-options");
        reveal_strlit("sameorigin");
        reveal_strlit("deny");
    }
    let kind = match guard {
        Some(FrameOptions::Deny) => "deny",
        _ => "sameorigin",
    };
    insert_header(headers, "x-frame-options", kind);
}

/// Removes `X-Powered-By`, which tells what technology serves the site; a map
/// without it is left as it is.
pub fn hide_powered_by(headers: &mut http::HeaderMap)
    ensures
        header_entries(*final(headers)) == header_entries(*old(headers)).remove(
            "x-powered-by"@,
        ),
        !header_entries(*final(headers)).contains_key("x-powered-by"@),
        !header_entries(*old(headers)).contains_key("x-powered-by"@) ==> header_entries(
            *final(headers),
        ) == header_entries(*old(headers)),
{
    proof {
        reveal_strlit("x-powered-by");
    }
    remove_header(headers, "x-powered-by");
    proof {
        assert(!header_entries(*old(headers)).contains_key("x-powered-by"@) ==> header_entries(
            *old(headers),
        ).remove("x-powered-by"@) =~= header_entries(*old(headers)));
    }
}

/// Keeps HTTPS users on HTTPS for sixty days: `Strict-Transport-Security: max-age=5184000`.
pub fn hsts(headers: &mut http::HeaderMap)
    requires
        has_room_for(header_entries(*old(headers)), 1),
    ensures
        header_entries(*final(headers)) == header_entries(*old(headers)).insert(
            "strict-transport-security"@,
            seq!["max-age=5184000"@],
        ),
{
    proof {
        reveal_strlit("strict-transport-security");
        reveal_strlit("max-age=5184000");
    }
    insert_header(headers, "strict-transport-security", "max-age=5184000");
}

/// Stops browsers from guessing the MIME type: `X-Content-Type-Options: nosniff`.
pub fn dont_sniff_mimetype(headers: &mut http::HeaderMap)
    requires
        has_room_for(header_entries(*old(headers)), 1),
    ensures
        header_entries(*final(headers)) == header_entries(*old(headers)).insert(
            "x-content-type-options"@,
            seq!["nosniff"@],
        ),
{
    proof {
        reveal_strlit("x-content-type-options");
        reveal_strlit("nosniff");
    }
    insert_header(headers, "x-content-type-options", "nosniff");
}

/// Turns on the browsers' reflected-XSS filter: `X-XSS-Protection: 1; mode=block`.
pub fn xss_filter(headers: &mut http::HeaderMap)
    requires
        has_room_for(header_entries(*old(headers)), 1),
    ensures
        header_entries(*final(headers)) == header_entries(*old(headers)).insert(
            "x-xss-protection"@,
            seq!["1; mode=block"@],
        ),
{
    proof {
        reveal_strlit("x-xss-protection");
        reveal_strlit("1; mode=block");
    }
    insert_header(headers, "x-xss-protection", "1; mode=block");
}

/// Controls the referrer sent on links away from the page. A `Referrer-Policy`
/// already present keeps its values and gets this one after them, since the header
/// may be repeated.
pub fn referrer_policy(headers: &mut http::HeaderMap, referrer: Option<ReferrerOptions>)
    requires
        has_room_for(header_entries(*old(headers)), 1),
    ensures
        header_entries(*final(headers)) == with_referrer(header_entries(*old(headers)), referrer),
{
    proof {
        reveal_strlit("referrer-policy");
        reveal_strlit("");
        reveal_strlit("no-referrer");
        reveal_strlit("no-referrer-when-downgrade");
        reveal_strlit("same-origin");
        reveal_strlit("origin");
        reveal_strlit("strict-origin");
        reveal_strlit("origin-when-cross-origin");
        reveal_strlit("strict-origin-when-cross-origin");
        reveal_strlit("unsafe-url");
    }
    let policy = match referrer {
        None => "",
        Some(ReferrerOptions::Empty) => "",
        Some(ReferrerOptions::NoReferrer) => "no-referrer",
        Some(ReferrerOptions::NoReferrerDowngrade) => "no-referrer-when-downgrade",
        Some(ReferrerOptions::SameOrigin) => "same-origin",
        Some(ReferrerOptions::Origin) => "origin",
        Some(ReferrerOptions::StrictOrigin) => "strict-origin",
        Some(ReferrerOptions::CrossOrigin) => "origin-when-cross-origin",
        Some(ReferrerOptions::StrictCrossOrigin) => "strict-origin-when-cross-origin",
        Some(ReferrerOptions::UnsafeUrl) => "unsafe-url",
    };
    if contains_header(headers, "referrer-policy") {
        append_header(headers, "referrer-policy", policy);
    } else {
        insert_header(headers, "referrer-policy", policy);
    }
}

} // verus!
