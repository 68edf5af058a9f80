//! A builder for the `Content-Security-Policy` header.
//!
//! The builder holds standalone policy tokens (such as `upgrade-insecure-requests`)
//! and, for each directive named so far, its source tokens in the order in which
//! they were added. Rendering puts every token and every directive, written out as
//! `<name> <source> <source> ...`, in code-point order and joins them with `"; "`.
use vstd::prelude::*;

use crate::header_map::{has_room, header_entries, insert_header, is_value_text, HeaderEntries};
use crate::report_to::report_to_token;
pub use crate::report_to::{ReportTo, ReportToEndpoint};
use crate::text::{join, join_texts, lemma_text_order_total, sort_texts, text_order, texts};

verus! {

/// A source value of a directive.
#[derive(Debug, Clone, Copy, PartialEq, Eq, Structural)]
pub enum Source {
    /// `'self'`
    SameOrigin,
    /// `'src'`
    SRC,
    /// `'none'`
    NoSource,
    /// `'unsafe-inline'`
    UnsafeInline,
    /// `data:`
    Data,
    /// `mediastream:`
    Mediastream,
    /// `https:`
    HTTPS,
    /// `blob:`
    Blob,
    /// `filesystem:`
    Filesystem,
    /// `'strict-dynamic'`
    StrictDynamic,
    /// `'unsafe-eval'`
    UnsafeEval,
    /// `*`
    Wildcard,
}

/// How a source value is written in a policy.
pub open spec fn source_text(s: Source) -> Seq<char> {
    match s {
        Source::SameOrigin => "'self'"@,
        Source::SRC => "'src'"@,
        Source::NoSource => "'none'"@,
        Source::UnsafeInline => "'unsafe-inline'"@,
        Source::Data => "data:"@,
        Source::Mediastream => "mediastream:"@,
        Source::HTTPS => "https:"@,
        Source::Blob => "blob:"@,
        Source::Filesystem => "filesystem:"@,
        Source::StrictDynamic => "'strict-dynamic'"@,
        Source::UnsafeEval => "'unsafe-eval'"@,
        Source::Wildcard => "*"@,
    }
}

impl Source {
    /// The source value as it is written in a policy.
    pub fn as_str(&self) -> (r: &'static str)
        ensures
            r@ == source_text(*self),
    {
        match self {
            Source::SameOrigin => "'self'",
            Source::SRC => "'src'",
            Source::NoSource => "'none'",
            Source::UnsafeInline => "'unsafe-inline'",
            Source::Data => "data:",
            Source::Mediastream => "mediastream:",
            Source::HTTPS => "https:",
            Source::Blob => "blob:",
            Source::Filesystem => "filesystem:",
            Source::StrictDynamic => "'strict-dynamic'",
            Source::UnsafeEval => "'unsafe-eval'",
            Source::Wildcard => "*",
        }
    }
}

/// A directive named so far, with its sources.
#[derive(Debug)]
struct Directive {
    name: String,
    sources: Vec<String>,
}

/// A directive as a name and its source tokens.
pub type DirectiveView = (Seq<char>, Seq<Seq<char>>);

/// What a policy builder holds.
pub struct PolicyView {
    /// Standalone tokens, in the order in which they were added.
    pub tokens: Seq<Seq<char>>,
    /// The directives, each name at most once.
    pub directives: Seq<DirectiveView>,
    /// Whether the policy goes under the report-only header.
    pub report_only: bool,
}

/// A directive written out: its name, a space, and its sources separated by spaces.
pub open spec fn directive_text(d: DirectiveView) -> Seq<char> {
    d.0 + seq![' '] + join(d.1, seq![' '])
}

/// The name of the header that a policy goes under.
pub open spec fn policy_header_name(report_only: bool) -> Seq<char> {
    if report_only {
        "content-security-policy-report-only"@
    } else {
        "content-security-policy"@
    }
}

impl PolicyView {
    /// No directive name occurs twice.
    pub open spec fn wf(self) -> bool {
        forall|i: int, j: int|
            0 <= i < j < self.directives.len() ==> #[trigger] self.directives[i].0
                != #[trigger] self.directives[j].0
    }

    /// Whether a directive of this name has been given a source.
    pub open spec fn has_directive(self, name: Seq<char>) -> bool {
        exists|i: int| 0 <= i < self.directives.len() && #[trigger] self.directives[i].0 == name
    }

    /// The position of the directive of this name, where there is one.
    pub open spec fn directive_index(self, name: Seq<char>) -> int {
        choose|i: int| 0 <= i < self.directives.len() && #[trigger] self.directives[i].0 == name
    }

    /// The sources given so far to the directive of this name, in order.
    pub open spec fn sources_of(self, name: Seq<char>) -> Seq<Seq<char>> {
        if self.has_directive(name) {
            self.directives[self.directive_index(name)].1
        } else {
            Seq::empty()
        }
    }

    /// The policy after one more source for the named directive: appended to that
    /// directive's sources, or a new directive with that one source.
    pub open spec fn with_source(self, name: Seq<char>, source: Seq<char>) -> PolicyView {
        if self.has_directive(name) {
            let i = self.directive_index(name);
            PolicyView {
                directives: self.directives.update(i, (name, self.directives[i].1.push(source))),
                ..self
            }
        } else {
            PolicyView { directives: self.directives.push((name, seq![source])), ..self }
        }
    }

    /// The policy after one more standalone token.
    pub open spec fn with_token(self, token: Seq<char>) -> PolicyView {
        PolicyView { tokens: self.tokens.push(token), ..self }
    }

    /// Every token and every directive written out, before sorting.
    pub open spec fn fragments(self) -> Seq<Seq<char>> {
        self.tokens + self.directives.map_values(|d: DirectiveView| directive_text(d))
    }

    /// The header value: the fragments in code-point order, joined with `"; "`.
    pub open spec fn policy_text(self) -> Seq<char> {
        join(self.fragments().sort_by(text_order()), seq![';', ' '])
    }

    /// A header map after the policy is applied to it.
    pub open spec fn applied_to(self, m: HeaderEntries) -> HeaderEntries {
        m.insert(policy_header_name(self.report_only), seq![self.policy_text()])
    }
}

/// One more source for a directive: the policy stays well formed, holds a
/// directive of that name, and that directive's sources gain the new one at the end;
/// every other directive keeps its sources.
pub proof fn lemma_with_source(p: PolicyView, name: Seq<char>, source: Seq<char>)
    requires
        p.wf(),
    ensures
        p.with_source(name, source).wf(),
        p.with_source(name, source).has_directive(name),
        p.with_source(name, source).sources_of(name) == p.sources_of(name).push(source),
        forall|other: Seq<char>|
            other != name ==> #[trigger] p.with_source(name, source).sources_of(other)
                == p.sources_of(other),
        p.with_source(name, source).tokens == p.tokens,
        p.with_source(name, source).report_only == p.report_only,
{
    let q = p.with_source(name, source);
    if p.has_directive(name) {
        let i = p.directive_index(name);
        assert(q.directives[i].0 == name);
        let k = q.directive_index(name);
        assert(k == i);
        assert forall|other: Seq<char>| other != name implies #[trigger] q.sources_of(other)
            == p.sources_of(other) by {
            if p.has_directive(other) {
                let j = p.directive_index(other);
                assert(q.directives[j].0 == other);
                assert(q.directive_index(other) == j);
            } else {
                assert(!q.has_directive(other));
            }
        }
    } else {
        let i = p.directives.len() as int;
        assert(q.directives[i].0 == name);
        assert(q.directive_index(name) == i);
        assert(q.sources_of(name) =~= p.sources_of(name).push(source));
        assert forall|other: Seq<char>| other != name implies #[trigger] q.sources_of(other)
            == p.sources_of(other) by {
            if p.has_directive(other) {
                let j = p.directive_index(other);
                assert(q.directives[j].0 == other);
                assert(q.directive_index(other) == j);
            } else {
                assert(!q.has_directive(other));
            }
        }
    }
}

/// Two sources given to one directive in two calls end up in that one directive,
/// after any it held already, in the order of the calls.
pub proof fn lemma_directive_sources_accumulate(
    p: PolicyView,
    name: Seq<char>,
    first: Seq<char>,
    second: Seq<char>,
)
    requires
        p.wf(),
    ensures
        p.with_source(name, first).with_source(name, second).wf(),
        p.with_source(name, first).with_source(name, second).has_directive(name),
        p.with_source(name, first).with_source(name, second).sources_of(name) == p.sources_of(
            name,
        ) + seq![first, second],
{
    lemma_with_source(p, name, first);
    lemma_with_source(p.with_source(name, first), name, second);
    assert(p.sources_of(name).push(first).push(second) =~= p.sources_of(name) + seq![
        first,
        second,
    ]);
}

/// A policy with no token and no directive renders as the empty text.
pub proof fn lemma_empty_policy_text(p: PolicyView)
    requires
        p.tokens.len() == 0,
        p.directives.len() == 0,
    ensures
        p.policy_text() == Seq::<char>::empty(),
{
    lemma_text_order_total();
    let f = p.fragments();
    assert(f =~= Seq::<Seq<char>>::empty());
    f.lemma_sort_by_ensures(text_order());
    let s = f.sort_by(text_order());
    s.to_multiset_ensures();
    f.to_multiset_ensures();
    assert(s.len() == 0);
}

/// A report-only policy, applied to a map without `Content-Security-Policy`, is
/// written under `Content-Security-Policy-Report-Only` and leaves
/// `Content-Security-Policy` absent.
pub proof fn lemma_report_only_header(p: PolicyView, m: HeaderEntries)
    requires
        p.report_only,
        !m.contains_key("content-security-policy"@),
    ensures
        p.applied_to(m)["content-security-policy-report-only"@] == seq![p.policy_text()],
        !p.applied_to(m).contains_key("content-security-policy"@),
{
    reveal_strlit("content-security-policy");
    reveal_strlit("content-security-policy-report-only");
    assert("content-security-policy"@.len() != "content-security-policy-report-only"@.len());
}

/// Without report-only, an applied policy is written under `Content-Security-Policy`
/// and nothing is added under `Content-Security-Policy-Report-Only`.
pub proof fn lemma_enforced_header(p: PolicyView, m: HeaderEntries)
    requires
        !p.report_only,
        !m.contains_key("content-security-policy-report-only"@),
    ensures
        p.applied_to(m)["content-security-policy"@] == seq![p.policy_text()],
        !p.applied_to(m).contains_key("content-security-policy-report-only"@),
{
    reveal_strlit("content-security-policy");
    reveal_strlit("content-security-policy-report-only");
    assert("content-security-policy"@.len() != "content-security-policy-report-only"@.len());
}

/// Builds a Content-Security-Policy.
#[derive(Debug)]
pub struct ContentSecurityPolicy {
    policy: Vec<String>,
    report_only_flag: bool,
    directives: Vec<Directive>,
}

impl View for ContentSecurityPolicy {
    type V = PolicyView;

    closed spec fn view(&self) -> PolicyView {
        PolicyView {
            tokens: texts(self.policy@),
            directives: self.directives@.map_values(
                |d: Directive| (d.name@, texts(d.sources@)),
            ),
            report_only: self.report_only_flag,
        }
    }
}

impl Default for ContentSecurityPolicy {
    /// A builder that holds the single token `script-src 'self'; object-src 'self'`.
    fn default() -> (r: ContentSecurityPolicy)
        ensures
            r@.tokens == seq!["script-src 'self'; object-src 'self'"@],
            r@.directives.len() == 0,
            !r@.report_only,
            r@.wf(),
    {
        let mut policy: Vec<String> = Vec::new();
        policy.push(String::from_str("script-src 'self'; object-src 'self'"));
        let r = ContentSecurityPolicy { policy, report_only_flag: false, directives: Vec::new() };
        proof {
            assert(r@.tokens =~= seq!["script-src 'self'; object-src 'self'"@]);
            assert(r@.directives =~= Seq::<DirectiveView>::empty());
        }
        r
    }
}

/// An empty policy builder.
pub fn new() -> (r: ContentSecurityPolicy)
    ensures
        r@.tokens.len() == 0,
        r@.directives.len() == 0,
        !r@.report_only,
        r@.wf(),
{
    ContentSecurityPolicy::new()
}

impl ContentSecurityPolicy {
    /// An empty policy builder.
    pub fn new() -> (r: ContentSecurityPolicy)
        ensures
            r@.tokens.len() == 0,
            r@.directives.len() == 0,
            !r@.report_only,
            r@.wf(),
    {
        let r = ContentSecurityPolicy {
            policy: Vec::new(),
            report_only_flag: false,
            directives: Vec::new(),
        };
        assert(r@.directives =~= Seq::<DirectiveView>::empty());
        r
    }

    fn insert_directive(&mut self, directive: &str, source: &str)
        requires
            old(self)@.wf(),
        ensures
            final(self)@ == old(self)@.with_source(directive@, source@),
            final(self)@.wf(),
    {
        let ghost pre = self@;
        let name = String::from_str(directive);
        let mut i: usize = 0;
        while i < self.directives.len()
            invariant
                i <= self.directives.len(),
                self@ == pre,
                pre == old(self)@,
                pre.wf(),
                name@ == directive@,
                forall|j: int| 0 <= j < i ==> #[trigger] pre.directives[j].0 != directive@,
            decreases self.directives.len() - i,
        {
            if self.directives[i].name.eq(&name) {
                let mut d = self.directives.remove(i);
                d.sources.push(String::from_str(source));
                self.directives.insert(i, d);
                proof {
                    assert(pre.directives[i as int].0 == directive@);
                    assert(pre.has_directive(directive@));
                    let k = pre.directive_index(directive@);
                    assert(k == i);
                    assert(texts(d.sources@) =~= pre.directives[k].1.push(source@));
                    assert(self@.directives =~= pre.directives.update(
                        k,
                        (directive@, pre.directives[k].1.push(source@)),
                    ));
                    assert(self@ == pre.with_source(directive@, source@));
                }
                return;
            }
            i = i + 1;
        }
        let mut sources: Vec<String> = Vec::new();
        sources.push(String::from_str(source));
        self.directives.push(Directive { name, sources });
        proof {
            assert(!pre.has_directive(directive@));
            assert(texts(sources@) =~= seq![source@]);
            assert(self@.directives =~= pre.directives.push((directive@, seq![source@])));
            assert(self@ == pre.with_source(directive@, source@));
        }
    }

    /// Adds a source to the `base-uri` directive.
    pub fn base_uri(&mut self, source: &str) -> (r: &mut ContentSecurityPolicy)
        requires
            old(self)@.wf(),
        ensures
            r@ == old(self)@.with_source("base-uri"@, source@),
            r@.wf(),
            final(self)@ == final(r)@,
    {
        self.insert_directive("base-uri", source);
        self
    }

    /// Adds a source to the `connect-src` directive.
    pub fn connect_src(&mut self, source: &str) -> (r: &mut ContentSecurityPolicy)
        requires
            old(self)@.wf(),
        ensures
            r@ == old(self)@.with_source("connect-src"@, source@),
            r@.wf(),
            final(self)@ == final(r)@,
    {
        self.insert_directive("connect-src", source);
        self
    }

    /// Adds a source to the `default-src` directive.
    pub fn default_src(&mut self, source: &str) -> (r: &mut ContentSecurityPolicy)
        requires
            old(self)@.wf(),
        ensures
            r@ == old(self)@.with_source("default-src"@, source@),
            r@.wf(),
            final(self)@ == final(r)@,
    {
        self.insert_directive("default-src", source);
        self
    }

    /// Adds a source to the `font-src` directive.
    pub fn font_src(&mut self, source: &str) -> (r: &mut ContentSecurityPolicy)
        requires
            old(self)@.wf(),
        ensures
            r@ == old(self)@.with_source("font-src"@, source@),
            r@.wf(),
            final(self)@ == final(r)@,
    {
        self.insert_directive("font-src", source);
        self
    }

    /// Adds a source to the `form-action` directive.
    pub fn form_action(&mut self, source: &str) -> (r: &mut ContentSecurityPolicy)
        requires
            old(self)@.wf(),
        ensures
            r@ == old(self)@.with_source("form-action"@, source@),
            r@.wf(),
            final(self)@ == final(r)@,
    {
        self.insert_directive("form-action", source);
        self
    }

    /// Adds a source to the `frame-ancestors` directive.
    pub fn frame_ancestors(&mut self, source: &str) -> (r: &mut ContentSecurityPolicy)
        requires
            old(self)@.wf(),
        ensures
            r@ == old(self)@.with_source("frame-ancestors"@, source@),
            r@.wf(),
            final(self)@ == final(r)@,
    {
        self.insert_directive("frame-ancestors", source);
        self
    }

    /// Adds a source to the `frame-src` directive.
    pub fn frame_src(&mut self, source: &str) -> (r: &mut ContentSecurityPolicy)
        requires
            old(self)@.wf(),
        ensures
            r@ == old(self)@.with_source("frame-src"@, source@),
            r@.wf(),
            final(self)@ == final(r)@,
    {
        self.insert_directive("frame-src", source);
        self
    }

    /// Adds a source to the `img-src` directive.
    pub fn img_src(&mut self, source: &str) -> (r: &mut ContentSecurityPolicy)
        requires
            old(self)@.wf(),
        ensures
            r@ == old(self)@.with_source("img-src"@, source@),
            r@.wf(),
            final(self)@ == final(r)@,
    {
        self.insert_directive("img-src", source);
        self
    }

    /// Adds a source to the `media-src` directive.
    pub fn media_src(&mut self, source: &str) -> (r: &mut ContentSecurityPolicy)
        requires
            old(self)@.wf(),
        ensures
            r@ == old(self)@.with_source("media-src"@, source@),
            r@.wf(),
            final(self)@ == final(r)@,
    {
        self.insert_directive("media-src", source);
        self
    }

    /// Adds a source to the `object-src` directive.
    pub fn object_src(&mut self, source: &str) -> (r: &mut ContentSecurityPolicy)
        requires
            old(self)@.wf(),
        ensures
            r@ == old(self)@.with_source("object-src"@, source@),
            r@.wf(),
            final(self)@ == final(r)@,
    {
        self.insert_directive("object-src", source);
        self
    }

    /// Adds a source to the `plugin-types` directive.
    pub fn plugin_types(&mut self, source: &str) -> (r: &mut ContentSecurityPolicy)
        requires
            old(self)@.wf(),
        ensures
            r@ == old(self)@.with_source("plugin-types"@, source@),
            r@.wf(),
            final(self)@ == final(r)@,
    {
        self.insert_directive("plugin-types", source);
        self
    }

    /// Adds a source to the `require-sri-for` directive.
    pub fn require_sri_for(&mut self, source: &str) -> (r: &mut ContentSecurityPolicy)
        requires
            old(self)@.wf(),
        ensures
            r@ == old(self)@.with_source("require-sri-for"@, source@),
            r@.wf(),
            final(self)@ == final(r)@,
    {
        self.insert_directive("require-sri-for", source);
        self
    }

    /// Adds a source to the `sandbox` directive.
    pub fn sandbox(&mut self, source: &str) -> (r: &mut ContentSecurityPolicy)
        requires
            old(self)@.wf(),
        ensures
            r@ == old(self)@.with_source("sandbox"@, source@),
            r@.wf(),
            final(self)@ == final(r)@,
    {
        self.insert_directive("sandbox", source);
        self
    }

    /// Adds a source to the `script-src` directive.
    pub fn script_src(&mut self, source: &str) -> (r: &mut ContentSecurityPolicy)
        requires
            old(self)@.wf(),
        ensures
            r@ == old(self)@.with_source("script-src"@, source@),
            r@.wf(),
            final(self)@ == final(r)@,
    {
        self.insert_directive("script-src", source);
        self
    }

    /// Adds a source to the `style-src` directive.
    pub fn style_src(&mut self, source: &str) -> (r: &mut ContentSecurityPolicy)
        requires
            old(self)@.wf(),
        ensures
            r@ == old(self)@.with_source("style-src"@, source@),
            r@.wf(),
            final(self)@ == final(r)@,
    {
        self.insert_directive("style-src", source);
        self
    }

    /// Adds a source to the `worker-src` directive.
    pub fn worker_src(&mut self, source: &str) -> (r: &mut ContentSecurityPolicy)
        requires
            old(self)@.wf(),
        ensures
            r@ == old(self)@.with_source("worker-src"@, source@),
            r@.wf(),
            final(self)@ == final(r)@,
    {
        self.insert_directive("worker-src", source);
        self
    }

    /// Adds the standalone `block-all-mixed-content` token.
    pub fn block_all_mixed_content(&mut self) -> (r: &mut ContentSecurityPolicy)
        requires
            old(self)@.wf(),
        ensures
            r@ == old(self)@.with_token("block-all-mixed-content"@),
            r@.wf(),
            final(self)@ == final(r)@,
    {
        self.policy.push(String::from_str("block-all-mixed-content"));
        proof {
            assert(self@.tokens =~= old(self)@.tokens.push("block-all-mixed-content"@));
            assert(self@.directives == old(self)@.directives);
            assert(self@ == old(self)@.with_token("block-all-mixed-content"@));
        }
        self
    }

    /// Adds the standalone `upgrade-insecure-requests` token.
    pub fn upgrade_insecure_requests(&mut self) -> (r: &mut ContentSecurityPolicy)
        requires
            old(self)@.wf(),
        ensures
            r@ == old(self)@.with_token("upgrade-insecure-requests"@),
            r@.wf(),
            final(self)@ == final(r)@,
    {
        self.policy.push(String::from_str("upgrade-insecure-requests"));
        proof {
            assert(self@.tokens =~= old(self)@.tokens.push("upgrade-insecure-requests"@));
            assert(self@.directives == old(self)@.directives);
            assert(self@ == old(self)@.with_token("upgrade-insecure-requests"@));
        }
        self
    }

    /// Adds the token `report-uri <uri>`.
    pub fn report_uri(&mut self, uri: &str) -> (r: &mut ContentSecurityPolicy)
        requires
            old(self)@.wf(),
        ensures
            r@ == old(self)@.with_token("report-uri "@ + uri@),
            r@.wf(),
            final(self)@ == final(r)@,
    {
        let token = String::from_str("report-uri ").concat(uri);
        self.policy.push(token);
        proof {
            assert(self@.tokens =~= old(self)@.tokens.push("report-uri "@ + uri@));
            assert(self@.directives == old(self)@.directives);
            assert(self@ == old(self)@.with_token("report-uri "@ + uri@));
        }
        self
    }

    /// Adds one `report-to <json>` token for each group, in order.
    pub fn report_to(&mut self, endpoints: Vec<ReportTo>) -> (r: &mut ContentSecurityPolicy)
        requires
            old(self)@.wf(),
        ensures
            r@ == (PolicyView {
                tokens: old(self)@.tokens + endpoints@.map_values(
                    |e: ReportTo| report_to_token(e@),
                ),
                ..old(self)@
            }),
            r@.wf(),
            final(self)@ == final(r)@,
    {
        let ghost added = endpoints@.map_values(|e: ReportTo| report_to_token(e@));
        let mut i: usize = 0;
        while i < endpoints.len()
            invariant
                i <= endpoints.len(),
                added == endpoints@.map_values(|e: ReportTo| report_to_token(e@)),
                self@ == (PolicyView { tokens: old(self)@.tokens + added.take(i as int), ..old(self)@ }),
            decreases endpoints.len() - i,
        {
            let json = endpoints[i].to_json();
            let token = String::from_str("report-to ").concat(json.as_str());
            let ghost before = self@.tokens;
            self.policy.push(token);
            proof {
                assert(self@.tokens =~= before.push(token@));
                assert(token@ == added[i as int]);
                assert(added.take(i + 1) =~= added.take(i as int).push(added[i as int]));
                assert(self@.tokens =~= old(self)@.tokens + added.take(i + 1));
            }
            i = i + 1;
        }
        proof {
            assert(added.take(endpoints.len() as int) =~= added);
        }
        self
    }

    /// Sends the policy under `Content-Security-Policy-Report-Only`.
    pub fn report_only(&mut self) -> (r: &mut ContentSecurityPolicy)
        requires
            old(self)@.wf(),
        ensures
            r@ == (PolicyView { report_only: true, ..old(self)@ }),
            r@.wf(),
            final(self)@ == final(r)@,
    {
        self.report_only_flag = true;
        self
    }

    /// The header value: every token and directive in code-point order, joined with `"; "`.
    pub fn value(&self) -> (r: String)
        ensures
            r@ == self@.policy_text(),
    {
        let mut frags: Vec<String> = Vec::new();
        let mut i: usize = 0;
        while i < self.policy.len()
            invariant
                i <= self.policy.len(),
                frags@.len() == i,
                texts(frags@) == self@.tokens.take(i as int),
            decreases self.policy.len() - i,
        {
            let t = self.policy[i].clone();
            let ghost before = texts(frags@);
            frags.push(t);
            proof {
                assert(texts(frags@) =~= before.push(t@));
                assert(texts(frags@) =~= self@.tokens.take(i + 1));
            }
            i = i + 1;
        }
        proof {
            assert(self@.tokens.take(self.policy.len() as int) =~= self@.tokens);
        }
        let ghost rendered = self@.directives.map_values(|d: DirectiveView| directive_text(d));
        let mut j: usize = 0;
        while j < self.directives.len()
            invariant
                j <= self.directives.len(),
                frags@.len() == self.policy@.len() + j,
                rendered == self@.directives.map_values(|d: DirectiveView| directive_text(d)),
                texts(frags@) == self@.tokens + rendered.take(j as int),
            decreases self.directives.len() - j,
        {
            let d = &self.directives[j];
            let mut line = d.name.clone();
            line.append(" ");
            let joined = join_texts(&d.sources, " ");
            line.append(joined.as_str());
            proof {
                reveal_strlit(" ");
                assert(" "@ =~= seq![' ']);
                assert(self@.directives[j as int] == (d.name@, texts(d.sources@)));
                assert(line@ == directive_text(self@.directives[j as int]));
            }
            let ghost before = texts(frags@);
            frags.push(line);
            proof {
                assert(texts(frags@) =~= before.push(line@));
                assert(texts(frags@) =~= self@.tokens + rendered.take(j + 1));
            }
            j = j + 1;
        }
        proof {
            assert(rendered.take(self.directives.len() as int) =~= rendered);
        }
        let sorted = sort_texts(&frags);
        proof {
            lemma_text_order_total();
            let f = self@.fragments();
            f.lemma_sort_by_ensures(text_order());
            vstd::seq_lib::lemma_sorted_unique(texts(sorted@), f.sort_by(text_order()), text_order());
        }
        let r = join_texts(&sorted, "; ");
        proof {
            reveal_strlit("; ");
            assert("; "@ =~= seq![';', ' ']);
        }
        r
    }

    /// Writes the policy into `headers`, under `Content-Security-Policy`, or under
    /// `Content-Security-Policy-Report-Only` once `report_only` has been called. A
    /// value held under that name already is replaced.
    pub fn apply(&self, headers: &mut http::HeaderMap)
        requires
            is_value_text(self@.policy_text()),
            has_room(header_entries(*old(headers))),
        ensures
            header_entries(*final(headers)) == self@.applied_to(header_entries(*old(headers))),
    {
        let val = self.value();
        proof {
            reveal_strlit("content-security-policy");
            reveal_strlit("content-security-policy-report-only");
        }
        if !self.report_only_flag {
            insert_header(headers, "content-security-policy", val.as_str());
        } else {
            insert_header(headers, "content-security-policy-report-only", val.as_str());
        }
    }
}

} // verus!
