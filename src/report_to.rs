//! Groups of reporting endpoints for the `report-to` directive, and the JSON
//! object that stands for each group in a policy.
use vstd::prelude::*;

use crate::text::{join, join_texts, texts};

verus! {

/// What `serde_json::to_string` makes of a text: the JSON string literal for it.
pub uninterp spec fn json_string_of(s: Seq<char>) -> Seq<char>;

/// Relies on `serde_json::to_string` on a `str`: the text as a JSON string literal.
/// Serialising a `str` into the in-memory buffer that `to_string` uses does not fail.
#[verifier::external_body]
fn json_string(s: &str) -> (r: String)
    ensures
        r@ == json_string_of(s@),
{
    serde_json::to_string(s).unwrap()
}

/// The decimal digits of `n`, most significant first.
pub open spec fn digits(n: nat) -> Seq<char>
    decreases n,
{
    if n < 10 {
        seq!["0123456789"@[n as int]]
    } else {
        digits(n / 10).push("0123456789"@[(n % 10) as int])
    }
}

/// `n` in decimal, with a leading `-` when negative.
pub open spec fn decimal(n: int) -> Seq<char> {
    if n < 0 {
        seq!['-'] + digits((-n) as nat)
    } else {
        digits(n as nat)
    }
}

/// `n` in decimal, as JSON writes an integer.
fn decimal_text(n: i32) -> (r: String)
    ensures
        r@ == decimal(n as int),
{
    proof {
        reveal_strlit("0123456789");
        reveal_strlit("-");
    }
    let ds = "0123456789";
    let mag: u64 = if n < 0 {
        (-(n as i64)) as u64
    } else {
        n as u64
    };
    let mut m: u64 = mag;
    let mut acc = String::new();
    while m >= 10
        invariant
            ds@ == "0123456789"@,
            ds@.len() == 10,
            digits(mag as nat) == digits(m as nat) + acc@,
        decreases m,
    {
        let d = (m % 10) as usize;
        acc = String::from_str(ds.substring_char(d, d + 1)).concat(acc.as_str());
        proof {
            assert(ds@.subrange(d as int, d + 1) =~= seq![ds@[d as int]]);
            assert(digits(m as nat) == digits((m / 10) as nat).push(ds@[d as int]));
        }
        m = m / 10;
    }
    let d = m as usize;
    let r0 = String::from_str(ds.substring_char(d, d + 1)).concat(acc.as_str());
    proof {
        assert(ds@.subrange(d as int, d + 1) =~= seq![ds@[d as int]]);
    }
    if n < 0 {
        String::from_str("-").concat(r0.as_str())
    } else {
        r0
    }
}

/// One endpoint of a `report-to` group.
#[derive(Debug, Clone)]
pub struct ReportToEndpoint {
    url: String,
}

impl View for ReportToEndpoint {
    type V = Seq<char>;

    closed spec fn view(&self) -> Seq<char> {
        self.url@
    }
}

impl ReportToEndpoint {
    /// An endpoint at `url`.
    pub fn new(url: &str) -> (r: ReportToEndpoint)
        ensures
            r@ == url@,
    {
        ReportToEndpoint { url: String::from_str(url) }
    }
}

/// A group of endpoints for the `report-to` directive.
#[derive(Debug, Clone)]
pub struct ReportTo {
    group: Option<String>,
    max_age: i32,
    endpoints: Vec<ReportToEndpoint>,
    include_subdomains: Option<bool>,
}

/// What a `report-to` group holds.
pub struct ReportToView {
    pub group: Option<Seq<char>>,
    pub max_age: i32,
    pub endpoints: Seq<Seq<char>>,
    pub include_subdomains: Option<bool>,
}

/// The view of an optional string.
pub open spec fn opt_text(s: Option<String>) -> Option<Seq<char>> {
    match s {
        Some(t) => Some(t@),
        None => None,
    }
}

impl View for ReportTo {
    type V = ReportToView;

    closed spec fn view(&self) -> ReportToView {
        ReportToView {
            group: opt_text(self.group),
            max_age: self.max_age,
            endpoints: self.endpoints@.map_values(|e: ReportToEndpoint| e@),
            include_subdomains: self.include_subdomains,
        }
    }
}

/// The JSON object for one endpoint, its URL already written as a JSON string.
pub open spec fn endpoint_object(url_json: Seq<char>) -> Seq<char> {
    "{\"url\":"@ + url_json + "}"@
}

/// The JSON object for a `report-to` group whose texts are already written as JSON
/// strings: `group` and `include_subdomains` only when set, `max_age` and
/// `endpoints` always, in that order.
pub open spec fn report_object(
    group_json: Option<Seq<char>>,
    max_age: i32,
    url_jsons: Seq<Seq<char>>,
    include_subdomains: Option<bool>,
) -> Seq<char> {
    let group = match group_json {
        Some(g) => "\"group\":"@ + g + ","@,
        None => Seq::empty(),
    };
    let subdomains = match include_subdomains {
        Some(b) => ",\"include_subdomains\":"@ + if b {
            "true"@
        } else {
            "false"@
        },
        None => Seq::empty(),
    };
    "{"@ + group + "\"max_age\":"@ + decimal(max_age as int) + ",\"endpoints\":["@ + join(
        url_jsons.map_values(|u: Seq<char>| endpoint_object(u)),
        ","@,
    ) + "]"@ + subdomains + "}"@
}

/// The JSON object for a `report-to` group.
pub open spec fn report_to_json(r: ReportToView) -> Seq<char> {
    report_object(
        match r.group {
            Some(g) => Some(json_string_of(g)),
            None => None,
        },
        r.max_age,
        r.endpoints.map_values(|u: Seq<char>| json_string_of(u)),
        r.include_subdomains,
    )
}

/// Writes the JSON object for a `report-to` group from its texts already written as
/// JSON strings.
pub fn write_report_object(
    group_json: Option<String>,
    max_age: i32,
    url_jsons: &Vec<String>,
    include_subdomains: Option<bool>,
) -> (r: String)
    ensures
        r@ == report_object(opt_text(group_json), max_age, texts(url_jsons@), include_subdomains),
{
    let mut r = String::from_str("{");
    match &group_json {
        Some(g) => {
            r.append("\"group\":");
            r.append(g.as_str());
            r.append(",");
        },
        None => {},
    }
    r.append("\"max_age\":");
    let age = decimal_text(max_age);
    r.append(age.as_str());
    r.append(",\"endpoints\":[");
    let mut items: Vec<String> = Vec::new();
    let mut i: usize = 0;
    while i < url_jsons.len()
        invariant
            i <= url_jsons.len(),
            texts(items@) == texts(url_jsons@).take(i as int).map_values(
                |u: Seq<char>| endpoint_object(u),
            ),
        decreases url_jsons.len() - i,
    {
        let mut item = String::from_str("{\"url\":");
        item.append(url_jsons[i].as_str());
        item.append("}");
        let ghost before = texts(items@);
        items.push(item);
        proof {
            assert(texts(items@) =~= before.push(item@));
            assert(texts(url_jsons@).take(i + 1).map_values(|u: Seq<char>| endpoint_object(u))
                =~= texts(url_jsons@).take(i as int).map_values(
                |u: Seq<char>| endpoint_object(u),
            ).push(endpoint_object(url_jsons@[i as int]@)));
        }
        i = i + 1;
    }
    proof {
        assert(texts(url_jsons@).take(url_jsons.len() as int) =~= texts(url_jsons@));
    }
    let joined = join_texts(&items, ",");
    r.append(joined.as_str());
    r.append("]");
    match include_subdomains {
        Some(b) => {
            r.append(",\"include_subdomains\":");
            if b {
                r.append("true");
            } else {
                r.append("false");
            }
        },
        None => {},
    }
    r.append("}");
    proof {
        reveal_strlit("");
    }
    r
}

/// The policy token for a `report-to` group.
pub open spec fn report_to_token(r: ReportToView) -> Seq<char> {
    "report-to "@ + report_to_json(r)
}

impl ReportTo {
    /// A group with these fields; `group` and `include_subdomains` may be left unset.
    pub fn new(
        group: Option<String>,
        max_age: i32,
        endpoints: Vec<ReportToEndpoint>,
        include_subdomains: Option<bool>,
    ) -> (r: ReportTo)
        ensures
            r@ == (ReportToView {
                group: opt_text(group),
                max_age,
                endpoints: endpoints@.map_values(|e: ReportToEndpoint| e@),
                include_subdomains,
            }),
    {
        ReportTo { group, max_age, endpoints, include_subdomains }
    }

    /// The group as a JSON object.
    pub fn to_json(&self) -> (r: String)
        ensures
            r@ == report_to_json(self@),
    {
        let group_json = match &self.group {
            Some(g) => Some(json_string(g.as_str())),
            None => None,
        };
        let mut url_jsons: Vec<String> = Vec::new();
        let mut i: usize = 0;
        while i < self.endpoints.len()
            invariant
                i <= self.endpoints.len(),
                texts(url_jsons@) == self@.endpoints.take(i as int).map_values(
                    |u: Seq<char>| json_string_of(u),
                ),
            decreases self.endpoints.len() - i,
        {
            let j = json_string(self.endpoints[i].url.as_str());
            let ghost before = texts(url_jsons@);
            url_jsons.push(j);
            proof {
                assert(texts(url_jsons@) =~= before.push(j@));
                assert(self@.endpoints.take(i + 1).map_values(|u: Seq<char>| json_string_of(u))
                    =~= self@.endpoints.take(i as int).map_values(
                    |u: Seq<char>| json_string_of(u),
                ).push(json_string_of(self@.endpoints[i as int])));
            }
            i = i + 1;
        }
        proof {
            assert(self@.endpoints.take(self.endpoints.len() as int) =~= self@.endpoints);
            assert(opt_text(group_json) == match self@.group {
                Some(g) => Some(json_string_of(g)),
                None => None,
            });
        }
        write_report_object(group_json, self.max_age, &url_jsons, self.include_subdomains)
    }
}

} // verus!
