//! What the monitor probes on each site, and how a probe's outcome is judged.
use vstd::prelude::*;
use crate::decimal::{append_decimal, decimal_spec};
use crate::text::{
    ascii_lower, chars_of, contains_chars, contains_spec, lemma_ascii_lower_idempotent,
    lower_chars, opt_str_view, opt_text, starts_with_chars, starts_with_spec,
};
use crate::urls::{http_chars, http_scheme, https_chars, https_scheme, join_url, join_url_spec};

verus! {

/// A monitored site, as far as the probes read it.
pub struct Site {
    pub id: i64,
    pub base_url: String,
    pub homepage_path: String,
    pub critical_css_url: String,
}

/// One URL to probe on a site, with the content types it must be served with.
pub struct CheckTarget {
    pub target_type: &'static str,
    pub url: String,
    pub expected_content_types: &'static [&'static str],
}

/// The texts of a sequence of string slices.
pub open spec fn strs_view(items: Seq<&str>) -> Seq<Seq<char>> {
    items.map_values(|item: &str| item@)
}

/// Where a site's asset lives: an absolute `http://` or `https://` URL as it
/// is, anything else joined to the site's base URL.
pub open spec fn site_asset_url_spec(base_url: Seq<char>, value: Seq<char>) -> Seq<char> {
    if starts_with_spec(value, http_scheme()) || starts_with_spec(value, https_scheme()) {
        value
    } else {
        join_url_spec(base_url, value)
    }
}

/// Whether a target's fields are the given texts.
pub open spec fn target_is(
    target: CheckTarget,
    target_type: Seq<char>,
    url: Seq<char>,
    expected: Seq<Seq<char>>,
) -> bool {
    &&& target.target_type@ == target_type
    &&& target.url@ == url
    &&& strs_view(target.expected_content_types@) == expected
}

/// The four probes of a site, in order: homepage, critical CSS, robots.txt and
/// sitemap.xml.
pub open spec fn site_targets_are(site: Site, targets: Seq<CheckTarget>) -> bool {
    &&& targets.len() == 4
    &&& target_is(
        targets[0],
        "homepage"@,
        join_url_spec(site.base_url@, site.homepage_path@),
        seq!["text/html"@],
    )
    &&& target_is(
        targets[1],
        "css"@,
        site_asset_url_spec(site.base_url@, site.critical_css_url@),
        seq!["text/css"@],
    )
    &&& target_is(
        targets[2],
        "robots"@,
        join_url_spec(site.base_url@, "/robots.txt"@),
        seq!["text/plain"@],
    )
    &&& target_is(
        targets[3],
        "sitemap"@,
        join_url_spec(site.base_url@, "/sitemap.xml"@),
        seq!["application/xml"@, "text/xml"@],
    )
}

/// Whether a served content type is one of the expected ones: some expected
/// type occurs in the ASCII lower-case form of the header; a missing header
/// never matches.
pub open spec fn content_type_matches_spec(
    content_type: Option<Seq<char>>,
    expected: Seq<Seq<char>>,
) -> bool {
    match content_type {
        Some(text) => exists|i: int|
            0 <= i < expected.len() && contains_spec(ascii_lower(text), #[trigger] expected[i]),
        None => false,
    }
}

/// The URL of a site asset: absolute URLs are kept, paths are joined to the
/// site's base URL.
pub fn site_asset_url(site: &Site, value: &str) -> (url: String)
    ensures
        url@ == site_asset_url_spec(site.base_url@, value@),
{
    let v = chars_of(value);
    if starts_with_chars(&v, &http_chars()) || starts_with_chars(&v, &https_chars()) {
        String::from_str(value)
    } else {
        join_url(site.base_url.as_str(), value)
    }
}

/// The probes to run against a site.
pub fn check_targets(site: &Site) -> (targets: Vec<CheckTarget>)
    ensures
        site_targets_are(*site, targets@),
{
    let homepage = CheckTarget {
        target_type: "homepage",
        url: join_url(site.base_url.as_str(), site.homepage_path.as_str()),
        expected_content_types: &["text/html"],
    };
    let css = CheckTarget {
        target_type: "css",
        url: site_asset_url(site, site.critical_css_url.as_str()),
        expected_content_types: &["text/css"],
    };
    let robots = CheckTarget {
        target_type: "robots",
        url: join_url(site.base_url.as_str(), "/robots.txt"),
        expected_content_types: &["text/plain"],
    };
    let sitemap = CheckTarget {
        target_type: "sitemap",
        url: join_url(site.base_url.as_str(), "/sitemap.xml"),
        expected_content_types: &["application/xml", "text/xml"],
    };
    assert(strs_view(homepage.expected_content_types@) =~= seq!["text/html"@]);
    assert(strs_view(css.expected_content_types@) =~= seq!["text/css"@]);
    assert(strs_view(robots.expected_content_types@) =~= seq!["text/plain"@]);
    assert(strs_view(sitemap.expected_content_types@) =~= seq!["application/xml"@, "text/xml"@]);
    vec![homepage, css, robots, sitemap]
}

/// Whether a served content type is one of the expected ones.
pub fn content_type_matches(content_type: Option<&str>, expected: &[&str]) -> (matched: bool)
    ensures
        matched == content_type_matches_spec(
            opt_str_view(content_type),
            strs_view(expected@),
        ),
{
    let text = match content_type {
        Some(text) => text,
        None => return false,
    };
    let normalized = lower_chars(&chars_of(text));
    let mut i: usize = 0;
    while i < expected.len()
        invariant
            i <= expected@.len(),
            content_type == Some(text),
            normalized@ == ascii_lower(text@),
            forall|j: int| 0 <= j < i ==> !contains_spec(normalized@, #[trigger] expected@[j]@),
        decreases expected@.len() - i,
    {
        let item: &str = expected[i];
        if contains_chars(&normalized, &chars_of(item)) {
            assert(strs_view(expected@)[i as int] == item@);
            assert(contains_spec(ascii_lower(text@), strs_view(expected@)[i as int]));
            return true;
        }
        i = i + 1;
    }
    assert forall|j: int| 0 <= j < expected@.len() implies !contains_spec(
        ascii_lower(text@),
        #[trigger] strs_view(expected@)[j],
    ) by {
        assert(strs_view(expected@)[j] == expected@[j]@);
    }
    false
}

/// What the HTTP request of a probe came back with.
pub enum HttpOutcome {
    /// The site answered with this status and `Content-Type` header (absent,
    /// or not visible ASCII: `None`).
    Responded { status: u16, content_type: Option<String> },
    /// The request failed; `error` is the client's description.
    Failed { error: String },
}

/// The judged outcome of one probe, as it is stored.
pub struct ProbeResult {
    pub target_type: &'static str,
    pub url: String,
    pub status_code: Option<i32>,
    pub content_type: Option<String>,
    pub latency_ms: i32,
    pub ok: bool,
    pub failure_reason: Option<String>,
}

/// The items joined with `sep` between each two (`<[&str]>::join`).
pub open spec fn join_spec(items: Seq<Seq<char>>, sep: Seq<char>) -> Seq<char>
    decreases items.len(),
{
    if items.len() == 0 {
        Seq::empty()
    } else if items.len() == 1 {
        items[0]
    } else {
        join_spec(items.drop_last(), sep) + sep + items.last()
    }
}

/// The reason given for a status other than 200.
pub open spec fn status_failure_spec(status: nat) -> Seq<char> {
    "expected 200, got "@ + decimal_spec(status)
}

/// The reason given for a content type that none of the expected ones matches.
pub open spec fn content_failure_spec(
    expected: Seq<Seq<char>>,
    content_type: Option<Seq<char>>,
) -> Seq<char> {
    "expected content type "@ + join_spec(expected, " or "@) + ", got "@ + match content_type {
        Some(text) => text,
        None => "missing"@,
    }
}

/// The failure reason of a probe that got a response: the status is judged
/// first, then the content type; `None` when both are as expected.
pub open spec fn response_failure_spec(
    status: u16,
    content_type: Option<Seq<char>>,
    expected: Seq<Seq<char>>,
) -> Option<Seq<char>> {
    if status != 200 {
        Some(status_failure_spec(status as nat))
    } else if !content_type_matches_spec(content_type, expected) {
        Some(content_failure_spec(expected, content_type))
    } else {
        None
    }
}

/// Whether `probe` is the judgement of a probe of `target` that took
/// `latency_ms` and came back with `outcome`.
pub open spec fn probe_judged(
    probe: ProbeResult,
    target: CheckTarget,
    latency_ms: i32,
    outcome: HttpOutcome,
) -> bool {
    let expected = strs_view(target.expected_content_types@);
    &&& probe.target_type == target.target_type
    &&& probe.url == target.url
    &&& probe.latency_ms == latency_ms
    &&& match outcome {
        HttpOutcome::Responded { status, content_type } => {
            &&& probe.status_code == Some(status as i32)
            &&& opt_text(probe.content_type) == opt_text(content_type)
            &&& probe.ok == (status == 200 && content_type_matches_spec(
                opt_text(content_type),
                expected,
            ))
            &&& opt_text(probe.failure_reason) == response_failure_spec(
                status,
                opt_text(content_type),
                expected,
            )
        },
        HttpOutcome::Failed { error } => {
            &&& probe.status_code is None
            &&& probe.content_type is None
            &&& !probe.ok
            &&& opt_text(probe.failure_reason) == Some("request failed: "@ + error@)
        },
    }
}

/// Appends the items of `items` to `out`, with `sep` between each two.
fn append_joined(out: &mut String, items: &[&str], sep: &str)
    ensures
        final(out)@ == old(out)@ + join_spec(strs_view(items@), sep@),
{
    let ghost start = out@;
    let mut i: usize = 0;
    while i < items.len()
        invariant
            i <= items@.len(),
            out@ == start + join_spec(strs_view(items@).take(i as int), sep@),
        decreases items@.len() - i,
    {
        let ghost before = strs_view(items@).take(i as int);
        let ghost after = strs_view(items@).take(i + 1);
        assert(after.drop_last() =~= before);
        if i > 0 {
            out.append(sep);
        }
        out.append(items[i]);
        i = i + 1;
        proof {
            if i == 1 {
                assert(before =~= Seq::<Seq<char>>::empty());
            }
        }
        assert(out@ =~= start + join_spec(after, sep@));
    }
    assert(strs_view(items@).take(items@.len() as int) =~= strs_view(items@));
}

/// The failure reason of a probe that got a response, if any.
fn response_failure(
    status: u16,
    content_type: Option<&str>,
    content_ok: bool,
    expected: &[&str],
) -> (reason: Option<String>)
    requires
        content_ok == content_type_matches_spec(
            opt_str_view(content_type),
            strs_view(expected@),
        ),
    ensures
        opt_text(reason) == response_failure_spec(
            status,
            opt_str_view(content_type),
            strs_view(expected@),
        ),
{
    if status != 200 {
        let mut reason = String::from_str("expected 200, got ");
        append_decimal(&mut reason, status as u64);
        Some(reason)
    } else if !content_ok {
        let mut reason = String::from_str("expected content type ");
        append_joined(&mut reason, expected, " or ");
        reason.append(", got ");
        match content_type {
            Some(text) => reason.append(text),
            None => reason.append("missing"),
        }
        Some(reason)
    } else {
        None
    }
}

/// Judges a probe of `target` by what its request came back with: it is ok
/// exactly when the status is 200 and the content type is an expected one.
pub fn classify_probe(
    target: CheckTarget,
    latency_ms: i32,
    outcome: HttpOutcome,
) -> (probe: ProbeResult)
    ensures
        probe_judged(probe, target, latency_ms, outcome),
        probe.ok ==> (outcome matches HttpOutcome::Responded { status, .. } && status == 200),
        match outcome {
            HttpOutcome::Responded { status, .. } => status != 200 ==> !probe.ok && opt_text(
                probe.failure_reason,
            ) == Some("expected 200, got "@ + decimal_spec(status as nat)),
            HttpOutcome::Failed { .. } => !probe.ok,
        },
        probe.ok <==> probe.failure_reason is None,
{
    match outcome {
        HttpOutcome::Responded { status, content_type } => {
            let shown: Option<&str> = match &content_type {
                Some(text) => Some(text.as_str()),
                None => None,
            };
            let content_ok = content_type_matches(shown, target.expected_content_types);
            let failure_reason = response_failure(
                status,
                shown,
                content_ok,
                target.expected_content_types,
            );
            ProbeResult {
                target_type: target.target_type,
                url: target.url,
                status_code: Some(status as i32),
                content_type,
                latency_ms,
                ok: status == 200 && content_ok,
                failure_reason,
            }
        },
        HttpOutcome::Failed { error } => {
            let reason = String::from_str("request failed: ").concat(error.as_str());
            ProbeResult {
                target_type: target.target_type,
                url: target.url,
                status_code: None,
                content_type: None,
                latency_ms,
                ok: false,
                failure_reason: Some(reason),
            }
        },
    }
}

/// A probe to run during a check run, and the site it belongs to.
pub struct PlannedCheck {
    pub site_id: i64,
    pub target: CheckTarget,
}

/// Whether `plan` holds the four probes of each site, site after site, in the
/// order of `check_targets`.
pub open spec fn planned_for(sites: Seq<Site>, plan: Seq<PlannedCheck>) -> bool {
    &&& plan.len() == 4 * sites.len()
    &&& forall|i: int|
        0 <= i < sites.len() ==> {
            &&& site_targets_are(#[trigger] sites[i], Seq::new(4, |k: int| plan[4 * i + k].target))
            &&& plan[4 * i].site_id == sites[i].id
            &&& plan[4 * i + 1].site_id == sites[i].id
            &&& plan[4 * i + 2].site_id == sites[i].id
            &&& plan[4 * i + 3].site_id == sites[i].id
        }
}

/// The probes of a check run over the enabled sites, in the order they run.
pub fn plan_check_run(sites: &Vec<Site>) -> (plan: Vec<PlannedCheck>)
    requires
        4 * sites@.len() <= usize::MAX,
    ensures
        planned_for(sites@, plan@),
{
    let mut plan: Vec<PlannedCheck> = Vec::new();
    let mut i: usize = 0;
    while i < sites.len()
        invariant
            i <= sites@.len(),
            4 * sites@.len() <= usize::MAX,
            planned_for(sites@.take(i as int), plan@),
        decreases sites@.len() - i,
    {
        let site = &sites[i];
        let mut targets = check_targets(site);
        let ghost all = targets@;
        let ghost before = plan@;
        let t0 = targets.remove(0);
        let t1 = targets.remove(0);
        let t2 = targets.remove(0);
        let t3 = targets.remove(0);
        plan.push(PlannedCheck { site_id: site.id, target: t0 });
        plan.push(PlannedCheck { site_id: site.id, target: t1 });
        plan.push(PlannedCheck { site_id: site.id, target: t2 });
        plan.push(PlannedCheck { site_id: site.id, target: t3 });
        let ghost done = sites@.take(i + 1);
        proof {
            assert(Seq::new(4, |k: int| plan@[4 * i + k].target) =~= all);
            assert forall|j: int| 0 <= j < done.len() implies {
                &&& site_targets_are(#[trigger] done[j], Seq::new(4, |k: int| plan@[4 * j + k].target))
                &&& plan@[4 * j].site_id == done[j].id
                &&& plan@[4 * j + 1].site_id == done[j].id
                &&& plan@[4 * j + 2].site_id == done[j].id
                &&& plan@[4 * j + 3].site_id == done[j].id
            } by {
                if j < i {
                    assert(done[j] == sites@.take(i as int)[j]);
                    assert(Seq::new(4, |k: int| plan@[4 * j + k].target) =~= Seq::new(
                        4,
                        |k: int| before[4 * j + k].target,
                    ));
                    assert(plan@[4 * j] == before[4 * j]);
                    assert(plan@[4 * j + 1] == before[4 * j + 1]);
                    assert(plan@[4 * j + 2] == before[4 * j + 2]);
                    assert(plan@[4 * j + 3] == before[4 * j + 3]);
                }
            }
        }
        i = i + 1;
    }
    assert(sites@.take(sites@.len() as int) =~= sites@);
    plan
}

/// The number of `false` entries in `oks`.
pub open spec fn failures_in(oks: Seq<bool>) -> nat
    decreases oks.len(),
{
    if oks.len() == 0 {
        0
    } else {
        failures_in(oks.drop_last()) + if oks.last() {
            0nat
        } else {
            1nat
        }
    }
}

/// A run never has more failures than checks.
pub proof fn lemma_failures_at_most_checks(oks: Seq<bool>)
    ensures
        failures_in(oks) <= oks.len(),
    decreases oks.len(),
{
    if oks.len() > 0 {
        lemma_failures_at_most_checks(oks.drop_last());
    }
}

/// The counts reported for a check run.
pub struct RunSummary {
    pub checked_sites: usize,
    pub inserted_checks: usize,
    pub failures: usize,
}

/// Summarises a check run over `checked_sites` sites whose stored checks came
/// out as `check_ok`, in order.
pub fn summarize_run(checked_sites: usize, check_ok: &Vec<bool>) -> (summary: RunSummary)
    ensures
        summary.checked_sites == checked_sites,
        summary.inserted_checks == check_ok@.len(),
        summary.failures == failures_in(check_ok@),
        summary.failures == check_ok@.filter(|ok: bool| !ok).len(),
        summary.failures <= summary.inserted_checks,
{
    let mut failures: usize = 0;
    let mut i: usize = 0;
    while i < check_ok.len()
        invariant
            i <= check_ok@.len(),
            failures == failures_in(check_ok@.take(i as int)),
        decreases check_ok@.len() - i,
    {
        proof {
            assert(check_ok@.take(i + 1).drop_last() =~= check_ok@.take(i as int));
            lemma_failures_at_most_checks(check_ok@.take(i as int));
        }
        if !check_ok[i] {
            failures = failures + 1;
        }
        i = i + 1;
    }
    assert(check_ok@.take(check_ok@.len() as int) =~= check_ok@);
    proof {
        lemma_failures_at_most_checks(check_ok@);
        lemma_failures_are_failed_checks(check_ok@);
    }
    RunSummary { checked_sites, inserted_checks: check_ok.len(), failures }
}

#[verifier::external_type_specification]
#[verifier::external_body]
pub struct ExInstant(std::time::Instant);

/// `Instant::elapsed`: the time the machine's monotonic clock has advanced
/// since `started`. Nothing is promised of the duration.
#[verifier::external_body]
fn time_since(started: &std::time::Instant) -> std::time::Duration {
    started.elapsed()
}

/// `Duration::as_millis`: the whole milliseconds in `duration`. The duration
/// is opaque here, so nothing is promised of the number.
#[verifier::external_body]
fn whole_millis(duration: &std::time::Duration) -> u128 {
    duration.as_millis()
}

/// A millisecond count as stored: the count itself where it fits in an
/// `i32`, `i32::MAX` above that.
pub fn millis_to_i32(millis: u128) -> (ms: i32)
    ensures
        ms == if millis <= i32::MAX as u128 {
            millis as int
        } else {
            i32::MAX as int
        },
{
    if millis <= i32::MAX as u128 {
        millis as i32
    } else {
        i32::MAX
    }
}

/// The milliseconds since `started`, capped at `i32::MAX`.
pub fn elapsed_ms(started: std::time::Instant) -> (ms: i32)
    ensures
        0 <= ms,
{
    millis_to_i32(whole_millis(&time_since(&started)))
}

/// A probe is ok exactly when it has no failure reason.
pub proof fn lemma_probe_ok_iff_no_failure_reason(
    probe: ProbeResult,
    target: CheckTarget,
    latency_ms: i32,
    outcome: HttpOutcome,
)
    requires
        probe_judged(probe, target, latency_ms, outcome),
    ensures
        probe.ok <==> probe.failure_reason is None,
{
}

/// Content types are compared without regard to ASCII case: a header and its
/// lower-case form match the same expected types.
pub proof fn lemma_content_type_case_insensitive(content_type: Seq<char>, expected: Seq<Seq<char>>)
    ensures
        content_type_matches_spec(Some(ascii_lower(content_type)), expected)
            == content_type_matches_spec(Some(content_type), expected),
{
    lemma_ascii_lower_idempotent(content_type);
}

/// A run with no checks has no failures; each further check adds one failure
/// exactly when it failed.
pub proof fn lemma_failures_count_each_failed_check(oks: Seq<bool>, ok: bool)
    ensures
        failures_in(Seq::<bool>::empty()) == 0,
        failures_in(oks.push(ok)) == failures_in(oks) + if ok {
            0int
        } else {
            1int
        },
{
    assert(oks.push(ok).drop_last() =~= oks);
}

/// The failures of a run are its checks that were not ok.
pub proof fn lemma_failures_are_failed_checks(oks: Seq<bool>)
    ensures
        failures_in(oks) == oks.filter(|ok: bool| !ok).len(),
    decreases oks.len(),
{
    reveal(Seq::filter);
    if oks.len() > 0 {
        lemma_failures_are_failed_checks(oks.drop_last());
    }
}

/// A response is ok only with status 200; any other status makes the probe
/// fail with the reason `expected 200, got <status>`, and a 200 with an
/// expected content type is ok with no reason.
pub proof fn lemma_probe_status_rule(
    probe: ProbeResult,
    target: CheckTarget,
    latency_ms: i32,
    status: u16,
    content_type: Option<String>,
)
    requires
        probe_judged(probe, target, latency_ms, HttpOutcome::Responded { status, content_type }),
    ensures
        probe.status_code == Some(status as i32),
        probe.ok ==> status == 200,
        status != 200 ==> !probe.ok && opt_text(probe.failure_reason) == Some(
            "expected 200, got "@ + decimal_spec(status as nat),
        ),
        status == 200 && content_type_matches_spec(
            opt_text(content_type),
            strs_view(target.expected_content_types@),
        ) ==> probe.ok && probe.failure_reason is None,
{
}

} // verus!
