//! A collector that scrapes status pages: its configuration, and what one
//! tick makes of the responses of its targets. Each target is read on its
//! own; a failing target never costs its siblings anything.
use vstd::prelude::*;
use http::uri::InvalidUri;
use http::Uri;
use crate::metrics_text::{metric_entries, parse, parse_body, Metric};

verus! {

#[verifier::external_type_specification]
#[verifier::external_body]
pub struct ExUri(http::Uri);

#[verifier::external_type_specification]
#[verifier::external_body]
pub struct ExInvalidUri(http::uri::InvalidUri);

/// Whether a string parses as a URI.
pub uninterp spec fn is_valid_uri(s: Seq<char>) -> bool;

/// Relies on `http::Uri`'s `FromStr`: whether a string parses depends on the
/// string alone, and the empty string is refused.
#[verifier::external_body]
fn parse_uri(s: &str) -> (r: Result<Uri, InvalidUri>)
    ensures
        r is Ok <==> is_valid_uri(s@),
        s@.len() == 0 ==> r is Err,
{
    s.parse::<Uri>()
}

/// Relies on `chrono::Utc::now`: the current time in milliseconds since the epoch.
#[verifier::external_body]
fn now_millis() -> (r: i64) {
    chrono::Utc::now().timestamp_millis()
}

/// The interval between two ticks, in seconds, where none is configured.
pub fn default_scrape_interval_secs() -> (r: u64)
    ensures
        r == 15,
{
    15
}

/// The namespace of the metrics, where none is configured.
pub fn default_namespace() -> (r: String)
    ensures
        r@ == "apache"@,
{
    "apache".to_owned()
}

/// The settings of one collector, fixed for its lifetime.
#[derive(Debug)]
pub struct ApacheMetricsConfig {
    pub endpoints: Vec<String>,
    pub scrape_interval_secs: u64,
    pub namespace: String,
}

/// A configuration error, raised before the collector starts.
#[derive(Debug)]
pub enum BuildError {
    /// The endpoint at `index` is no URI.
    UriParse { index: usize, source: InvalidUri },
}

impl ApacheMetricsConfig {
    /// A configuration with the default interval and namespace.
    pub fn new(endpoints: Vec<String>) -> (r: Self)
        ensures
            r.endpoints@ == endpoints@,
            r.scrape_interval_secs == 15,
            r.namespace@ == "apache"@,
    {
        ApacheMetricsConfig {
            endpoints,
            scrape_interval_secs: default_scrape_interval_secs(),
            namespace: default_namespace(),
        }
    }

    /// Parses every endpoint: all of them, in order, or the first that is no URI.
    pub fn build(&self) -> (r: Result<Vec<Uri>, BuildError>)
        ensures
            r is Ok <==> forall|i: int|
                0 <= i < self.endpoints@.len() ==> is_valid_uri(#[trigger] self.endpoints@[i]@),
            r matches Ok(v) ==> v@.len() == self.endpoints@.len(),
            (exists|i: int| 0 <= i < self.endpoints@.len() && (#[trigger] self.endpoints@[i])@.len() == 0)
                ==> r is Err,
            r matches Err(BuildError::UriParse { index, .. }) ==> index < self.endpoints@.len()
                && !is_valid_uri(self.endpoints@[index as int]@) && forall|i: int|
                0 <= i < index ==> is_valid_uri(#[trigger] self.endpoints@[i]@),
    {
        let mut uris: Vec<Uri> = Vec::new();
        let mut i: usize = 0;
        while i < self.endpoints.len()
            invariant
                0 <= i <= self.endpoints@.len(),
                uris@.len() == i,
                forall|j: int| 0 <= j < i ==> is_valid_uri(#[trigger] self.endpoints@[j]@),
                forall|j: int| 0 <= j < i ==> (#[trigger] self.endpoints@[j])@.len() > 0,
            decreases self.endpoints@.len() - i,
        {
            match parse_uri(self.endpoints[i].as_str()) {
                Ok(uri) => uris.push(uri),
                Err(source) => {
                    return Err(BuildError::UriParse { index: i, source });
                },
            }
            i += 1;
        }
        Ok(uris)
    }
}

/// What the transport gave back for one target on one tick.
#[derive(Debug)]
pub enum TargetResponse {
    /// The request failed before any response; the transport's message.
    Transport { message: String },
    /// A response, with its status and its whole body.
    Http { status: u16, body: Vec<u8> },
}

/// A failure reported for one target on one tick; `target` is the target's
/// position in the configuration.
#[derive(Debug)]
pub enum ScrapeError {
    /// The response had a status other than `200 OK`.
    ErrorResponse { target: usize, status: u16 },
    /// The transport failed.
    HttpError { target: usize, message: String },
    /// A line of a `200 OK` body is no metric.
    Parse { target: usize, line: Vec<u8> },
}

/// The metrics that one response yields.
pub open spec fn target_metrics(r: TargetResponse) -> Seq<(Seq<u8>, nat)> {
    match r {
        TargetResponse::Http { status, body } => if status == 200 {
            parse_body(body@).0
        } else {
            Seq::empty()
        },
        TargetResponse::Transport { .. } => Seq::empty(),
    }
}

/// The number of errors that one response yields.
pub open spec fn target_error_count(r: TargetResponse) -> nat {
    match r {
        TargetResponse::Http { status, body } => if status == 200 {
            parse_body(body@).1.len()
        } else {
            1
        },
        TargetResponse::Transport { .. } => 1,
    }
}

/// Whether `errs` are exactly the errors of response `r` of target `i`.
pub open spec fn target_errors(i: usize, r: TargetResponse, errs: Seq<ScrapeError>) -> bool {
    match r {
        TargetResponse::Http { status, body } => if status == 200 {
            &&& errs.len() == parse_body(body@).1.len()
            &&& forall|j: int|
                0 <= j < errs.len() ==> (#[trigger] errs[j] matches ScrapeError::Parse {
                    target,
                    line,
                } && target == i && line@ == parse_body(body@).1[j])
        } else {
            errs.len() == 1 && (errs[0] matches ScrapeError::ErrorResponse { target, status: s }
                && target == i && s == status)
        },
        TargetResponse::Transport { message } => errs.len() == 1 && (
        errs[0] matches ScrapeError::HttpError { target, message: m } && target == i && m@
            == message@),
    }
}

/// The metrics that a tick forwards: those of each target, in target order.
pub open spec fn tick_metrics(rs: Seq<TargetResponse>) -> Seq<(Seq<u8>, nat)>
    decreases rs.len(),
{
    if rs.len() == 0 {
        Seq::empty()
    } else {
        tick_metrics(rs.drop_last()) + target_metrics(rs.last())
    }
}

/// The number of errors that a tick reports.
pub open spec fn tick_error_count(rs: Seq<TargetResponse>) -> nat
    decreases rs.len(),
{
    if rs.len() == 0 {
        0
    } else {
        tick_error_count(rs.drop_last()) + target_error_count(rs.last())
    }
}

/// Whether `errs` are the errors of the targets of `rs`, target after target.
pub open spec fn tick_errors(rs: Seq<TargetResponse>, errs: Seq<ScrapeError>) -> bool
    decreases rs.len(),
{
    if rs.len() == 0 {
        errs.len() == 0
    } else {
        let n = target_error_count(rs.last()) as int;
        &&& n <= errs.len()
        &&& tick_errors(rs.drop_last(), errs.take(errs.len() - n))
        &&& target_errors((rs.len() - 1) as usize, rs.last(), errs.skip(errs.len() - n))
    }
}

/// The target that an error is reported for.
pub open spec fn error_target(e: ScrapeError) -> usize {
    match e {
        ScrapeError::ErrorResponse { target, .. } => target,
        ScrapeError::HttpError { target, .. } => target,
        ScrapeError::Parse { target, .. } => target,
    }
}

/// Reads the response of target `target`: the metrics of a `200 OK` body and
/// one error per malformed line, or no metric and one error that says why.
pub fn scrape_target(target: usize, response: &TargetResponse, namespace: &String, timestamp: i64) -> (r: (
    Vec<Metric>,
    Vec<ScrapeError>,
))
    ensures
        metric_entries(r.0@) == target_metrics(*response),
        target_errors(target, *response, r.1@),
        forall|i: int|
            0 <= i < r.0@.len() ==> (#[trigger] r.0@[i]).namespace@ == namespace@
                && r.0@[i].timestamp == timestamp,
{
    match response {
        TargetResponse::Http { status, body } => {
            if *status == 200 {
                let (metrics, errors) = parse(body.as_slice(), namespace, timestamp);
                let mut out: Vec<ScrapeError> = Vec::new();
                let mut errors = errors;
                let ghost lines = crate::metrics_text::error_lines(errors@);
                let mut j: usize = 0;
                let n = errors.len();
                while j < n
                    invariant
                        0 <= j <= n,
                        n == errors@.len() + j,
                        lines.len() == n,
                        out@.len() == j,
                        forall|k: int| 0 <= k < errors@.len() ==> (#[trigger] errors@[k]).line@ == lines[k + j],
                        forall|k: int|
                            0 <= k < j ==> (#[trigger] out@[k] matches ScrapeError::Parse {
                                target: t,
                                line,
                            } && t == target && line@ == lines[k]),
                    decreases n - j,
                {
                    let e = errors.remove(0);
                    out.push(ScrapeError::Parse { target, line: e.line });
                    j += 1;
                }
                (metrics, out)
            } else {
                let errs = vec![ScrapeError::ErrorResponse { target, status: *status }];
                let metrics: Vec<Metric> = Vec::new();
                assert(metric_entries(metrics@) == Seq::<(Seq<u8>, nat)>::empty());
                (metrics, errs)
            }
        },
        TargetResponse::Transport { message } => {
            let errs = vec![ScrapeError::HttpError { target, message: message.clone() }];
            let metrics: Vec<Metric> = Vec::new();
            assert(metric_entries(metrics@) == Seq::<(Seq<u8>, nat)>::empty());
            (metrics, errs)
        },
    }
}

/// One tick: reads the responses of all targets, in target order, and
/// returns the metrics to forward and the errors to report.
pub fn scrape_tick(responses: &Vec<TargetResponse>, namespace: &String, timestamp: i64) -> (r: (
    Vec<Metric>,
    Vec<ScrapeError>,
))
    ensures
        metric_entries(r.0@) == tick_metrics(responses@),
        r.1@.len() == tick_error_count(responses@),
        tick_errors(responses@, r.1@),
        forall|i: int| 0 <= i < r.1@.len() ==> error_target(#[trigger] r.1@[i]) < responses@.len(),
        forall|i: int|
            0 <= i < r.0@.len() ==> (#[trigger] r.0@[i]).namespace@ == namespace@
                && r.0@[i].timestamp == timestamp,
{
    let mut metrics: Vec<Metric> = Vec::new();
    let mut errors: Vec<ScrapeError> = Vec::new();
    let mut i: usize = 0;
    assert(responses@.take(0) == Seq::<TargetResponse>::empty());
    assert(metric_entries(metrics@) == Seq::<(Seq<u8>, nat)>::empty());
    while i < responses.len()
        invariant
            0 <= i <= responses@.len(),
            metric_entries(metrics@) == tick_metrics(responses@.take(i as int)),
            errors@.len() == tick_error_count(responses@.take(i as int)),
            tick_errors(responses@.take(i as int), errors@),
            forall|j: int| 0 <= j < errors@.len() ==> error_target(#[trigger] errors@[j]) < i,
            forall|j: int|
                0 <= j < metrics@.len() ==> (#[trigger] metrics@[j]).namespace@ == namespace@
                    && metrics@[j].timestamp == timestamp,
        decreases responses@.len() - i,
    {
        let (mut m, mut e) = scrape_target(i, &responses[i], namespace, timestamp);
        assert(responses@.take(i + 1).drop_last() == responses@.take(i as int));
        let ghost (m0, e0, mb, eb) = (metrics@, errors@, m@, e@);
        proof {
            assert(e@.len() == target_error_count(responses@[i as int]));
            assert forall|j: int| 0 <= j < e@.len() implies error_target(#[trigger] e@[j]) == i by {
                match responses@[i as int] {
                    TargetResponse::Http { status, body } => {},
                    TargetResponse::Transport { .. } => {},
                }
            }
        }
        metrics.append(&mut m);
        errors.append(&mut e);
        assert(metric_entries(metrics@) == metric_entries(m0) + metric_entries(mb));
        assert(forall|j: int| 0 <= j < eb.len() ==> errors@[e0.len() + j] == eb[j]);
        assert(errors@.take(errors@.len() - eb.len()) == e0);
        assert(errors@.skip(errors@.len() - eb.len()) == eb);
        assert(responses@.take(i + 1).last() == responses@[i as int]);
        i += 1;
    }
    assert(responses@.take(i as int) == responses@);
    (metrics, errors)
}

/// One tick, with its metrics stamped with the current time.
pub fn scrape_tick_now(responses: &Vec<TargetResponse>, namespace: &String) -> (r: (
    Vec<Metric>,
    Vec<ScrapeError>,
))
    ensures
        metric_entries(r.0@) == tick_metrics(responses@),
        r.1@.len() == tick_error_count(responses@),
        tick_errors(responses@, r.1@),
        forall|i: int| 0 <= i < r.1@.len() ==> error_target(#[trigger] r.1@[i]) < responses@.len(),
        forall|i: int|
            0 <= i < r.0@.len() ==> (#[trigger] r.0@[i]).namespace@ == namespace@
                && r.0@[i].timestamp == r.0@[0].timestamp,
{
    let now = now_millis();
    scrape_tick(responses, namespace, now)
}

/// A target that yields no metric adds nothing to what a tick forwards: the
/// tick forwards exactly the metrics of the other targets, in order.
pub proof fn lemma_silent_target_forwards_nothing(rs: Seq<TargetResponse>, k: int)
    requires
        0 <= k < rs.len(),
        target_metrics(rs[k]).len() == 0,
    ensures
        tick_metrics(rs) == tick_metrics(rs.remove(k)),
    decreases rs.len(),
{
    if k == rs.len() - 1 {
        assert(rs.remove(k) == rs.drop_last());
        assert(target_metrics(rs.last()) =~= Seq::empty());
        assert(tick_metrics(rs.drop_last()) + target_metrics(rs.last()) == tick_metrics(rs.drop_last()));
    } else {
        lemma_silent_target_forwards_nothing(rs.drop_last(), k);
        assert(rs.remove(k).drop_last() == rs.drop_last().remove(k));
        assert(rs.remove(k).last() == rs.last());
    }
}

proof fn lemma_no_errors(rs: Seq<TargetResponse>)
    requires
        forall|i: int| 0 <= i < rs.len() ==> target_error_count(#[trigger] rs[i]) == 0,
    ensures
        tick_error_count(rs) == 0,
    decreases rs.len(),
{
    if rs.len() > 0 {
        lemma_no_errors(rs.drop_last());
        assert(target_error_count(rs[rs.len() - 1]) == 0);
    }
}

/// Where one target fails with one error and every other target succeeds
/// without error, the tick reports one error and forwards the metrics of all
/// other targets, in order.
pub proof fn lemma_one_failing_target(rs: Seq<TargetResponse>, k: int)
    requires
        0 <= k < rs.len(),
        target_metrics(rs[k]).len() == 0,
        target_error_count(rs[k]) == 1,
        forall|i: int| 0 <= i < rs.len() && i != k ==> target_error_count(#[trigger] rs[i]) == 0,
    ensures
        tick_error_count(rs) == 1,
        tick_metrics(rs) == tick_metrics(rs.remove(k)),
    decreases rs.len(),
{
    lemma_silent_target_forwards_nothing(rs, k);
    if k == rs.len() - 1 {
        assert forall|i: int| 0 <= i < rs.drop_last().len() implies target_error_count(
            #[trigger] rs.drop_last()[i],
        ) == 0 by {
            assert(rs.drop_last()[i] == rs[i]);
        }
        lemma_no_errors(rs.drop_last());
    } else {
        assert forall|i: int| 0 <= i < rs.drop_last().len() && i != k implies target_error_count(
            #[trigger] rs.drop_last()[i],
        ) == 0 by {
            assert(rs.drop_last()[i] == rs[i]);
        }
        assert(rs.drop_last()[k] == rs[k]);
        lemma_one_failing_target(rs.drop_last(), k);
        assert(target_error_count(rs[rs.len() - 1]) == 0);
    }
}

/// An empty `200 OK` body yields no metric and no error.
pub proof fn lemma_empty_body_yields_nothing(r: TargetResponse)
    requires
        r matches TargetResponse::Http { status, body } && status == 200 && body@.len() == 0,
    ensures
        target_metrics(r).len() == 0,
        target_error_count(r) == 0,
{
    if let TargetResponse::Http { status, body } = r {
        assert(body@ == Seq::<u8>::empty());
        assert(crate::framing::scan(body@) == (Seq::<Seq<u8>>::empty(), Seq::<u8>::empty()));
        let lines = crate::metrics_text::body_lines(body@);
        assert(lines.len() == 1 && lines.last().len() == 0);
        assert(lines.drop_last() == Seq::<Seq<u8>>::empty());
        assert(crate::metrics_text::parse_lines(lines) == crate::metrics_text::parse_lines(
            lines.drop_last(),
        ));
    }
}

} // verus!
