//! The text of a status page: one `Key: value` line per metric, where the
//! value is an unsigned decimal integer. Empty lines are skipped; any other
//! line is a parse error that leaves the rest of the body untouched.
use vstd::prelude::*;
use crate::framing::{scan, FrameBuffer};

verus! {

/// The byte that ends a metric's key.
pub const COLON: u8 = 58;

/// The byte between the colon and the value.
pub const SPACE: u8 = 32;

/// The number of bytes before the first colon, or the whole length.
pub open spec fn key_len(line: Seq<u8>) -> nat
    decreases line.len(),
{
    if line.len() == 0 || line[0] == COLON {
        0
    } else {
        1 + key_len(line.drop_first())
    }
}

pub open spec fn is_digit(b: u8) -> bool {
    48 <= b && b <= 57
}

pub open spec fn all_digits(s: Seq<u8>) -> bool {
    forall|i: int| 0 <= i < s.len() ==> is_digit(#[trigger] s[i])
}

/// The number that a string of decimal digits writes.
pub open spec fn digits_value(s: Seq<u8>) -> nat
    decreases s.len(),
{
    if s.len() == 0 {
        0
    } else {
        digits_value(s.drop_last()) * 10 + (s.last() - 48) as nat
    }
}

/// The key and value of a metric line, if it is one.
pub open spec fn line_metric(line: Seq<u8>) -> Option<(Seq<u8>, nat)> {
    let k = key_len(line) as int;
    let digits = line.skip(k + 2);
    if 0 < k && k + 2 < line.len() && line[k + 1] == SPACE && all_digits(digits)
        && digits_value(digits) <= u64::MAX {
        Some((line.take(k), digits_value(digits)))
    } else {
        None
    }
}

/// The lines of a body: its newline-closed frames, then what follows the last newline.
pub open spec fn body_lines(body: Seq<u8>) -> Seq<Seq<u8>> {
    scan(body).0.push(scan(body).1)
}

/// The metrics of a list of lines, in order, and the lines that are neither
/// empty nor metrics.
pub open spec fn parse_lines(lines: Seq<Seq<u8>>) -> (Seq<(Seq<u8>, nat)>, Seq<Seq<u8>>)
    decreases lines.len(),
{
    if lines.len() == 0 {
        (Seq::empty(), Seq::empty())
    } else {
        let prev = parse_lines(lines.drop_last());
        let l = lines.last();
        if l.len() == 0 {
            prev
        } else {
            match line_metric(l) {
                Some(m) => (prev.0.push(m), prev.1),
                None => (prev.0, prev.1.push(l)),
            }
        }
    }
}

/// The metrics and the malformed lines of a body.
pub open spec fn parse_body(body: Seq<u8>) -> (Seq<(Seq<u8>, nat)>, Seq<Seq<u8>>) {
    parse_lines(body_lines(body))
}

/// One metric read from a status page, tagged with its namespace and the
/// time it was read at (milliseconds since the epoch).
#[derive(Debug)]
pub struct Metric {
    pub name: Vec<u8>,
    pub value: u64,
    pub namespace: String,
    pub timestamp: i64,
}

/// A line of a body that is not a metric.
#[derive(Debug)]
pub struct ParseError {
    pub line: Vec<u8>,
}

/// The names and values of a list of metrics.
pub open spec fn metric_entries(v: Seq<Metric>) -> Seq<(Seq<u8>, nat)> {
    v.map_values(|m: Metric| (m.name@, m.value as nat))
}

/// The lines of a list of parse errors.
pub open spec fn error_lines(v: Seq<ParseError>) -> Seq<Seq<u8>> {
    v.map_values(|e: ParseError| e.line@)
}

proof fn lemma_digits_prefix(s: Seq<u8>, j: int)
    requires
        0 <= j <= s.len(),
    ensures
        digits_value(s.take(j)) <= digits_value(s),
    decreases s.len(),
{
    if j < s.len() {
        lemma_digits_prefix(s.drop_last(), j);
        assert(s.drop_last().take(j) == s.take(j));
    } else {
        assert(s.take(j) == s);
    }
}

/// Reads the decimal digits `line[start..]`; `None` where one is no digit or
/// the number does not fit in a `u64`.
fn parse_digits(line: &[u8], start: usize) -> (r: Option<u64>)
    requires
        start <= line@.len(),
    ensures
        match r {
            Some(v) => all_digits(line@.skip(start as int)) && digits_value(
                line@.skip(start as int),
            ) == v,
            None => !(all_digits(line@.skip(start as int)) && digits_value(
                line@.skip(start as int),
            ) <= u64::MAX),
        },
{
    let ghost d = line@.skip(start as int);
    let mut v: u64 = 0;
    let mut j: usize = start;
    assert(d.take(0) == Seq::<u8>::empty());
    while j < line.len()
        invariant
            start <= j <= line@.len(),
            d == line@.skip(start as int),
            all_digits(d.take(j - start)),
            v == digits_value(d.take(j - start)),
        decreases line@.len() - j,
    {
        let b = line[j];
        assert(d.take(j + 1 - start).drop_last() == d.take(j - start));
        if b < 48 || b > 57 {
            assert(!is_digit(d[j - start]));
            return None;
        }
        let digit: u64 = (b - 48) as u64;
        if v > (u64::MAX - digit) / 10 {
            proof {
                lemma_digits_prefix(d, j + 1 - start);
            }
            return None;
        }
        v = v * 10 + digit;
        j += 1;
        assert(all_digits(d.take(j - start))) by {
            assert forall|i: int| 0 <= i < d.take(j - start).len() implies is_digit(
                #[trigger] d.take(j - start)[i],
            ) by {
                if i < j - 1 - start {
                    assert(d.take(j - start)[i] == d.take(j - 1 - start)[i]);
                }
            }
        }
    }
    assert(d.take(j - start) == d);
    Some(v)
}

/// The first `n` bytes of `s`, copied.
fn copy_prefix(s: &[u8], n: usize) -> (r: Vec<u8>)
    requires
        n <= s@.len(),
    ensures
        r@ == s@.take(n as int),
{
    let mut out: Vec<u8> = Vec::new();
    let mut i: usize = 0;
    while i < n
        invariant
            0 <= i <= n <= s@.len(),
            out@ == s@.take(i as int),
        decreases n - i,
    {
        out.push(s[i]);
        assert(s@.take(i + 1) == s@.take(i as int).push(s@[i as int]));
        i += 1;
    }
    out
}

/// Reads one line as a metric.
pub fn parse_line(line: &[u8]) -> (r: Option<(Vec<u8>, u64)>)
    ensures
        match line_metric(line@) {
            Some(m) => r matches Some(p) && p.0@ == m.0 && p.1 as nat == m.1,
            None => r is None,
        },
{
    let mut k: usize = 0;
    assert(line@.skip(0) == line@);
    while k < line.len() && line[k] != COLON
        invariant
            0 <= k <= line@.len(),
            key_len(line@) == k + key_len(line@.skip(k as int)),
        decreases line@.len() - k,
    {
        assert(line@.skip(k as int).drop_first() == line@.skip(k + 1));
        k += 1;
    }
    if k == 0 || k >= line.len() || line.len() - k <= 2 || line[k + 1] != SPACE {
        return None;
    }
    match parse_digits(line, k + 2) {
        None => None,
        Some(v) => {
            let name = copy_prefix(line, k);
            Some((name, v))
        },
    }
}

/// Parses a whole body into its metrics, in order, each tagged with
/// `namespace` and `timestamp`, and one error for each malformed line.
pub fn parse(body: &[u8], namespace: &String, timestamp: i64) -> (r: (Vec<Metric>, Vec<ParseError>))
    ensures
        metric_entries(r.0@) == parse_body(body@).0,
        error_lines(r.1@) == parse_body(body@).1,
        forall|i: int|
            0 <= i < r.0@.len() ==> (#[trigger] r.0@[i]).namespace@ == namespace@
                && r.0@[i].timestamp == timestamp,
{
    let mut buf = FrameBuffer::new();
    let mut lines = buf.push_chunk(body);
    lines.push(buf.pending);
    let ghost ls = body_lines(body@);
    assert(crate::framing::frames_view(lines@) == ls);
    let mut metrics: Vec<Metric> = Vec::new();
    let mut errors: Vec<ParseError> = Vec::new();
    let mut i: usize = 0;
    assert(ls.take(0) == Seq::<Seq<u8>>::empty());
    while i < lines.len()
        invariant
            0 <= i <= lines@.len(),
            ls == crate::framing::frames_view(lines@),
            metric_entries(metrics@) == parse_lines(ls.take(i as int)).0,
            error_lines(errors@) == parse_lines(ls.take(i as int)).1,
            forall|j: int|
                0 <= j < metrics@.len() ==> (#[trigger] metrics@[j]).namespace@ == namespace@
                    && metrics@[j].timestamp == timestamp,
        decreases lines@.len() - i,
    {
        assert(ls.take(i + 1).drop_last() == ls.take(i as int));
        assert(ls[i as int] == lines@[i as int]@);
        let line = lines[i].as_slice();
        if line.len() > 0 {
            match parse_line(line) {
                Some((name, value)) => {
                    let ghost before = metrics@;
                    metrics.push(Metric { name, value, namespace: namespace.clone(), timestamp });
                    assert(metric_entries(metrics@) == metric_entries(before).push(
                        (name@, value as nat),
                    ));
                },
                None => {
                    let ghost before = errors@;
                    let copy = copy_prefix(line, line.len());
                    assert(line@.take(line@.len() as int) == line@);
                    errors.push(ParseError { line: copy });
                    assert(error_lines(errors@) == error_lines(before).push(line@));
                },
            }
        }
        i += 1;
    }
    assert(ls.take(i as int) == ls);
    (metrics, errors)
}

} // verus!
