//! Parsing of the driver's data stream: throughput marker lines and
//! per-endpoint sojourn-latency lines.
//!
//! Lines are consumed one at a time as raw bytes. A throughput reading is
//! held to thousandths of an operation per second (a plain decimal value,
//! read to three fractional places; further places are ignored). Each
//! throughput counter is populated at most once, from the first marker line
//! that carries a well-formed value; marker lines for an already-populated
//! counter are ignored. Malformed sojourn lines are reported as warnings and
//! skipped, never fatal; a malformed value on a throughput marker line is an
//! iteration-level error.

use vstd::prelude::*;

use crate::text::{
    all_digits, begins_with, contains_bytes, contains_seq, dec_val, digit_byte, digit_val, field,
    field_start, has_field, parse_u64_range, parses_as_u64, range_eq, scan_token, scan_ws,
    starts_with, tok_end, ws_end, DOT, SPACE, ZERO,
};

verus! {

/// Marker prefix of the line carrying the offered load: `# target ops/s`.
pub open spec fn target_prefix() -> Seq<u8> {
    seq![35u8, 32u8, 116u8, 97u8, 114u8, 103u8, 101u8, 116u8, 32u8, 111u8, 112u8, 115u8, 47u8, 115u8]
}

/// Marker prefix of the line carrying the achieved load: `# generated ops/s`.
pub open spec fn actual_prefix() -> Seq<u8> {
    seq![
        35u8, 32u8, 103u8, 101u8, 110u8, 101u8, 114u8, 97u8, 116u8, 101u8, 100u8, 32u8, 111u8,
        112u8, 115u8, 47u8, 115u8,
    ]
}

/// The metric name `sojourn`.
pub open spec fn sojourn_kw() -> Seq<u8> {
    seq![115u8, 111u8, 106u8, 111u8, 117u8, 114u8, 110u8]
}

/// The other recognized metric name, `processing`; its lines are skipped.
pub open spec fn processing_kw() -> Seq<u8> {
    seq![112u8, 114u8, 111u8, 99u8, 101u8, 115u8, 115u8, 105u8, 110u8, 103u8]
}

/// The exempted endpoint `Login`.
pub open spec fn login_kw() -> Seq<u8> {
    seq![76u8, 111u8, 103u8, 105u8, 110u8]
}

/// The exempted endpoint `Logout`.
pub open spec fn logout_kw() -> Seq<u8> {
    seq![76u8, 111u8, 103u8, 111u8, 117u8, 116u8]
}

pub fn kw_target_prefix() -> (v: Vec<u8>)
    ensures
        v@ == target_prefix(),
{
    let v: Vec<u8> = vec![35u8, 32u8, 116u8, 97u8, 114u8, 103u8, 101u8, 116u8, 32u8, 111u8, 112u8, 115u8, 47u8, 115u8];
    proof {
        assert(v@ =~= target_prefix());
    }
    v
}

pub fn kw_actual_prefix() -> (v: Vec<u8>)
    ensures
        v@ == actual_prefix(),
{
    let v: Vec<u8> = vec![
        35u8, 32u8, 103u8, 101u8, 110u8, 101u8, 114u8, 97u8, 116u8, 101u8, 100u8, 32u8, 111u8,
        112u8, 115u8, 47u8, 115u8,
    ];
    proof {
        assert(v@ =~= actual_prefix());
    }
    v
}

pub fn kw_sojourn() -> (v: Vec<u8>)
    ensures
        v@ == sojourn_kw(),
{
    let v: Vec<u8> = vec![115u8, 111u8, 106u8, 111u8, 117u8, 114u8, 110u8];
    proof {
        assert(v@ =~= sojourn_kw());
    }
    v
}

pub fn kw_processing() -> (v: Vec<u8>)
    ensures
        v@ == processing_kw(),
{
    let v: Vec<u8> = vec![112u8, 114u8, 111u8, 99u8, 101u8, 115u8, 115u8, 105u8, 110u8, 103u8];
    proof {
        assert(v@ =~= processing_kw());
    }
    v
}

pub fn kw_login() -> (v: Vec<u8>)
    ensures
        v@ == login_kw(),
{
    let v: Vec<u8> = vec![76u8, 111u8, 103u8, 105u8, 110u8];
    proof {
        assert(v@ =~= login_kw());
    }
    v
}

pub fn kw_logout() -> (v: Vec<u8>)
    ensures
        v@ == logout_kw(),
{
    let v: Vec<u8> = vec![76u8, 111u8, 103u8, 111u8, 117u8, 116u8];
    proof {
        assert(v@ =~= logout_kw());
    }
    v
}

/// Start of the text that follows the last space byte of `s[..i]` (0 when no
/// space occurs there): the marker line's value field.
pub open spec fn suffix_start(s: Seq<u8>, i: int) -> int
    decreases i
        when 0 <= i <= s.len()
{
    if i <= 0 {
        0
    } else if s[i - 1] == SPACE {
        i
    } else {
        suffix_start(s, i - 1)
    }
}

/// The value field of a marker line: everything after its last space.
pub open spec fn value_part(l: Seq<u8>) -> Seq<u8> {
    l.subrange(suffix_start(l, l.len() as int), l.len() as int)
}

pub proof fn lemma_suffix_start_bounds(s: Seq<u8>, i: int)
    requires
        0 <= i <= s.len(),
    ensures
        0 <= suffix_start(s, i) <= i,
    decreases i,
{
    if i > 0 && s[i - 1] != SPACE {
        lemma_suffix_start_bounds(s, i - 1);
    }
}

/// Find the start of a marker line's value field.
pub fn find_value_part(s: &[u8]) -> (i: usize)
    ensures
        i == suffix_start(s@, s@.len() as int),
        i <= s@.len(),
{
    proof {
        lemma_suffix_start_bounds(s@, s@.len() as int);
    }
    let mut i = s.len();
    while i > 0 && s[i - 1] != SPACE
        invariant
            i <= s@.len(),
            suffix_start(s@, s@.len() as int) == suffix_start(s@, i as int),
        decreases i,
    {
        i = i - 1;
    }
    i
}

/// Position of the first dot at or after `i`, or the end.
pub open spec fn dot_pos(s: Seq<u8>, i: int) -> int
    decreases s.len() - i
        when 0 <= i <= s.len()
{
    if i >= s.len() {
        i
    } else if s[i] == DOT {
        i
    } else {
        dot_pos(s, i + 1)
    }
}

pub proof fn lemma_dot_pos_bounds(s: Seq<u8>, i: int)
    requires
        0 <= i <= s.len(),
    ensures
        i <= dot_pos(s, i) <= s.len(),
    decreases s.len() - i,
{
    if i < s.len() && s[i] != DOT {
        lemma_dot_pos_bounds(s, i + 1);
    }
}

/// Thousandths contributed by a fractional digit string, read to three
/// places.
pub open spec fn frac_milli(f: Seq<u8>) -> nat {
    if f.len() >= 3 {
        dec_val(f.subrange(0, 3))
    } else if f.len() == 2 {
        dec_val(f) * 10
    } else if f.len() == 1 {
        dec_val(f) * 100
    } else {
        0
    }
}

/// A throughput reading in thousandths of an operation per second: the value
/// of `s` as a non-negative decimal, or None when `s` is not one or the
/// scaled value does not fit in a u64.
pub open spec fn milli_val(s: Seq<u8>) -> Option<u64> {
    let d = dot_pos(s, 0);
    let ip = s.subrange(0, d);
    let fp = if d < s.len() {
        s.subrange(d + 1, s.len() as int)
    } else {
        Seq::<u8>::empty()
    };
    if ip.len() == 0 || !all_digits(ip) || !all_digits(fp) {
        None
    } else if dec_val(ip) * 1000 + frac_milli(fp) > u64::MAX {
        None
    } else {
        Some((dec_val(ip) * 1000 + frac_milli(fp)) as u64)
    }
}

/// Parse the bytes from `i` (inclusive) to `j` (exclusive) as a decimal
/// value in thousandths.
#[verifier::loop_isolation(false)]
pub fn parse_milli_range(s: &[u8], i: usize, j: usize) -> (r: Option<u64>)
    requires
        i <= j <= s@.len(),
    ensures
        r == milli_val(s@.subrange(i as int, j as int)),
{
    let ghost t = s@.subrange(i as int, j as int);
    proof {
        lemma_dot_pos_bounds(t, 0);
    }
    // find the first dot
    let mut d = i;
    while d < j && s[d] != DOT
        invariant
            i <= d <= j <= s@.len(),
            t == s@.subrange(i as int, j as int),
            dot_pos(t, 0) == dot_pos(t, d - i),
        decreases j - d,
    {
        proof {
            assert(t[d - i] == s@[d as int]);
        }
        d = d + 1;
    }
    proof {
        if d < j {
            assert(t[d - i] == s@[d as int]);
        }
        assert(dot_pos(t, 0) == d - i);
        assert(t.subrange(0, d - i) =~= s@.subrange(i as int, d as int));
    }
    let iv = match parse_u64_range(s, i, d) {
        Some(v) => v,
        None => {
            proof {
                let ip = t.subrange(0, d - i);
                if ip.len() > 0 && all_digits(ip) {
                    assert(dec_val(ip) > u64::MAX);
                    assert(dec_val(ip) * 1000 >= dec_val(ip));
                }
            }
            return None;
        },
    };
    // fractional part: all bytes after the dot must be digits
    let fstart = if d < j {
        d + 1
    } else {
        d
    };
    let mut k = fstart;
    while k < j
        invariant
            i <= d <= j <= s@.len(),
            fstart == (if d < j {
                d + 1
            } else {
                d as int
            }),
            fstart <= k <= j,
            t == s@.subrange(i as int, j as int),
            forall|m: int| fstart <= m < k ==> is_digit_at(s@, m),
        decreases j - k,
    {
        if !digit_byte(s[k]) {
            proof {
                assert(d < j);
                let fp0 = t.subrange(d - i + 1, (j - i) as int);
                assert(fp0[k - fstart] == t[k - i]);
                assert(t[k - i] == s@[k as int]);
                assert(!all_digits(fp0));
            }
            return None;
        }
        k = k + 1;
    }
    let ghost fp = if d < j {
        t.subrange(d - i + 1, (j - i) as int)
    } else {
        Seq::<u8>::empty()
    };
    proof {
        if d < j {
            assert forall|m: int| 0 <= m < fp.len() implies crate::text::is_digit(fp[m]) by {
                assert(fp[m] == t[m + (d - i + 1)]);
                assert(t[m + (d - i + 1)] == s@[i + m + (d - i + 1)]);
                assert(is_digit_at(s@, d + 1 + m));
            }
        }
        assert(all_digits(fp));
    }
    // thousandths from up to three fractional digits
    let flen = j - fstart;
    proof {
        if flen >= 1 {
            assert(is_digit_at(s@, fstart as int));
        }
        if flen >= 2 {
            assert(is_digit_at(s@, fstart + 1));
        }
        if flen >= 3 {
            assert(is_digit_at(s@, fstart + 2));
        }
    }
    let fm: u64 = if flen == 0 {
        0
    } else if flen == 1 {
        ((s[fstart] - ZERO) as u64) * 100
    } else if flen == 2 {
        ((s[fstart] - ZERO) as u64) * 100 + ((s[fstart + 1] - ZERO) as u64) * 10
    } else {
        ((s[fstart] - ZERO) as u64) * 100 + ((s[fstart + 1] - ZERO) as u64) * 10 + ((s[fstart + 2]
            - ZERO) as u64)
    };
    proof {
        assert(dec_val(Seq::<u8>::empty()) == 0);
        if flen == 1 {
            assert(fp.drop_last() =~= Seq::<u8>::empty());
            assert(fp.last() == s@[fstart as int]);
            assert(dec_val(fp) == digit_val(s@[fstart as int]));
        } else if flen == 2 {
            assert(fp.subrange(0, 1).drop_last() =~= Seq::<u8>::empty());
            assert(fp.subrange(0, 1).last() == s@[fstart as int]);
            assert(dec_val(fp.subrange(0, 1)) == digit_val(s@[fstart as int]));
            assert(fp.drop_last() =~= fp.subrange(0, 1));
            assert(fp.last() == s@[fstart + 1]);
            assert(dec_val(fp) == digit_val(s@[fstart as int]) * 10 + digit_val(s@[fstart + 1]));
        } else if flen >= 3 {
            let f3 = fp.subrange(0, 3);
            assert(fp.subrange(0, 1).drop_last() =~= Seq::<u8>::empty());
            assert(fp.subrange(0, 1).last() == s@[fstart as int]);
            assert(dec_val(fp.subrange(0, 1)) == digit_val(s@[fstart as int]));
            assert(fp.subrange(0, 2).drop_last() =~= fp.subrange(0, 1));
            assert(fp.subrange(0, 2).last() == s@[fstart + 1]);
            assert(dec_val(fp.subrange(0, 2)) == digit_val(s@[fstart as int]) * 10 + digit_val(
                s@[fstart + 1],
            ));
            assert(f3.drop_last() =~= fp.subrange(0, 2));
            assert(f3.last() == s@[fstart + 2]);
            assert(dec_val(f3) == dec_val(fp.subrange(0, 2)) * 10 + digit_val(s@[fstart + 2]));
        }
        assert(fm == frac_milli(fp));
        assert(fm <= 999);
    }
    // scale the integer part, guarding the multiplication
    let lim = (u64::MAX - fm) / 1000;
    proof {
        vstd::arithmetic::div_mod::lemma_fundamental_div_mod((u64::MAX - fm) as int, 1000);
        vstd::arithmetic::div_mod::lemma_mod_bound((u64::MAX - fm) as int, 1000);
    }
    if iv > lim {
        proof {
            assert(iv * 1000 + fm > u64::MAX);
        }
        None
    } else {
        proof {
            assert(iv * 1000 + fm <= u64::MAX);
        }
        Some(iv * 1000 + fm)
    }
}

/// The byte at `m` is a digit (helper for quantified invariants).
pub open spec fn is_digit_at(s: Seq<u8>, m: int) -> bool {
    0 <= m < s.len() && crate::text::is_digit(s[m])
}

/// Latency percentile labels recognized on sojourn lines.
#[derive(Clone, Copy, PartialEq, Eq, Structural, Debug)]
pub enum Percentile {
    P50,
    P95,
    P99,
    P100,
}

/// Which percentile a field names, if any.
pub open spec fn pct_of(t: Seq<u8>) -> Option<Percentile> {
    if t == seq![53u8, 48u8] {
        Some(Percentile::P50)
    } else if t == seq![57u8, 53u8] {
        Some(Percentile::P95)
    } else if t == seq![57u8, 57u8] {
        Some(Percentile::P99)
    } else if t == seq![49u8, 48u8, 48u8] {
        Some(Percentile::P100)
    } else {
        None
    }
}

/// One parsed sojourn-latency sample.
#[derive(Clone, Debug)]
pub struct LatencySample {
    pub endpoint: Vec<u8>,
    pub percentile: Percentile,
    pub sojourn_ms: u64,
}

/// Mathematical image of a latency sample.
pub struct LatencyView {
    pub endpoint: Seq<u8>,
    pub percentile: Percentile,
    pub sojourn_ms: u64,
}

impl View for LatencySample {
    type V = LatencyView;

    open spec fn view(&self) -> LatencyView {
        LatencyView { endpoint: self.endpoint@, percentile: self.percentile, sojourn_ms: self.sojourn_ms }
    }
}

/// How a line relates to the sojourn grammar.
pub enum SojournClass {
    /// The line does not mention the sojourn metric at all.
    NotSojourn,
    /// A sojourn line for an exempted endpoint; discarded.
    Exempt,
    /// A line of the other recognized metric; silently skipped.
    OtherMetric,
    /// A sojourn line that is malformed in some field; warned about and skipped.
    Malformed,
    /// A well-formed sample.
    Sample(LatencyView),
}

/// Classify a line against the sojourn grammar: split on whitespace; the
/// first field is the endpoint (exempted endpoints are discarded), the
/// second must be the metric name, the third a recognized percentile label,
/// the fourth a non-negative integer millisecond value.
pub open spec fn sojourn_class(l: Seq<u8>) -> SojournClass {
    if !contains_seq(l, sojourn_kw()) {
        SojournClass::NotSojourn
    } else if !has_field(l, 0) {
        SojournClass::Malformed
    } else if field(l, 0) == login_kw() || field(l, 0) == logout_kw() {
        SojournClass::Exempt
    } else if !has_field(l, 1) {
        SojournClass::Malformed
    } else if field(l, 1) == processing_kw() {
        SojournClass::OtherMetric
    } else if field(l, 1) != sojourn_kw() {
        SojournClass::Malformed
    } else if !has_field(l, 2) {
        SojournClass::Malformed
    } else {
        match pct_of(field(l, 2)) {
            None => SojournClass::Malformed,
            Some(p) => {
                if !has_field(l, 3) {
                    SojournClass::Malformed
                } else if !parses_as_u64(field(l, 3)) {
                    SojournClass::Malformed
                } else {
                    SojournClass::Sample(
                        LatencyView {
                            endpoint: field(l, 0),
                            percentile: p,
                            sojourn_ms: dec_val(field(l, 3)) as u64,
                        },
                    )
                }
            },
        }
    }
}

/// What consuming one line tells the caller.
pub enum LineEvent {
    /// Nothing to act on.
    Quiet,
    /// A malformed sojourn line was skipped; worth a warning.
    Warned,
    /// A well-formed latency sample.
    Latency(LatencySample),
    /// A throughput marker line whose value field did not parse; an
    /// iteration-level error.
    BadThroughput,
}

/// Mathematical image of a line event.
pub enum LineEventView {
    Quiet,
    Warned,
    Latency(LatencyView),
    BadThroughput,
}

impl View for LineEvent {
    type V = LineEventView;

    open spec fn view(&self) -> LineEventView {
        match self {
            LineEvent::Quiet => LineEventView::Quiet,
            LineEvent::Warned => LineEventView::Warned,
            LineEvent::Latency(s) => LineEventView::Latency(s@),
            LineEvent::BadThroughput => LineEventView::BadThroughput,
        }
    }
}

/// Accumulates the two throughput counters of one measure phase.
#[derive(Clone, Copy, Debug)]
pub struct MetricParser {
    pub target_milli: Option<u64>,
    pub actual_milli: Option<u64>,
}

impl MetricParser {
    /// Both throughput counters have been observed.
    pub open spec fn complete(self) -> bool {
        self.target_milli is Some && self.actual_milli is Some
    }

    pub open spec fn initial() -> MetricParser {
        MetricParser { target_milli: None, actual_milli: None }
    }

    /// How one line changes the throughput counters. The second component
    /// reports a malformed value field on a marker line whose counter was
    /// still open.
    pub open spec fn spec_throughput_step(self, l: Seq<u8>) -> (MetricParser, bool) {
        if self.complete() {
            (self, false)
        } else if starts_with(l, target_prefix()) {
            if self.target_milli is Some {
                (self, false)
            } else {
                match milli_val(value_part(l)) {
                    Some(v) => (MetricParser { target_milli: Some(v), ..self }, false),
                    None => (self, true),
                }
            }
        } else if starts_with(l, actual_prefix()) {
            if self.actual_milli is Some {
                (self, false)
            } else {
                match milli_val(value_part(l)) {
                    Some(v) => (MetricParser { actual_milli: Some(v), ..self }, false),
                    None => (self, true),
                }
            }
        } else {
            (self, false)
        }
    }

    /// Everything one line yields: the new counter state and the event
    /// handed to the caller.
    pub open spec fn spec_line_event(self, l: Seq<u8>) -> LineEventView {
        let (_, bad) = self.spec_throughput_step(l);
        if bad {
            LineEventView::BadThroughput
        } else {
            match sojourn_class(l) {
                SojournClass::NotSojourn => LineEventView::Quiet,
                SojournClass::Exempt => LineEventView::Quiet,
                SojournClass::OtherMetric => LineEventView::Quiet,
                SojournClass::Malformed => LineEventView::Warned,
                SojournClass::Sample(v) => LineEventView::Latency(v),
            }
        }
    }

    pub fn new() -> (p: MetricParser)
        ensures
            p == MetricParser::initial(),
    {
        MetricParser { target_milli: None, actual_milli: None }
    }

    pub fn is_complete(&self) -> (r: bool)
        ensures
            r == self.complete(),
    {
        self.target_milli.is_some() && self.actual_milli.is_some()
    }

    /// Consume one data-stream line: update the throughput counters and
    /// classify the line against the sojourn grammar.
    pub fn consume_line(&mut self, line: &[u8]) -> (ev: LineEvent)
        ensures
            *final(self) == old(self).spec_throughput_step(line@).0,
            ev@ == old(self).spec_line_event(line@),
    {
        let ghost l = line@;
        // throughput marker handling
        if !(self.target_milli.is_some() && self.actual_milli.is_some()) {
            let tp = kw_target_prefix();
            let ap = kw_actual_prefix();
            if begins_with(line, tp.as_slice()) {
                if self.target_milli.is_none() {
                    let vs = find_value_part(line);
                    match parse_milli_range(line, vs, line.len()) {
                        Some(v) => {
                            self.target_milli = Some(v);
                        },
                        None => {
                            return LineEvent::BadThroughput;
                        },
                    }
                }
            } else if begins_with(line, ap.as_slice()) {
                if self.actual_milli.is_none() {
                    let vs = find_value_part(line);
                    match parse_milli_range(line, vs, line.len()) {
                        Some(v) => {
                            self.actual_milli = Some(v);
                        },
                        None => {
                            return LineEvent::BadThroughput;
                        },
                    }
                }
            }
        }
        // sojourn grammar
        let sk = kw_sojourn();
        if !contains_bytes(line, sk.as_slice()) {
            return LineEvent::Quiet;
        }
        let start0 = scan_ws(line, 0);
        if start0 == line.len() {
            return LineEvent::Warned;
        }
        let end0 = scan_token(line, start0);
        proof {
            assert(start0 as int == field_start(l, 0));
            assert(l.subrange(start0 as int, end0 as int) == field(l, 0));
        }
        let login = kw_login();
        let logout = kw_logout();
        if range_eq(line, start0, end0, login.as_slice()) || range_eq(
            line,
            start0,
            end0,
            logout.as_slice(),
        ) {
            return LineEvent::Quiet;
        }
        let start1 = scan_ws(line, end0);
        proof {
            assert(start1 as int == field_start(l, 1));
        }
        if start1 == line.len() {
            return LineEvent::Warned;
        }
        let end1 = scan_token(line, start1);
        proof {
            assert(l.subrange(start1 as int, end1 as int) == field(l, 1));
        }
        let processing = kw_processing();
        if range_eq(line, start1, end1, processing.as_slice()) {
            return LineEvent::Quiet;
        }
        if !range_eq(line, start1, end1, sk.as_slice()) {
            return LineEvent::Warned;
        }
        let start2 = scan_ws(line, end1);
        proof {
            assert(start2 as int == field_start(l, 2));
        }
        if start2 == line.len() {
            return LineEvent::Warned;
        }
        let end2 = scan_token(line, start2);
        proof {
            assert(l.subrange(start2 as int, end2 as int) == field(l, 2));
        }
        let p50: Vec<u8> = vec![53u8, 48u8];
        let p95: Vec<u8> = vec![57u8, 53u8];
        let p99: Vec<u8> = vec![57u8, 57u8];
        let p100: Vec<u8> = vec![49u8, 48u8, 48u8];
        proof {
            assert(p50@ =~= seq![53u8, 48u8]);
            assert(p95@ =~= seq![57u8, 53u8]);
            assert(p99@ =~= seq![57u8, 57u8]);
            assert(p100@ =~= seq![49u8, 48u8, 48u8]);
        }
        let pct: Percentile = if range_eq(line, start2, end2, p50.as_slice()) {
            Percentile::P50
        } else if range_eq(line, start2, end2, p95.as_slice()) {
            Percentile::P95
        } else if range_eq(line, start2, end2, p99.as_slice()) {
            Percentile::P99
        } else if range_eq(line, start2, end2, p100.as_slice()) {
            Percentile::P100
        } else {
            return LineEvent::Warned;
        };
        proof {
            assert(pct_of(field(l, 2)) == Some(pct));
        }
        let start3 = scan_ws(line, end2);
        proof {
            assert(start3 as int == field_start(l, 3));
        }
        if start3 == line.len() {
            return LineEvent::Warned;
        }
        let end3 = scan_token(line, start3);
        proof {
            assert(l.subrange(start3 as int, end3 as int) == field(l, 3));
        }
        let ms = match parse_u64_range(line, start3, end3) {
            Some(v) => v,
            None => {
                return LineEvent::Warned;
            },
        };
        let endpoint = copy_range(line, start0, end0);
        LineEvent::Latency(LatencySample { endpoint, percentile: pct, sojourn_ms: ms })
    }
}

/// Law: a line that is no throughput marker can never raise an error from
/// the parser: the counters are untouched and the event is at worst a
/// warning, whatever shape the line has. Parsing always continues with the
/// next line.
pub proof fn lemma_malformed_sojourn_is_skipped(p: MetricParser, l: Seq<u8>)
    requires
        !starts_with(l, target_prefix()),
        !starts_with(l, actual_prefix()),
    ensures
        p.spec_throughput_step(l).0 == p,
        !p.spec_throughput_step(l).1,
        p.spec_line_event(l) != LineEventView::BadThroughput,
{
}

/// Copy the bytes from `i` (inclusive) to `j` (exclusive) out of `s`.
pub fn copy_range(s: &[u8], i: usize, j: usize) -> (v: Vec<u8>)
    requires
        i <= j <= s@.len(),
    ensures
        v@ == s@.subrange(i as int, j as int),
{
    let mut v: Vec<u8> = Vec::new();
    let mut k = i;
    while k < j
        invariant
            i <= k <= j <= s@.len(),
            v@ =~= s@.subrange(i as int, k as int),
        decreases j - k,
    {
        v.push(s[k]);
        proof {
            assert(v@ =~= s@.subrange(i as int, k + 1));
        }
        k = k + 1;
    }
    proof {
        assert(v@ =~= s@.subrange(i as int, j as int));
    }
    v
}

} // verus!
