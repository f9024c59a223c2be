//! Interpretation of the encoder's line-oriented diagnostic stream.
//!
//! A line of interest carries a `frame=` marker followed by the current
//! frame number, and a second `frame=` marker followed by the total frame
//! count. Each such line yields one estimated-time-remaining value; lines
//! that do not fit this shape are skipped silently, tolerating diagnostic
//! noise from the external tool. The host reads the stream and hands each
//! line here together with the elapsed wall-clock time.

use vstd::prelude::*;

verus! {

/// The frame marker of a diagnostic line: the bytes of `frame=`.
pub open spec fn marker() -> Seq<u8> {
    seq![102u8, 114u8, 97u8, 109u8, 101u8, 61u8]
}

/// Whether the marker stands at position `i` of `s`.
pub open spec fn marker_at(s: Seq<u8>, i: int) -> bool {
    0 <= i && i + 6 <= s.len() && s.subrange(i, i + 6) == marker()
}

/// The first position at or after `from` where the marker stands, if any.
pub open spec fn first_marker_from(s: Seq<u8>, from: int) -> Option<int>
    recommends
        0 <= from <= s.len(),
    decreases s.len() - from when 0 <= from <= s.len()
{
    if from + 6 > s.len() {
        None
    } else if marker_at(s, from) {
        Some(from)
    } else {
        first_marker_from(s, from + 1)
    }
}

/// Whether the marker's six bytes stand at position `i`.
fn is_marker_at(s: &[u8], i: usize) -> (r: bool)
    requires
        i + 6 <= s@.len(),
    ensures
        r == marker_at(s@, i as int),
{
    let r = s[i] == 102 && s[i + 1] == 114 && s[i + 2] == 97 && s[i + 3] == 109 && s[i + 4] == 101
        && s[i + 5] == 61;
    proof {
        if r {
            assert(s@.subrange(i as int, i as int + 6) =~= marker());
        } else if marker_at(s@, i as int) {
            assert(forall|k: int|
                0 <= k < 6 ==> s@.subrange(i as int, i as int + 6)[k] == marker()[k]);
            assert(s@[i as int] == 102);
            assert(s@[i as int + 1] == 114);
            assert(s@[i as int + 2] == 97);
            assert(s@[i as int + 3] == 109);
            assert(s@[i as int + 4] == 101);
            assert(s@[i as int + 5] == 61);
        }
    }
    r
}

/// Finds the first marker at or after `from`, as `first_marker_from` states.
fn find_marker(s: &[u8], from: usize) -> (r: Option<usize>)
    requires
        from <= s@.len(),
    ensures
        match r {
            Some(i) => {
                &&& first_marker_from(s@, from as int) == Some(i as int)
                &&& from <= i
                &&& i + 6 <= s@.len()
            },
            None => first_marker_from(s@, from as int) is None,
        },
{
    let n = s.len();
    if n < 6 {
        return None;
    }
    let mut i = from;
    while i <= n - 6
        invariant
            from <= i <= n,
            n == s@.len(),
            6 <= n,
            first_marker_from(s@, from as int) == first_marker_from(s@, i as int),
        decreases n - i,
    {
        if is_marker_at(s, i) {
            return Some(i);
        }
        i = i + 1;
    }
    None
}

/// The first position at or after `from` that does not hold a space.
pub open spec fn skip_spaces(s: Seq<u8>, from: int) -> int
    recommends
        0 <= from <= s.len(),
    decreases s.len() - from when 0 <= from <= s.len()
{
    if from >= s.len() {
        from
    } else if s[from] == 32 {
        skip_spaces(s, from + 1)
    } else {
        from
    }
}

/// Whether a byte is a decimal digit.
pub open spec fn is_digit(b: u8) -> bool {
    48 <= b <= 57
}

/// The end of the run of digits that starts at `from`.
pub open spec fn digits_end(s: Seq<u8>, from: int) -> int
    recommends
        0 <= from <= s.len(),
    decreases s.len() - from when 0 <= from <= s.len()
{
    if from >= s.len() {
        from
    } else if is_digit(s[from]) {
        digits_end(s, from + 1)
    } else {
        from
    }
}

/// The value of the digit run `s[from..to)`, most significant digit first.
pub open spec fn digits_value(s: Seq<u8>, from: int, to: int) -> nat
    recommends
        0 <= from <= to <= s.len(),
    decreases to - from when from <= to
{
    if to <= from {
        0
    } else {
        digits_value(s, from, to - 1) * 10 + (s[to - 1] - 48) as nat
    }
}

/// The number that follows position `from`: optional spaces, then at least
/// one digit. A run whose value does not fit the parser's 64-bit range
/// counts as no number at all.
pub open spec fn token_number(s: Seq<u8>, from: int) -> Option<nat>
    recommends
        0 <= from <= s.len(),
{
    let p = skip_spaces(s, from);
    let q = digits_end(s, p);
    if q > p && digits_value(s, p, q) < 0x1_0000_0000_0000_0000 {
        Some(digits_value(s, p, q))
    } else {
        None
    }
}

/// Skips spaces, as `skip_spaces` states.
fn skip_spaces_exec(s: &[u8], from: usize) -> (r: usize)
    requires
        from <= s@.len(),
    ensures
        r as int == skip_spaces(s@, from as int),
        from <= r <= s@.len(),
{
    let n = s.len();
    let mut i = from;
    while i < n && s[i] == 32
        invariant
            from <= i <= n,
            n == s@.len(),
            skip_spaces(s@, from as int) == skip_spaces(s@, i as int),
        decreases n - i,
    {
        i = i + 1;
    }
    i
}

/// Parses the number that follows position `from`, as `token_number`
/// states: `None` exactly when no digit follows the spaces or the value
/// does not fit 64 bits.
fn parse_number(s: &[u8], from: usize) -> (r: Option<u64>)
    requires
        from <= s@.len(),
    ensures
        match r {
            Some(v) => token_number(s@, from as int) == Some(v as nat),
            None => token_number(s@, from as int) is None,
        },
{
    let p = skip_spaces_exec(s, from);
    let n = s.len();
    let mut i = p;
    let mut val: u64 = 0;
    let mut overflowed = false;
    while i < n && 48 <= s[i] && s[i] <= 57
        invariant
            p <= i <= n,
            n == s@.len(),
            digits_end(s@, p as int) == digits_end(s@, i as int),
            !overflowed ==> val as nat == digits_value(s@, p as int, i as int),
            overflowed ==> digits_value(s@, p as int, i as int) >= 0x1_0000_0000_0000_0000,
        decreases n - i,
    {
        let d: u64 = (s[i] - 48) as u64;
        proof {
            vstd::arithmetic::div_mod::lemma_fundamental_div_mod(
                (0xffff_ffff_ffff_ffffu64 - d) as int,
                10,
            );
        }
        if overflowed {
            proof {
                assert(digits_value(s@, p as int, i as int) * 10 >= digits_value(
                    s@,
                    p as int,
                    i as int,
                )) by (nonlinear_arith)
                    requires
                        digits_value(s@, p as int, i as int) >= 0,
                ;
            }
        } else if val > (0xffff_ffff_ffff_ffffu64 - d) / 10 {
            overflowed = true;
        } else {
            val = val * 10 + d;
        }
        i = i + 1;
    }
    if i == p {
        return None;
    }
    if overflowed {
        return None;
    }
    Some(val)
}

/// The two frame counters a recognizable diagnostic line carries.
#[derive(Clone, Copy, PartialEq, Eq, Structural, Debug)]
pub struct ProgressFrames {
    pub current: u64,
    pub total: u64,
}

/// What a diagnostic line yields: the number after the first marker is the
/// current frame, the number after the next marker is the total frame
/// count. A line without two markers, or whose numbers do not parse, yields
/// nothing.
pub open spec fn spec_progress(s: Seq<u8>) -> Option<(nat, nat)> {
    match first_marker_from(s, 0) {
        None => None,
        Some(m1) => match token_number(s, m1 + 6) {
            None => None,
            Some(cur) => match first_marker_from(s, m1 + 6) {
                None => None,
                Some(m2) => match token_number(s, m2 + 6) {
                    None => None,
                    Some(tot) => Some((cur, tot)),
                },
            },
        },
    }
}

/// Extracts the current and total frame counters from a diagnostic line, as
/// `spec_progress` states.
pub fn parse_progress_line(line: &[u8]) -> (r: Option<ProgressFrames>)
    ensures
        match r {
            Some(pf) => spec_progress(line@) == Some((pf.current as nat, pf.total as nat)),
            None => spec_progress(line@) is None,
        },
{
    let _len = line.len();
    let m1 = match find_marker(line, 0) {
        Some(m1) => m1,
        None => {
            return None;
        },
    };
    let current = match parse_number(line, m1 + 6) {
        Some(v) => v,
        None => {
            return None;
        },
    };
    let m2 = match find_marker(line, m1 + 6) {
        Some(m2) => m2,
        None => {
            return None;
        },
    };
    let total = match parse_number(line, m2 + 6) {
        Some(v) => v,
        None => {
            return None;
        },
    };
    Some(ProgressFrames { current, total })
}

/// The estimated remaining time, in milliseconds: the elapsed time per
/// frame done, times the frames left. Defined only for a positive current
/// frame that does not exceed the total: a zero current frame would divide
/// by zero, and a total below the current frame is treated as a malformed
/// sample, like an unparsable line.
pub open spec fn spec_eta_millis(elapsed_ms: nat, current: nat, total: nat) -> Option<nat> {
    if 1 <= current <= total {
        Some((((elapsed_ms as int) * (total - current)) / (current as int)) as nat)
    } else {
        None
    }
}

/// Computes the estimated remaining time, as `spec_eta_millis` states.
pub fn eta_millis(elapsed_ms: u64, current: u64, total: u64) -> (r: Option<u128>)
    ensures
        match r {
            Some(e) => spec_eta_millis(elapsed_ms as nat, current as nat, total as nat) == Some(
                e as nat,
            ),
            None => spec_eta_millis(elapsed_ms as nat, current as nat, total as nat) is None,
        },
{
    if 1 <= current && current <= total {
        let remaining: u128 = (total - current) as u128;
        proof {
            assert((elapsed_ms as int) * (remaining as int) <= 0xffff_ffff_ffff_ffff
                * 0xffff_ffff_ffff_ffff) by (nonlinear_arith)
                requires
                    0 <= elapsed_ms <= 0xffff_ffff_ffff_ffffu64,
                    0 <= remaining <= 0xffff_ffff_ffff_ffffu64,
            ;
        }
        Some(((elapsed_ms as u128) * remaining) / (current as u128))
    } else {
        None
    }
}

/// What one diagnostic line contributes, given the elapsed time at its
/// arrival: the ETA of its frame counters, or nothing for a line that is
/// not a well-formed progress line.
pub open spec fn spec_line_eta(s: Seq<u8>, elapsed_ms: nat) -> Option<nat> {
    match spec_progress(s) {
        None => None,
        Some(ct) => spec_eta_millis(elapsed_ms, ct.0, ct.1),
    }
}

/// The per-line decision of the progress monitor: parse the line and
/// compute its ETA, or skip it, as `spec_line_eta` states.
pub fn process_line(line: &[u8], elapsed_ms: u64) -> (r: Option<u128>)
    ensures
        match r {
            Some(e) => spec_line_eta(line@, elapsed_ms as nat) == Some(e as nat),
            None => spec_line_eta(line@, elapsed_ms as nat) is None,
        },
{
    match parse_progress_line(line) {
        Some(pf) => eta_millis(elapsed_ms, pf.current, pf.total),
        None => None,
    }
}

/// One diagnostic line together with the elapsed wall-clock time at its
/// arrival.
pub struct ProgressLine {
    pub line: Vec<u8>,
    pub elapsed_ms: u64,
}

/// The ETA values a sequence of diagnostic lines produces, in arrival
/// order: each recognizable line contributes its ETA exactly once, in the
/// order the lines were produced; unrecognized lines contribute nothing.
pub open spec fn spec_emitted(samples: Seq<ProgressLine>) -> Seq<nat>
    decreases samples.len(),
{
    if samples.len() == 0 {
        Seq::empty()
    } else {
        spec_emitted(samples.drop_last()) + (match spec_line_eta(
            samples.last().line@,
            samples.last().elapsed_ms as nat,
        ) {
            Some(e) => seq![e],
            None => Seq::empty(),
        })
    }
}

/// Processes a sequence of diagnostic lines and returns the emitted ETA
/// values: one per recognizable line, in the order the lines arrived, with
/// no reordering and nothing emitted for skipped lines.
pub fn emitted_etas(samples: &Vec<ProgressLine>) -> (r: Vec<u128>)
    ensures
        r@.map_values(|e: u128| e as nat) == spec_emitted(samples@),
{
    let n = samples.len();
    let mut out: Vec<u128> = Vec::new();
    let mut i: usize = 0;
    proof {
        assert(samples@.take(0) =~= Seq::<ProgressLine>::empty());
        assert(out@.map_values(|e: u128| e as nat) =~= spec_emitted(samples@.take(0)));
    }
    while i < n
        invariant
            0 <= i <= n,
            n == samples@.len(),
            out@.map_values(|e: u128| e as nat) == spec_emitted(samples@.take(i as int)),
        decreases n - i,
    {
        let sm = &samples[i];
        match process_line(sm.line.as_slice(), sm.elapsed_ms) {
            Some(e) => out.push(e),
            None => {},
        }
        proof {
            assert(samples@.take(i as int + 1).drop_last() =~= samples@.take(i as int));
            assert(samples@.take(i as int + 1).last() == samples@[i as int]);
            assert(out@.map_values(|e: u128| e as nat) =~= spec_emitted(
                samples@.take(i as int + 1),
            ));
        }
        i = i + 1;
    }
    proof {
        assert(samples@.take(n as int) =~= samples@);
    }
    out
}

} // verus!
