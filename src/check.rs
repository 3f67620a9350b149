use vstd::prelude::*;
use vstd::string::*;

use crate::error::{invalid_args_with, Error};
use crate::stats::FipsReport;
use crate::text::{decimal, push_decimal};

verus! {

/// An entropy source that the check mode can exercise.
#[derive(Debug, Clone, Copy, PartialEq, Eq, Structural)]
pub enum SourceKind {
    Hwrng,
    Rdseed,
    Rdrand,
    Xstore,
    Haveged,
    Urandom,
    Fallback,
}

/// Short name of a source, as used for filtering.
pub open spec fn name_of(k: SourceKind) -> Seq<char> {
    match k {
        SourceKind::Hwrng => "hwrng"@,
        SourceKind::Rdseed => "rdseed"@,
        SourceKind::Rdrand => "rdrand"@,
        SourceKind::Xstore => "xstore"@,
        SourceKind::Haveged => "haveged"@,
        SourceKind::Urandom => "urandom"@,
        SourceKind::Fallback => "fallback"@,
    }
}

impl SourceKind {
    /// The source's short name.
    pub fn name(&self) -> (r: &'static str)
        ensures
            r@ == name_of(*self),
    {
        match self {
            SourceKind::Hwrng => "hwrng",
            SourceKind::Rdseed => "rdseed",
            SourceKind::Rdrand => "rdrand",
            SourceKind::Xstore => "xstore",
            SourceKind::Haveged => "haveged",
            SourceKind::Urandom => "urandom",
            SourceKind::Fallback => "fallback",
        }
    }

    /// A human description of the source.
    pub fn description(&self) -> (r: &'static str)
        ensures
            r@ == match *self {
                SourceKind::Hwrng => "Hardware RNG (/dev/hwrng)"@,
                SourceKind::Rdseed => "CPU RDSEED instruction"@,
                SourceKind::Rdrand => "CPU RDRAND instruction"@,
                SourceKind::Xstore => "VIA PadLock XSTORE instruction"@,
                SourceKind::Haveged => "haveged (/dev/random)"@,
                SourceKind::Urandom => "/dev/urandom"@,
                SourceKind::Fallback => "Fallback (urandom + procfs + jitter + cpu-rng)"@,
            },
    {
        match self {
            SourceKind::Hwrng => "Hardware RNG (/dev/hwrng)",
            SourceKind::Rdseed => "CPU RDSEED instruction",
            SourceKind::Rdrand => "CPU RDRAND instruction",
            SourceKind::Xstore => "VIA PadLock XSTORE instruction",
            SourceKind::Haveged => "haveged (/dev/random)",
            SourceKind::Urandom => "/dev/urandom",
            SourceKind::Fallback => "Fallback (urandom + procfs + jitter + cpu-rng)",
        }
    }
}

/// Every source, in probing order.
pub fn candidate_sources() -> (r: Vec<SourceKind>)
    ensures
        r@ == seq![
            SourceKind::Hwrng,
            SourceKind::Rdseed,
            SourceKind::Rdrand,
            SourceKind::Xstore,
            SourceKind::Haveged,
            SourceKind::Urandom,
            SourceKind::Fallback,
        ],
{
    let r = vec![
        SourceKind::Hwrng,
        SourceKind::Rdseed,
        SourceKind::Rdrand,
        SourceKind::Xstore,
        SourceKind::Haveged,
        SourceKind::Urandom,
        SourceKind::Fallback,
    ];
    assert(r@ =~= seq![
        SourceKind::Hwrng,
        SourceKind::Rdseed,
        SourceKind::Rdrand,
        SourceKind::Xstore,
        SourceKind::Haveged,
        SourceKind::Urandom,
        SourceKind::Fallback,
    ]);
    r
}

/// `c` with ASCII upper-case letters folded to lower case, as a code point.
pub open spec fn folded(c: char) -> int {
    if 'A' <= c <= 'Z' {
        (c as int) + 32
    } else {
        c as int
    }
}

/// The two texts are equal when ASCII letters are compared without case.
pub open spec fn eq_ignore_ascii_case(a: Seq<char>, b: Seq<char>) -> bool {
    a.len() == b.len() && forall|i: int| 0 <= i < a.len() ==> folded(#[trigger] a[i]) == folded(b[i])
}

fn fold_char(c: char) -> (r: u32)
    ensures
        r == folded(c),
{
    if 'A' <= c && c <= 'Z' {
        (c as u32) + 32
    } else {
        c as u32
    }
}

/// Case-insensitive comparison of ASCII letters; other characters must match exactly.
pub fn same_ignoring_ascii_case(a: &str, b: &str) -> (r: bool)
    ensures
        r == eq_ignore_ascii_case(a@, b@),
{
    let n = a.unicode_len();
    if n != b.unicode_len() {
        return false;
    }
    let mut i: usize = 0;
    while i < n
        invariant
            n == a@.len(),
            n == b@.len(),
            i <= n,
            forall|j: int| 0 <= j < i ==> folded(#[trigger] a@[j]) == folded(b@[j]),
        decreases n - i,
    {
        if fold_char(a.get_char(i)) != fold_char(b.get_char(i)) {
            return false;
        }
        i += 1;
    }
    true
}

/// Some requested name matches the source's short name, ignoring ASCII case.
pub open spec fn is_requested(names: Seq<String>, k: SourceKind) -> bool {
    exists|j: int| 0 <= j < names.len() && eq_ignore_ascii_case(#[trigger] names[j]@, name_of(k))
}

/// The sources of `avail` that some name requests, in their order.
pub open spec fn requested_sources(avail: Seq<SourceKind>, names: Seq<String>) -> Seq<SourceKind>
    decreases avail.len(),
{
    if avail.len() == 0 {
        Seq::empty()
    } else {
        let rest = requested_sources(avail.drop_last(), names);
        if is_requested(names, avail.last()) {
            rest.push(avail.last())
        } else {
            rest
        }
    }
}

fn requested(names: &Vec<String>, k: SourceKind) -> (r: bool)
    ensures
        r == is_requested(names@, k),
{
    let name = k.name();
    let mut j: usize = 0;
    while j < names.len()
        invariant
            j <= names@.len(),
            name@ == name_of(k),
            forall|i: int| 0 <= i < j ==> !eq_ignore_ascii_case(#[trigger] names@[i]@, name_of(k)),
        decreases names@.len() - j,
    {
        if same_ignoring_ascii_case(names[j].as_str(), name) {
            return true;
        }
        j += 1;
    }
    false
}

/// Keeps the available sources whose short name some entry of `names`
/// matches without regard to ASCII case; names of no available source are
/// ignored. The order of `available` is kept.
pub fn filter_sources(available: &Vec<SourceKind>, names: &Vec<String>) -> (r: Vec<SourceKind>)
    ensures
        r@ == requested_sources(available@, names@),
{
    let mut out: Vec<SourceKind> = Vec::new();
    let mut i: usize = 0;
    while i < available.len()
        invariant
            i <= available@.len(),
            out@ == requested_sources(available@.subrange(0, i as int), names@),
        decreases available@.len() - i,
    {
        let k = available[i];
        let ghost pre = available@.subrange(0, i as int);
        assert(available@.subrange(0, i + 1).drop_last() =~= pre);
        assert(available@.subrange(0, i + 1).last() == k);
        if requested(names, k) {
            out.push(k);
        }
        i += 1;
    }
    assert(available@.subrange(0, available@.len() as int) =~= available@);
    out
}

/// Seconds per unit of a duration suffix; 0 for a character that is no unit.
pub open spec fn unit_seconds(c: char) -> nat {
    if c == 's' {
        1
    } else if c == 'm' {
        60
    } else if c == 'h' {
        3600
    } else if c == 'd' {
        86400
    } else {
        0
    }
}

/// The number part of a duration text and its unit in seconds; a bare
/// number counts minutes.
pub open spec fn split_unit(t: Seq<char>) -> (Seq<char>, nat) {
    if t.len() > 0 && unit_seconds(t.last()) > 0 {
        (t.drop_last(), unit_seconds(t.last()))
    } else {
        (t, 60)
    }
}

/// The value of a string of decimal digits.
pub open spec fn digits_value(ds: Seq<char>) -> nat
    decreases ds.len(),
{
    if ds.len() == 0 {
        0
    } else {
        digits_value(ds.drop_last()) * 10 + (ds.last() as nat - '0' as nat) as nat
    }
}

/// Every character is an ASCII digit.
pub open spec fn all_digits(ds: Seq<char>) -> bool {
    forall|i: int| 0 <= i < ds.len() ==> '0' <= #[trigger] ds[i] <= '9'
}

/// What parsing a `u64` accepts: an optional `+`, then one or more digits
/// whose value fits in 64 bits.
pub open spec fn u64_numeral(cs: Seq<char>) -> Option<nat> {
    let ds = if cs.len() > 0 && cs[0] == '+' {
        cs.drop_first()
    } else {
        cs
    };
    if ds.len() > 0 && all_digits(ds) && digits_value(ds) <= u64::MAX {
        Some(digits_value(ds))
    } else {
        None
    }
}

/// `r` is what parsing the already-trimmed duration text `t` gives: an
/// error for an empty text, for a number part that is no `u64`, for zero,
/// and for a total that overflows 64 bits; otherwise the number times its
/// unit, in seconds.
pub open spec fn duration_outcome(r: Result<u64, Error>, t: Seq<char>) -> bool {
    if t.len() == 0 {
        invalid_args_with(r, "empty duration"@)
    } else {
        let (num, unit) = split_unit(t);
        match u64_numeral(num) {
            None => invalid_args_with(r, "invalid duration: "@ + t),
            Some(v) => if v == 0 {
                invalid_args_with(r, "duration must be > 0"@)
            } else if v * unit > u64::MAX {
                invalid_args_with(r, "invalid duration: "@ + t)
            } else {
                r == Ok::<u64, Error>((v * unit) as u64)
            },
        }
    }
}

fn unit_of(c: char) -> (r: u64)
    ensures
        r == unit_seconds(c),
{
    if c == 's' {
        1
    } else if c == 'm' {
        60
    } else if c == 'h' {
        3600
    } else if c == 'd' {
        86400
    } else {
        0
    }
}

/// Parses the characters `t[from..to]` as an unsigned 64-bit numeral.
fn parse_u64_chars(t: &str, from: usize, to: usize) -> (r: Option<u64>)
    requires
        from <= to <= t@.len(),
    ensures
        r == (match u64_numeral(t@.subrange(from as int, to as int)) {
            Some(v) => Some(v as u64),
            None => None::<u64>,
        }),
{
    let ghost cs = t@.subrange(from as int, to as int);
    let mut start = from;
    if from < to && t.get_char(from) == '+' {
        start = from + 1;
    }
    let ghost ds = t@.subrange(start as int, to as int);
    assert(ds =~= (if cs.len() > 0 && cs[0] == '+' {
        cs.drop_first()
    } else {
        cs
    }));
    if start == to {
        return None;
    }
    let mut value: u64 = 0;
    let mut overflow = false;
    let mut i = start;
    while i < to
        invariant
            start <= i <= to <= t@.len(),
            ds == t@.subrange(start as int, to as int),
            cs == t@.subrange(from as int, to as int),
            ds == (if cs.len() > 0 && cs[0] == '+' {
                cs.drop_first()
            } else {
                cs
            }),
            ds.len() > 0,
            all_digits(t@.subrange(start as int, i as int)),
            !overflow ==> value == digits_value(t@.subrange(start as int, i as int)),
            overflow ==> digits_value(t@.subrange(start as int, i as int)) > u64::MAX,
        decreases to - i,
    {
        let c = t.get_char(i);
        if !('0' <= c && c <= '9') {
            assert(!all_digits(ds)) by {
                assert(ds[i - start] == c);
            }
            return None;
        }
        let ghost pre = t@.subrange(start as int, i as int);
        let ghost next = t@.subrange(start as int, i + 1);
        assert(next.drop_last() =~= pre);
        assert(next.last() == c);
        let d = (c as u32 - '0' as u32) as u64;
        assert(digits_value(next) == digits_value(pre) * 10 + d);
        if !overflow {
            if value > (u64::MAX - d) / 10 {
                overflow = true;
                assert(value * 10 + d > u64::MAX) by (nonlinear_arith)
                    requires
                        value > (u64::MAX - d) / 10,
                        d <= 9,
                ;
            } else {
                assert(value * 10 + d <= u64::MAX) by (nonlinear_arith)
                    requires
                        value <= (u64::MAX - d) / 10,
                        d <= 9,
                ;
                value = value * 10 + d;
            }
        } else {
            assert(digits_value(next) >= digits_value(pre));
        }
        i += 1;
        assert(all_digits(t@.subrange(start as int, i as int))) by {
            assert forall|k: int| 0 <= k < i - start implies '0' <= #[trigger] t@.subrange(start as int, i as int)[k] <= '9' by {
                if k < i - 1 - start {
                    assert(t@.subrange(start as int, i as int)[k] == pre[k]);
                }
            }
        }
    }
    assert(t@.subrange(start as int, to as int) =~= ds);
    if overflow {
        None
    } else {
        Some(value)
    }
}

/// Parses a duration whose surrounding whitespace is already removed:
/// a positive number with an optional unit `s`, `m`, `h` or `d` (a bare
/// number counts minutes). Returns the duration in seconds.
pub fn parse_duration_trimmed(t: &str) -> (r: Result<u64, Error>)
    ensures
        duration_outcome(r, t@),
{
    let n = t.unicode_len();
    if n == 0 {
        return Err(Error::InvalidArgs(String::from_str("empty duration")));
    }
    let last = t.get_char(n - 1);
    let unit = unit_of(last);
    let (end, multiplier) = if unit > 0 {
        (n - 1, unit)
    } else {
        (n, 60u64)
    };
    proof {
        let (num, u) = split_unit(t@);
        if unit > 0 {
            assert(num =~= t@.subrange(0, end as int));
        } else {
            assert(num =~= t@.subrange(0, end as int));
        }
        assert(u == multiplier);
    }
    match parse_u64_chars(t, 0, end) {
        None => {
            let mut m = String::from_str("invalid duration: ");
            m.append(t);
            Err(Error::InvalidArgs(m))
        },
        Some(v) => {
            if v == 0 {
                Err(Error::InvalidArgs(String::from_str("duration must be > 0")))
            } else if v > u64::MAX / multiplier {
                proof {
                    assert(v * multiplier > u64::MAX) by (nonlinear_arith)
                        requires
                            v > u64::MAX / multiplier,
                            multiplier > 0,
                    ;
                }
                let mut m = String::from_str("invalid duration: ");
                m.append(t);
                Err(Error::InvalidArgs(m))
            } else {
                proof {
                    assert(v * multiplier <= u64::MAX) by (nonlinear_arith)
                        requires
                            v <= u64::MAX / multiplier,
                            multiplier > 0,
                    ;
                }
                Ok(v * multiplier)
            }
        },
    }
}

/// A whitespace character in Unicode's `White_Space` property, which is
/// what `char::is_whitespace` tests.
pub open spec fn is_white_space(c: char) -> bool {
    ('\t' <= c <= '\r') || c == ' ' || c == '\u{85}' || c == '\u{a0}' || c == '\u{1680}' || (
    '\u{2000}' <= c <= '\u{200a}') || c == '\u{2028}' || c == '\u{2029}' || c == '\u{202f}' || c
        == '\u{205f}' || c == '\u{3000}'
}

/// `s` without its leading whitespace.
pub open spec fn trim_start_of(s: Seq<char>) -> Seq<char>
    decreases s.len(),
{
    if s.len() > 0 && is_white_space(s[0]) {
        trim_start_of(s.drop_first())
    } else {
        s
    }
}

/// `s` without its trailing whitespace.
pub open spec fn trim_end_of(s: Seq<char>) -> Seq<char>
    decreases s.len(),
{
    if s.len() > 0 && is_white_space(s.last()) {
        trim_end_of(s.drop_last())
    } else {
        s
    }
}

/// `s` without leading and trailing whitespace.
pub open spec fn trim_of(s: Seq<char>) -> Seq<char> {
    trim_end_of(trim_start_of(s))
}

/// Relies on `str::trim`: the text without leading and trailing characters
/// for which `char::is_whitespace` holds.
#[verifier::external_body]
fn trim_str(s: &str) -> (r: &str)
    ensures
        r@ == trim_of(s@),
{
    s.trim()
}

/// Parses a check duration such as `30s`, `5m`, `2h`, `1d` or `90` (bare
/// numbers are minutes) into seconds, after removing surrounding whitespace.
pub fn parse_duration(s: &str) -> (r: Result<u64, Error>)
    ensures
        duration_outcome(r, trim_of(s@)),
{
    parse_duration_trimmed(trim_str(s))
}

/// A duration in seconds as shown in reports: seconds below a minute,
/// minutes and seconds below an hour, else hours and minutes; a zero
/// second part is left out.
pub open spec fn duration_text(secs: nat) -> Seq<char> {
    if secs < 60 {
        decimal(secs) + "s"@
    } else if secs < 3600 {
        if secs % 60 == 0 {
            decimal(secs / 60) + "m"@
        } else {
            decimal(secs / 60) + "m "@ + decimal(secs % 60) + "s"@
        }
    } else {
        if (secs % 3600) / 60 == 0 {
            decimal(secs / 3600) + "h"@
        } else {
            decimal(secs / 3600) + "h "@ + decimal((secs % 3600) / 60) + "m"@
        }
    }
}

/// Formats a duration in seconds for reports (`45s`, `5m`, `5m 30s`, `2h`, `2h 15m`).
pub fn format_duration(secs: u64) -> (r: String)
    ensures
        r@ == duration_text(secs as nat),
{
    let mut s = String::new();
    if secs < 60 {
        push_decimal(&mut s, secs);
        s.append("s");
    } else if secs < 3600 {
        let m = secs / 60;
        let rest = secs % 60;
        push_decimal(&mut s, m);
        if rest == 0 {
            s.append("m");
        } else {
            s.append("m ");
            push_decimal(&mut s, rest);
            s.append("s");
        }
    } else {
        let h = secs / 3600;
        let m = (secs % 3600) / 60;
        push_decimal(&mut s, h);
        if m == 0 {
            s.append("h");
        } else {
            s.append("h ");
            push_decimal(&mut s, m);
            s.append("m");
        }
    }
    assert(s@ =~= duration_text(secs as nat));
    s
}

/// `x + 1`, staying at the maximum.
pub open spec fn sat_inc(x: u64) -> u64 {
    if x < u64::MAX {
        (x + 1) as u64
    } else {
        x
    }
}

fn inc(x: u64) -> (r: u64)
    ensures
        r == sat_inc(x),
{
    if x < u64::MAX {
        x + 1
    } else {
        x
    }
}

/// `x + n`, staying at the maximum.
pub open spec fn sat_add(x: u64, n: u64) -> u64 {
    if x as int + n as int <= u64::MAX {
        (x + n) as u64
    } else {
        u64::MAX
    }
}

/// `inc(x)` when `cond` holds, else `x`.
pub open spec fn inc_if(x: u64, cond: bool) -> u64 {
    if cond {
        sat_inc(x)
    } else {
        x
    }
}

/// The integer tallies of one source in check mode.
#[derive(Debug, Clone, Copy)]
pub struct SampleCounters {
    pub samples: u64,
    pub bytes: u64,
    pub monobit_pass: u64,
    pub poker_pass: u64,
    pub runs_pass: u64,
    pub long_runs_pass: u64,
    pub all_pass: u64,
    pub errors: u64,
}

impl SampleCounters {
    /// All tallies at zero.
    pub fn new() -> (r: SampleCounters)
        ensures
            r == (SampleCounters {
                samples: 0,
                bytes: 0,
                monobit_pass: 0,
                poker_pass: 0,
                runs_pass: 0,
                long_runs_pass: 0,
                all_pass: 0,
                errors: 0,
            }),
    {
        SampleCounters {
            samples: 0,
            bytes: 0,
            monobit_pass: 0,
            poker_pass: 0,
            runs_pass: 0,
            long_runs_pass: 0,
            all_pass: 0,
            errors: 0,
        }
    }

    /// Counts one collected sample of `len` bytes and, when the sample was
    /// long enough for them, the FIPS tests it passed (each test, and all
    /// four together). Tallies stop at their maximum.
    pub fn record_sample(&mut self, len: usize, fips: Option<FipsReport>)
        ensures
            final(self).samples == sat_inc(old(self).samples),
            final(self).bytes == sat_add(old(self).bytes, len as u64),
            final(self).errors == old(self).errors,
            fips is None ==> final(self).monobit_pass == old(self).monobit_pass
                && final(self).poker_pass == old(self).poker_pass && final(self).runs_pass == old(
                self,
            ).runs_pass && final(self).long_runs_pass == old(self).long_runs_pass
                && final(self).all_pass == old(self).all_pass,
            fips matches Some(f) ==> final(self).monobit_pass == inc_if(
                old(self).monobit_pass,
                f.monobit_passed,
            ) && final(self).poker_pass == inc_if(old(self).poker_pass, f.poker_passed)
                && final(self).runs_pass == inc_if(old(self).runs_pass, f.runs_passed)
                && final(self).long_runs_pass == inc_if(old(self).long_runs_pass, f.long_runs_passed)
                && final(self).all_pass == inc_if(
                old(self).all_pass,
                f.monobit_passed && f.poker_passed && f.runs_passed && f.long_runs_passed,
            ),
    {
        self.samples = inc(self.samples);
        let n = len as u64;
        self.bytes = if self.bytes <= u64::MAX - n {
            self.bytes + n
        } else {
            u64::MAX
        };
        if let Some(f) = fips {
            if f.monobit_passed {
                self.monobit_pass = inc(self.monobit_pass);
            }
            if f.poker_passed {
                self.poker_pass = inc(self.poker_pass);
            }
            if f.runs_passed {
                self.runs_pass = inc(self.runs_pass);
            }
            if f.long_runs_passed {
                self.long_runs_pass = inc(self.long_runs_pass);
            }
            if f.all_passed() {
                self.all_pass = inc(self.all_pass);
            }
        }
    }

    /// Counts one failed collection.
    pub fn record_error(&mut self)
        ensures
            *final(self) == (SampleCounters { errors: sat_inc(old(self).errors), ..*old(self) }),
    {
        self.errors = inc(self.errors);
    }
}

} // verus!
