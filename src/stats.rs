use vstd::prelude::*;

verus! {

/// Bytes in a FIPS 140-2 sample.
pub const FIPS_BYTES: usize = 2500;

/// Bits in a FIPS 140-2 sample.
pub const FIPS_BITS: usize = 20000;

/// Bit `k` of `data`, most significant bit of each byte first.
pub open spec fn bit_of(data: Seq<u8>, k: int) -> u8 {
    (data[k / 8] >> ((7 - k % 8) as u8)) & 1u8
}

/// Number of set bits among the first `m` bits.
pub open spec fn ones_upto(data: Seq<u8>, m: int) -> nat
    decreases m,
{
    if m <= 0 {
        0
    } else {
        ones_upto(data, m - 1) + bit_of(data, m - 1) as nat
    }
}

/// Length of the run of identical bits that ends at bit `k`, counted back
/// to its start.
pub open spec fn run_len_at(data: Seq<u8>, k: int) -> nat
    decreases k,
{
    if k <= 0 {
        1
    } else if bit_of(data, k) == bit_of(data, k - 1) {
        run_len_at(data, k - 1) + 1
    } else {
        1
    }
}

/// A maximal run ends at bit `k` of an `n`-bit sample.
pub open spec fn run_ends_at(data: Seq<u8>, n: int, k: int) -> bool {
    k == n - 1 || bit_of(data, k + 1) != bit_of(data, k)
}

/// Length class of a run: lengths 1 to 5 by themselves, 6 and longer together
/// (indices 0 to 5).
pub open spec fn length_class(len: nat) -> int {
    if len >= 6 {
        5
    } else {
        len - 1
    }
}

/// Number of maximal runs of bit value `v` in class `c` that end before bit
/// `m` of the `n`-bit sample.
pub open spec fn runs_upto(data: Seq<u8>, n: int, v: u8, c: int, m: int) -> nat
    decreases m,
{
    if m <= 0 {
        0
    } else {
        runs_upto(data, n, v, c, m - 1) + if run_ends_at(data, n, m - 1) && bit_of(data, m - 1)
            == v && length_class(run_len_at(data, m - 1)) == c {
            1nat
        } else {
            0nat
        }
    }
}

/// Longest run among those ending before bit `m` (0 when `m` is 0).
pub open spec fn longest_upto(data: Seq<u8>, m: int) -> nat
    decreases m,
{
    if m <= 0 {
        0
    } else {
        let prev = longest_upto(data, m - 1);
        let here = run_len_at(data, m - 1);
        if here > prev {
            here
        } else {
            prev
        }
    }
}

/// Nibble `j` of `data`: the high half of each byte first, then the low half.
pub open spec fn nibble_of(data: Seq<u8>, j: int) -> u8 {
    if j % 2 == 0 {
        data[j / 2] >> 4u8
    } else {
        data[j / 2] & 0x0fu8
    }
}

/// Number of the first `m` nibbles that equal `v`.
pub open spec fn nibble_count(data: Seq<u8>, v: u8, m: int) -> nat
    decreases m,
{
    if m <= 0 {
        0
    } else {
        nibble_count(data, v, m - 1) + if nibble_of(data, m - 1) == v {
            1nat
        } else {
            0nat
        }
    }
}

/// Sum of the squared counts of the nibble values below `m`.
pub open spec fn nibble_square_sum(data: Seq<u8>, m: int) -> nat
    decreases m,
{
    if m <= 0 {
        0
    } else {
        nibble_square_sum(data, m - 1) + nibble_count(data, (m - 1) as u8, 5000) * nibble_count(
            data,
            (m - 1) as u8,
            5000,
        )
    }
}

/// Lower bounds of the runs test, by length class.
pub open spec fn runs_lower(c: int) -> nat {
    if c == 0 {
        2315
    } else if c == 1 {
        1114
    } else if c == 2 {
        527
    } else if c == 3 {
        240
    } else {
        103
    }
}

/// Upper bounds of the runs test, by length class.
pub open spec fn runs_upper(c: int) -> nat {
    if c == 0 {
        2685
    } else if c == 1 {
        1386
    } else if c == 2 {
        723
    } else if c == 3 {
        384
    } else {
        209
    }
}

fn bit_at(data: &[u8; 2500], k: usize) -> (b: u8)
    requires
        k < FIPS_BITS,
    ensures
        b == bit_of(data@, k as int),
        b <= 1,
{
    let byte = data[k / 8];
    let b = (byte >> ((7 - k % 8) as u8)) & 1u8;
    assert(b <= 1) by (bit_vector)
        requires
            b == (byte >> ((7 - k % 8) as u8)) & 1u8,
    ;
    b
}

/// Number of set bits in the sample.
pub fn ones_count(data: &[u8; 2500]) -> (r: u32)
    ensures
        r == ones_upto(data@, FIPS_BITS as int),
        r <= FIPS_BITS,
{
    let mut count: u32 = 0;
    let mut k: usize = 0;
    while k < FIPS_BITS
        invariant
            k <= FIPS_BITS,
            count == ones_upto(data@, k as int),
            count <= k,
        decreases FIPS_BITS - k,
    {
        let b = bit_at(data, k);
        count = count + b as u32;
        k += 1;
    }
    count
}

/// Sum of the first `m` entries of `s`.
pub open spec fn prefix_sum(s: Seq<u32>, m: int) -> int
    decreases m,
{
    if m <= 0 {
        0
    } else {
        prefix_sum(s, m - 1) + s[m - 1]
    }
}

proof fn lemma_sum_two_increments(a: Seq<u32>, b: Seq<u32>, hi: int, lo: int, m: int)
    requires
        0 <= m <= a.len(),
        m <= b.len(),
        forall|v: int|
            0 <= v < m ==> #[trigger] a[v] == b[v] + (if v == hi { 1int } else { 0int }) + (if v
                == lo { 1int } else { 0int }),
    ensures
        prefix_sum(a, m) == prefix_sum(b, m) + (if 0 <= hi < m { 1int } else { 0int }) + (if 0
            <= lo < m { 1int } else { 0int }),
    decreases m,
{
    if m > 0 {
        lemma_sum_two_increments(a, b, hi, lo, m - 1);
    }
}

/// Counts of each nibble value over the sample's 5000 nibbles.
pub fn nibble_counts(data: &[u8; 2500]) -> (r: [u32; 16])
    ensures
        forall|v: int| 0 <= v < 16 ==> #[trigger] r[v] == nibble_count(data@, v as u8, 5000),
        forall|v: int| 0 <= v < 16 ==> #[trigger] r[v] <= 5000,
        prefix_sum(r@, 16) == 5000,
{
    let mut counts = [0u32; 16];
    assert(prefix_sum(counts@, 16) == 0) by {
        reveal_with_fuel(prefix_sum, 17);
    }
    let mut i: usize = 0;
    while i < FIPS_BYTES
        invariant
            i <= FIPS_BYTES,
            forall|v: int| 0 <= v < 16 ==> #[trigger] counts[v] == nibble_count(data@, v as u8, 2 * i as int),
            forall|v: int| 0 <= v < 16 ==> #[trigger] counts[v] <= 2 * i,
            prefix_sum(counts@, 16) == 2 * i,
        decreases FIPS_BYTES - i,
    {
        let byte = data[i];
        let hi = byte >> 4u8;
        let lo = byte & 0x0fu8;
        assert(hi < 16 && lo < 16) by (bit_vector)
            requires
                hi == byte >> 4u8,
                lo == byte & 0x0fu8,
        ;
        assert(nibble_of(data@, 2 * i as int) == hi);
        assert(nibble_of(data@, 2 * i as int + 1) == lo);
        let ghost before = counts;
        counts[hi as usize] = counts[hi as usize] + 1;
        counts[lo as usize] = counts[lo as usize] + 1;
        let ghost i0 = i as int;
        i += 1;
        assert forall|v: int| 0 <= v < 16 implies #[trigger] counts[v] == nibble_count(data@, v as u8, 2 * i as int) by {
            assert(nibble_count(data@, v as u8, 2 * i0 + 1) == nibble_count(data@, v as u8, 2 * i0) + (if nibble_of(data@, 2 * i0) == v as u8 { 1nat } else { 0nat }));
            assert(nibble_count(data@, v as u8, 2 * i0 + 2) == nibble_count(data@, v as u8, 2 * i0 + 1) + (if nibble_of(data@, 2 * i0 + 1) == v as u8 { 1nat } else { 0nat }));
            assert(counts[v] == before[v] + (if hi as int == v { 1int } else { 0int }) + (if lo as int == v { 1int } else { 0int }));
        }
        assert forall|v: int| 0 <= v < 16 implies #[trigger] counts@[v] == before@[v] + (if v == hi as int { 1int } else { 0int }) + (if v == lo as int { 1int } else { 0int }) by {
            assert(counts@[v] == counts[v] && before@[v] == before[v]);
        }
        proof {
            lemma_sum_two_increments(counts@, before@, hi as int, lo as int, 16);
        }
    }
    counts
}

proof fn lemma_prefix_sum_mono(s: Seq<u32>, m: int, n: int)
    requires
        0 <= m <= n <= s.len(),
    ensures
        0 <= prefix_sum(s, m) <= prefix_sum(s, n),
    decreases n,
{
    if n > m {
        lemma_prefix_sum_mono(s, m, n - 1);
    } else if m > 0 {
        lemma_prefix_sum_mono(s, m - 1, m - 1);
    }
}

/// Sum over the sixteen nibble values of the squared count. With the 5000
/// counts adding up to 5000 it lies between 5000^2 / 16 and 5000^2, so the
/// poker statistic `16 * sum / 5000 - 5000` lies between 0 and 75000.
pub fn poker_square_sum(data: &[u8; 2500]) -> (r: u64)
    ensures
        r == nibble_square_sum(data@, 16),
        1562500 <= r <= 25000000,
{
    let counts = nibble_counts(data);
    let mut sum: u64 = 0;
    let mut v: usize = 0;
    while v < 16
        invariant
            v <= 16,
            forall|w: int| 0 <= w < 16 ==> #[trigger] counts[w] == nibble_count(data@, w as u8, 5000),
            forall|w: int| 0 <= w < 16 ==> #[trigger] counts[w] <= 5000,
            prefix_sum(counts@, 16) == 5000,
            sum == nibble_square_sum(data@, v as int),
            sum <= 5000 * prefix_sum(counts@, v as int),
            4 * sum - 2500 * prefix_sum(counts@, v as int) + 390625 * v >= 0,
            0 <= prefix_sum(counts@, v as int) <= 5000,
        decreases 16 - v,
    {
        let c = counts[v] as u64;
        let ghost cs = prefix_sum(counts@, v as int);
        proof {
            lemma_prefix_sum_mono(counts@, v as int + 1, 16);
            assert(prefix_sum(counts@, v as int + 1) == cs + c);
        }
        assert(c * c <= 5000 * c) by (nonlinear_arith)
            requires
                c <= 5000,
        ;
        assert(4 * (c * c) - 2500 * c + 390625 >= 0) by (nonlinear_arith);
        sum = sum + c * c;
        v += 1;
    }
    sum
}

/// Runs of the sample by bit value and length class, and the longest run.
#[derive(Debug, Clone, Copy)]
pub struct RunTally {
    /// Maximal runs of zeros of lengths 1, 2, 3, 4, 5 and 6 or more.
    pub zeros: [u32; 6],
    /// Maximal runs of ones, classed the same way.
    pub ones: [u32; 6],
    /// Length of the longest run of identical bits.
    pub longest: u32,
}

fn class_of(len: u32) -> (c: usize)
    requires
        len >= 1,
    ensures
        c == length_class(len as nat),
        c < 6,
{
    if len >= 6 {
        5
    } else {
        (len - 1) as usize
    }
}

/// Scans the sample's bits once, classifying every maximal run.
pub fn run_tally(data: &[u8; 2500]) -> (r: RunTally)
    ensures
        forall|c: int|
            0 <= c < 6 ==> #[trigger] r.zeros[c] == runs_upto(
                data@,
                FIPS_BITS as int,
                0,
                c,
                FIPS_BITS as int,
            ) && r.ones[c] == runs_upto(data@, FIPS_BITS as int, 1, c, FIPS_BITS as int),
        r.longest == longest_upto(data@, FIPS_BITS as int),
        1 <= r.longest <= FIPS_BITS,
{
    let ghost n = FIPS_BITS as int;
    let mut zeros = [0u32; 6];
    let mut ones = [0u32; 6];
    let mut cur = bit_at(data, 0);
    let mut run_len: u32 = 1;
    let mut longest: u32 = 1;
    let mut k: usize = 1;
    assert(longest_upto(data@, 1) == 1) by {
        assert(longest_upto(data@, 0) == 0);
    }
    while k < FIPS_BITS
        invariant
            n == FIPS_BITS,
            1 <= k <= FIPS_BITS,
            cur == bit_of(data@, k - 1),
            cur <= 1,
            run_len == run_len_at(data@, k - 1),
            1 <= run_len <= k,
            forall|c: int|
                0 <= c < 6 ==> #[trigger] zeros[c] == runs_upto(data@, n, 0, c, k - 1)
                    && ones[c] == runs_upto(data@, n, 1, c, k - 1),
            forall|c: int| 0 <= c < 6 ==> #[trigger] zeros[c] <= k,
            forall|c: int| 0 <= c < 6 ==> #[trigger] ones[c] <= k,
            longest == longest_upto(data@, k as int),
            1 <= longest <= k,
        decreases FIPS_BITS - k,
    {
        let b = bit_at(data, k);
        let ghost z0 = zeros;
        let ghost o0 = ones;
        let ghost cur0 = cur;
        let ghost len0 = run_len;
        if b == cur {
            run_len = run_len + 1;
        } else {
            let c = class_of(run_len);
            if cur == 0 {
                zeros[c] = zeros[c] + 1;
            } else {
                ones[c] = ones[c] + 1;
            }
            cur = b;
            run_len = 1;
        }
        if run_len > longest {
            longest = run_len;
        }
        k += 1;
        assert forall|c: int|
            0 <= c < 6 implies #[trigger] zeros[c] == runs_upto(data@, n, 0, c, k - 1)
                && ones[c] == runs_upto(data@, n, 1, c, k - 1) by {
            assert(run_ends_at(data@, n, k - 2) == (b != cur0));
            assert(zeros[c] == z0[c] + (if b != cur0 && cur0 == 0 && length_class(len0 as nat) == c { 1int } else { 0int }));
            assert(ones[c] == o0[c] + (if b != cur0 && cur0 == 1 && length_class(len0 as nat) == c { 1int } else { 0int }));
        }
    }
    let c = class_of(run_len);
    let ghost z0 = zeros;
    let ghost o0 = ones;
    if cur == 0 {
        zeros[c] = zeros[c] + 1;
    } else {
        ones[c] = ones[c] + 1;
    }
    assert forall|c2: int|
        0 <= c2 < 6 implies #[trigger] zeros[c2] == runs_upto(data@, n, 0, c2, n) && ones[c2]
            == runs_upto(data@, n, 1, c2, n) by {
        assert(run_ends_at(data@, n, n - 1));
        assert(zeros[c2] == z0[c2] + (if cur == 0 && c == c2 { 1int } else { 0int }));
        assert(ones[c2] == o0[c2] + (if cur == 1 && c == c2 { 1int } else { 0int }));
    }
    RunTally { zeros, ones, longest }
}

/// Outcome of the four FIPS 140-2 tests on a 2500-byte sample, with the
/// statistic each test judged.
#[derive(Debug, Clone, Copy)]
pub struct FipsReport {
    /// Number of set bits (monobit statistic).
    pub ones: u32,
    /// Sum of the squared nibble-value counts (poker statistic before scaling).
    pub poker_square_sum: u64,
    /// Runs by value and length class, and the longest run.
    pub runs: RunTally,
    pub monobit_passed: bool,
    pub poker_passed: bool,
    pub runs_passed: bool,
    pub long_runs_passed: bool,
}

/// Monobit: the number of ones lies strictly between 9725 and 10275.
pub open spec fn monobit_ok(ones: nat) -> bool {
    9725 < ones < 10275
}

/// Poker: `X = (16 / 5000) * sum - 5000` lies strictly between 2.16 and
/// 46.17, that is `25010800 < 16 * sum < 25230850`.
pub open spec fn poker_ok(sum: nat) -> bool {
    25010800 < 16 * sum < 25230850
}

/// Runs: every one of the twelve counts lies within its bounds.
pub open spec fn runs_ok(t: RunTally) -> bool {
    forall|c: int|
        0 <= c < 6 ==> runs_lower(c) <= #[trigger] t.zeros[c] <= runs_upper(c) && runs_lower(c)
            <= t.ones[c] <= runs_upper(c)
}

/// Long runs: no run is longer than 25 bits.
pub open spec fn long_runs_ok(longest: nat) -> bool {
    longest <= 25
}

const RUNS_LOWER: [u32; 6] = [2315, 1114, 527, 240, 103, 103];
const RUNS_UPPER: [u32; 6] = [2685, 1386, 723, 384, 209, 209];

fn runs_within_bounds(t: &RunTally) -> (r: bool)
    ensures
        r == runs_ok(*t),
{
    let lower = RUNS_LOWER;
    let upper = RUNS_UPPER;
    assert(forall|c: int| 0 <= c < 6 ==> lower[c] == runs_lower(c) && upper[c] == runs_upper(c));
    let mut c: usize = 0;
    while c < 6
        invariant
            c <= 6,
            forall|d: int| 0 <= d < 6 ==> lower[d] == runs_lower(d) && upper[d] == runs_upper(d),
            forall|d: int|
                0 <= d < c ==> runs_lower(d) <= #[trigger] t.zeros[d] <= runs_upper(d)
                    && runs_lower(d) <= t.ones[d] <= runs_upper(d),
        decreases 6 - c,
    {
        if t.zeros[c] < lower[c] || t.zeros[c] > upper[c] || t.ones[c] < lower[c] || t.ones[c]
            > upper[c] {
            return false;
        }
        c += 1;
    }
    true
}

/// `r` is the FIPS 140-2 outcome for the 2500-byte sample `data`.
pub open spec fn fips_report_of(data: Seq<u8>, r: FipsReport) -> bool {
    &&& r.ones == ones_upto(data, FIPS_BITS as int)
    &&& r.ones <= FIPS_BITS
    &&& r.poker_square_sum == nibble_square_sum(data, 16)
    &&& 1562500 <= r.poker_square_sum <= 25000000
    &&& forall|c: int|
        0 <= c < 6 ==> #[trigger] r.runs.zeros[c] == runs_upto(
            data,
            FIPS_BITS as int,
            0,
            c,
            FIPS_BITS as int,
        ) && r.runs.ones[c] == runs_upto(data, FIPS_BITS as int, 1, c, FIPS_BITS as int)
    &&& r.runs.longest == longest_upto(data, FIPS_BITS as int)
    &&& 1 <= r.runs.longest <= FIPS_BITS
    &&& r.monobit_passed == monobit_ok(r.ones as nat)
    &&& r.poker_passed == poker_ok(r.poker_square_sum as nat)
    &&& r.runs_passed == runs_ok(r.runs)
    &&& r.long_runs_passed == long_runs_ok(r.runs.longest as nat)
}

/// Runs the four FIPS 140-2 tests (monobit, poker, runs, long runs) on a
/// 2500-byte sample. Total: every statistic is an integer within its
/// range, so nothing can overflow or divide by zero.
pub fn fips_suite(data: &[u8; 2500]) -> (r: FipsReport)
    ensures
        fips_report_of(data@, r),
{
    let ones = ones_count(data);
    let sum = poker_square_sum(data);
    let runs = run_tally(data);
    let scaled = 16 * sum;
    let poker_passed = 25010800 < scaled && scaled < 25230850;
    FipsReport {
        ones,
        poker_square_sum: sum,
        runs,
        monobit_passed: 9725 < ones && ones < 10275,
        poker_passed,
        runs_passed: runs_within_bounds(&runs),
        long_runs_passed: runs.longest <= 25,
    }
}

impl FipsReport {
    /// All four tests passed.
    pub fn all_passed(&self) -> (r: bool)
        ensures
            r == (self.monobit_passed && self.poker_passed && self.runs_passed
                && self.long_runs_passed),
    {
        self.monobit_passed && self.poker_passed && self.runs_passed && self.long_runs_passed
    }
}

/// Number of the first `m` bytes of `data` that equal `v`.
pub open spec fn byte_count(data: Seq<u8>, v: u8, m: int) -> nat
    decreases m,
{
    if m <= 0 {
        0
    } else {
        byte_count(data, v, m - 1) + if data[m - 1] == v {
            1nat
        } else {
            0nat
        }
    }
}

/// Histogram of the byte values of `data`.
pub fn byte_frequencies(data: &[u8]) -> (r: [u64; 256])
    ensures
        forall|v: int| 0 <= v < 256 ==> #[trigger] r[v] == byte_count(data@, v as u8, data@.len() as int),
{
    let mut freq = [0u64; 256];
    let mut i: usize = 0;
    while i < data.len()
        invariant
            i <= data@.len(),
            forall|v: int| 0 <= v < 256 ==> #[trigger] freq[v] == byte_count(data@, v as u8, i as int),
            forall|v: int| 0 <= v < 256 ==> #[trigger] freq[v] <= i,
        decreases data@.len() - i,
    {
        let b = data[i];
        let ghost before = freq;
        freq[b as usize] = freq[b as usize] + 1;
        i += 1;
        assert forall|v: int| 0 <= v < 256 implies #[trigger] freq[v] == byte_count(data@, v as u8, i as int) by {
            assert(freq[v] == before[v] + (if b as int == v { 1int } else { 0int }));
        }
    }
    freq
}

/// The FIPS 140-2 outcome for the first 2500 bytes of a sample, or `None`
/// for a sample too short for the tests.
pub fn fips_for_sample(data: &[u8]) -> (r: Option<FipsReport>)
    ensures
        r is Some <==> data@.len() >= FIPS_BYTES,
        r matches Some(rep) ==> fips_report_of(data@.subrange(0, FIPS_BYTES as int), rep),
{
    if data.len() < FIPS_BYTES {
        return None;
    }
    let mut block = [0u8; 2500];
    let mut i: usize = 0;
    while i < FIPS_BYTES
        invariant
            i <= FIPS_BYTES,
            data@.len() >= FIPS_BYTES,
            forall|j: int| 0 <= j < i ==> #[trigger] block@[j] == data@[j],
        decreases FIPS_BYTES - i,
    {
        block[i] = data[i];
        i += 1;
    }
    assert(block@ =~= data@.subrange(0, FIPS_BYTES as int));
    Some(fips_suite(&block))
}

} // verus!
