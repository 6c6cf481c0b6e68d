//! Distribution samplers.
//!
//! A sampler is parsed from a specification string — `FIXED(v)`,
//! `SEQ(min..max)` or `UNIFORM(min..max)` — and paired with a run seed.
//! `sample(n)` is a pure function of the logical index `n` (and the seed),
//! so repeated runs with the same seed reproduce the same values and any
//! number of workers may sample concurrently without coordination.
//!
//! Numeric arguments are decimal with at most eighteen digits; anything
//! else, including an inverted range, is a malformed token.

use vstd::prelude::*;

use crate::error::ConfigurationError;
use vstd::string::StringSliceAdditionalSpecFns;

verus! {

/// The longest accepted decimal argument, in digits.
pub const MAX_NUM_DIGITS: usize = 18;

/// One parsed distribution shape. Ranges are inclusive on both ends.
#[derive(Clone, Copy, Debug, PartialEq, Eq, Structural)]
pub enum Distribution {
    /// Every sample is `value`.
    Fixed { value: u64 },
    /// Sample `n` walks the range in index order: `min + (n mod span)`.
    Sequence { min: u64, max: u64 },
    /// Seeded pseudorandom choice from the range, uniform over it.
    Uniform { min: u64, max: u64 },
    /// Seeded pseudorandom choice from the range with a bounded
    /// bell-shaped (statistical) profile: the average of four independent
    /// uniform draws, which concentrates around the range's middle.
    Gaussian { min: u64, max: u64 },
}

/// A range shape must not be inverted.
pub open spec fn dist_wf(d: Distribution) -> bool {
    match d {
        Distribution::Fixed { value } => true,
        Distribution::Sequence { min, max } => min <= max,
        Distribution::Uniform { min, max } => min <= max,
        Distribution::Gaussian { min, max } => min <= max,
    }
}

/// The smallest value the shape can produce.
pub open spec fn dist_min(d: Distribution) -> u64 {
    match d {
        Distribution::Fixed { value } => value,
        Distribution::Sequence { min, max } => min,
        Distribution::Uniform { min, max } => min,
        Distribution::Gaussian { min, max } => min,
    }
}

/// The largest value the shape can produce.
pub open spec fn dist_max(d: Distribution) -> u64 {
    match d {
        Distribution::Fixed { value } => value,
        Distribution::Sequence { min, max } => max,
        Distribution::Uniform { min, max } => max,
        Distribution::Gaussian { min, max } => max,
    }
}

// ---------------------------------------------------------------------------
// Sampling
// ---------------------------------------------------------------------------
/// Finalizing bit mix: a bijective scramble of `x0`.
pub open spec fn spec_mix64(x0: u64) -> u64 {
    let x1 = vstd::wrapping::u64_specs::wrapping_mul(x0 ^ (x0 >> 30), 0xBF58476D1CE4E5B9);
    let x2 = vstd::wrapping::u64_specs::wrapping_mul(x1 ^ (x1 >> 27), 0x94D049BB133111EB);
    x2 ^ (x2 >> 31)
}

/// The seeded pseudorandom word for index `n`: a pure function of
/// `(seed, n)` alone.
pub open spec fn spec_stream(seed: u64, n: u64) -> u64 {
    spec_mix64(
        vstd::wrapping::u64_specs::wrapping_add(
            seed,
            vstd::wrapping::u64_specs::wrapping_mul(n, 0x9E3779B97F4A7C15),
        ),
    )
}

/// The bell-shaped displacement into a range of `span` values: the average
/// of the four seeded words' residues.
pub open spec fn spec_bell_offset(seed: u64, n: u64, span: int) -> int {
    let w1 = spec_stream(vstd::wrapping::u64_specs::wrapping_add(seed, 1), n) as int % span;
    let w2 = spec_stream(vstd::wrapping::u64_specs::wrapping_add(seed, 2), n) as int % span;
    let w3 = spec_stream(vstd::wrapping::u64_specs::wrapping_add(seed, 3), n) as int % span;
    let w4 = spec_stream(vstd::wrapping::u64_specs::wrapping_add(seed, 4), n) as int % span;
    (w1 + w2 + w3 + w4) / 4
}

/// The displacement stays inside the range.
pub proof fn lemma_bell_offset_in_range(seed: u64, n: u64, span: int)
    requires
        span >= 1,
    ensures
        0 <= spec_bell_offset(seed, n, span) < span,
{
    let w1 = spec_stream(vstd::wrapping::u64_specs::wrapping_add(seed, 1), n) as int % span;
    let w2 = spec_stream(vstd::wrapping::u64_specs::wrapping_add(seed, 2), n) as int % span;
    let w3 = spec_stream(vstd::wrapping::u64_specs::wrapping_add(seed, 3), n) as int % span;
    let w4 = spec_stream(vstd::wrapping::u64_specs::wrapping_add(seed, 4), n) as int % span;
    assert(0 <= w1 < span);
    assert(0 <= w2 < span);
    assert(0 <= w3 < span);
    assert(0 <= w4 < span);
    assert((w1 + w2 + w3 + w4) / 4 <= span - 1 && (w1 + w2 + w3 + w4) / 4 >= 0)
        by (nonlinear_arith)
        requires
            0 <= w1 <= span - 1,
            0 <= w2 <= span - 1,
            0 <= w3 <= span - 1,
            0 <= w4 <= span - 1,
    ;
}

/// What `sample` returns for shape `d`, seed `seed` and index `n`.
pub open spec fn spec_sample(d: Distribution, seed: u64, n: u64) -> u64 {
    match d {
        Distribution::Fixed { value } => value,
        Distribution::Sequence { min, max } => if min == 0 && max == u64::MAX {
            n
        } else {
            ((min as int) + (n as int) % ((max as int) - (min as int) + 1)) as u64
        },
        Distribution::Uniform { min, max } => if min == 0 && max == u64::MAX {
            spec_stream(seed, n)
        } else {
            ((min as int) + (spec_stream(seed, n) as int) % ((max as int) - (min as int) + 1)) as u64
        },
        Distribution::Gaussian { min, max } => ((min as int) + spec_bell_offset(
            seed,
            n,
            (max as int) - (min as int) + 1,
        )) as u64,
    }
}

/// Every sample of a well-formed shape lies inside the shape's range.
pub proof fn lemma_sample_in_range(d: Distribution, seed: u64, n: u64)
    requires
        dist_wf(d),
    ensures
        dist_min(d) <= spec_sample(d, seed, n) <= dist_max(d),
{
    match d {
        Distribution::Gaussian { min, max } => {
            lemma_bell_offset_in_range(seed, n, (max as int) - (min as int) + 1);
        },
        _ => {},
    }
}

/// A distribution shape paired with the run seed: the complete sampler.
/// Holds no mutable state, so it may be shared or copied freely.
#[derive(Clone, Copy, Debug, PartialEq, Eq, Structural)]
pub struct Sampler {
    pub dist: Distribution,
    pub seed: u64,
}

impl Sampler {
    pub open spec fn wf(&self) -> bool {
        dist_wf(self.dist)
    }

    pub fn new(dist: Distribution, seed: u64) -> (r: Sampler)
        requires
            dist_wf(dist),
        ensures
            r == (Sampler { dist, seed }),
            r.wf(),
    {
        Sampler { dist, seed }
    }

    /// The sample for logical index `n`: deterministic in `(self, n)`.
    pub fn sample(&self, n: u64) -> (r: u64)
        requires
            self.wf(),
        ensures
            r == spec_sample(self.dist, self.seed, n),
            dist_min(self.dist) <= r <= dist_max(self.dist),
    {
        match self.dist {
            Distribution::Fixed { value } => value,
            Distribution::Sequence { min, max } => {
                if min == 0 && max == u64::MAX {
                    n
                } else {
                    min + n % (max - min + 1)
                }
            },
            Distribution::Uniform { min, max } => {
                let word = stream(self.seed, n);
                if min == 0 && max == u64::MAX {
                    word
                } else {
                    min + word % (max - min + 1)
                }
            },
            Distribution::Gaussian { min, max } => {
                proof {
                    lemma_bell_offset_in_range(
                        self.seed,
                        n,
                        (max as int) - (min as int) + 1,
                    );
                }
                let span: u128 = (max - min) as u128 + 1;
                let w1 = stream(self.seed.wrapping_add(1), n) as u128 % span;
                let w2 = stream(self.seed.wrapping_add(2), n) as u128 % span;
                let w3 = stream(self.seed.wrapping_add(3), n) as u128 % span;
                let w4 = stream(self.seed.wrapping_add(4), n) as u128 % span;
                let offset = (w1 + w2 + w3 + w4) / 4;
                min + (offset as u64)
            },
        }
    }
}

/// Computes the scramble `spec_mix64`.
fn mix64(x0: u64) -> (r: u64)
    ensures
        r == spec_mix64(x0),
{
    let x1 = (x0 ^ (x0 >> 30)).wrapping_mul(0xBF58476D1CE4E5B9);
    let x2 = (x1 ^ (x1 >> 27)).wrapping_mul(0x94D049BB133111EB);
    x2 ^ (x2 >> 31)
}

/// Computes the seeded word `spec_stream`.
fn stream(seed: u64, n: u64) -> (r: u64)
    ensures
        r == spec_stream(seed, n),
{
    mix64(seed.wrapping_add(n.wrapping_mul(0x9E3779B97F4A7C15)))
}

// ---------------------------------------------------------------------------
// Parsing
// ---------------------------------------------------------------------------
/// Whether byte `c` is a decimal digit.
pub open spec fn spec_is_digit(c: u8) -> bool {
    '0' as u8 <= c && c <= '9' as u8
}

/// The value of digit byte `c`.
pub open spec fn spec_digit_val(c: u8) -> nat {
    (c - '0' as u8) as nat
}

/// Whether every byte of `s` in `[lo, hi)` is a decimal digit.
pub open spec fn spec_all_digits(s: Seq<u8>, lo: int, hi: int) -> bool {
    forall|i: int| lo <= i < hi ==> spec_is_digit(s[i])
}

/// Whether `[lo, hi)` of `s` is an accepted decimal number: one to
/// eighteen digits.
pub open spec fn spec_is_num(s: Seq<u8>, lo: int, hi: int) -> bool {
    &&& 1 <= hi - lo <= MAX_NUM_DIGITS
    &&& spec_all_digits(s, lo, hi)
}

/// The decimal value of the digits of `s` in `[lo, hi)`.
pub open spec fn spec_num_val(s: Seq<u8>, lo: int, hi: int) -> nat
    decreases hi - lo,
{
    if hi <= lo {
        0
    } else {
        spec_num_val(s, lo, hi - 1) * 10 + spec_digit_val(s[hi - 1])
    }
}

/// Ten to the `n`.
pub open spec fn spec_pow10(n: nat) -> nat
    decreases n,
{
    if n == 0 {
        1
    } else {
        10 * spec_pow10((n - 1) as nat)
    }
}

proof fn lemma_pow10_mono(a: nat, b: nat)
    requires
        a <= b,
    ensures
        spec_pow10(a) <= spec_pow10(b),
    decreases b,
{
    if a < b {
        lemma_pow10_mono(a, (b - 1) as nat);
    }
}

/// A run of digits is worth less than ten to its length.
proof fn lemma_num_val_bound(s: Seq<u8>, lo: int, hi: int)
    requires
        lo <= hi,
        spec_all_digits(s, lo, hi),
    ensures
        spec_num_val(s, lo, hi) < spec_pow10((hi - lo) as nat),
    decreases hi - lo,
{
    if hi > lo {
        lemma_num_val_bound(s, lo, hi - 1);
    }
}

/// An accepted number fits in a `u64`.
pub proof fn lemma_num_fits(s: Seq<u8>, lo: int, hi: int)
    requires
        lo <= hi,
        hi - lo <= MAX_NUM_DIGITS,
        spec_all_digits(s, lo, hi),
    ensures
        spec_num_val(s, lo, hi) < 1000000000000000000,
{
    lemma_num_val_bound(s, lo, hi);
    lemma_pow10_mono((hi - lo) as nat, 18);
    reveal_with_fuel(spec_pow10, 20);
    assert(spec_pow10(18) == 1000000000000000000);
}

/// The first position in `[i, hi)` holding a non-digit, or `hi`.
pub open spec fn spec_first_nondigit(s: Seq<u8>, i: int, hi: int) -> int
    decreases hi - i,
{
    if i >= hi || !spec_is_digit(s[i]) {
        i
    } else {
        spec_first_nondigit(s, i + 1, hi)
    }
}

/// What parsing `[lo, hi)` of `s` as `min..max` yields: both endpoints
/// accepted numbers, separated by `..`, not inverted.
pub open spec fn spec_parse_range(s: Seq<u8>, lo: int, hi: int) -> Option<(u64, u64)> {
    let k = spec_first_nondigit(s, lo, hi);
    if k + 2 <= hi && s[k] == '.' as u8 && s[k + 1] == '.' as u8 && spec_is_num(s, lo, k)
        && spec_is_num(s, k + 2, hi) {
        let mn = spec_num_val(s, lo, k);
        let mx = spec_num_val(s, k + 2, hi);
        if mn <= mx {
            Some((mn as u64, mx as u64))
        } else {
            None
        }
    } else {
        None
    }
}

/// Whether `s` opens with `FIXED(`.
pub open spec fn spec_kw_fixed(s: Seq<u8>) -> bool {
    &&& s.len() >= 6
    &&& s[0] == 'F' as u8
    &&& s[1] == 'I' as u8
    &&& s[2] == 'X' as u8
    &&& s[3] == 'E' as u8
    &&& s[4] == 'D' as u8
    &&& s[5] == '(' as u8
}

/// Whether `s` opens with `SEQ(`.
pub open spec fn spec_kw_seq(s: Seq<u8>) -> bool {
    &&& s.len() >= 4
    &&& s[0] == 'S' as u8
    &&& s[1] == 'E' as u8
    &&& s[2] == 'Q' as u8
    &&& s[3] == '(' as u8
}

/// Whether `s` opens with `UNIFORM(`.
pub open spec fn spec_kw_uniform(s: Seq<u8>) -> bool {
    &&& s.len() >= 8
    &&& s[0] == 'U' as u8
    &&& s[1] == 'N' as u8
    &&& s[2] == 'I' as u8
    &&& s[3] == 'F' as u8
    &&& s[4] == 'O' as u8
    &&& s[5] == 'R' as u8
    &&& s[6] == 'M' as u8
    &&& s[7] == '(' as u8
}

/// Whether `s` opens with `GAUSSIAN(`.
pub open spec fn spec_kw_gaussian(s: Seq<u8>) -> bool {
    &&& s.len() >= 9
    &&& s[0] == 'G' as u8
    &&& s[1] == 'A' as u8
    &&& s[2] == 'U' as u8
    &&& s[3] == 'S' as u8
    &&& s[4] == 'S' as u8
    &&& s[5] == 'I' as u8
    &&& s[6] == 'A' as u8
    &&& s[7] == 'N' as u8
    &&& s[8] == '(' as u8
}

/// The distribution a specification string denotes, if it denotes one.
pub open spec fn spec_parse_distribution(s: Seq<u8>) -> Option<Distribution> {
    let n = s.len() as int;
    if n < 1 || s[n - 1] != ')' as u8 {
        None
    } else if spec_kw_fixed(s) {
        if spec_is_num(s, 6, n - 1) {
            Some(Distribution::Fixed { value: spec_num_val(s, 6, n - 1) as u64 })
        } else {
            None
        }
    } else if spec_kw_seq(s) {
        match spec_parse_range(s, 4, n - 1) {
            Some((min, max)) => Some(Distribution::Sequence { min, max }),
            None => None,
        }
    } else if spec_kw_uniform(s) {
        match spec_parse_range(s, 8, n - 1) {
            Some((min, max)) => Some(Distribution::Uniform { min, max }),
            None => None,
        }
    } else if spec_kw_gaussian(s) {
        match spec_parse_range(s, 9, n - 1) {
            Some((min, max)) => Some(Distribution::Gaussian { min, max }),
            None => None,
        }
    } else {
        None
    }
}

/// A parsed range is not inverted, and its endpoints fit in `u64`.
proof fn lemma_range_wf(s: Seq<u8>, lo: int, hi: int)
    ensures
        spec_parse_range(s, lo, hi) matches Some((mn, mx)) ==> mn <= mx,
{
    let k = spec_first_nondigit(s, lo, hi);
    if spec_parse_range(s, lo, hi) is Some {
        lemma_num_fits(s, lo, k);
        lemma_num_fits(s, k + 2, hi);
    }
}

/// A parsed distribution is well formed.
pub proof fn lemma_parsed_wf(s: Seq<u8>)
    ensures
        spec_parse_distribution(s) matches Some(d) ==> dist_wf(d),
{
    let n = s.len() as int;
    if spec_parse_distribution(s) is Some {
        if !spec_kw_fixed(s) && spec_kw_seq(s) {
            lemma_range_wf(s, 4, n - 1);
        }
        if !spec_kw_fixed(s) && !spec_kw_seq(s) && spec_kw_uniform(s) {
            lemma_range_wf(s, 8, n - 1);
        }
        if !spec_kw_fixed(s) && !spec_kw_seq(s) && !spec_kw_uniform(s) && spec_kw_gaussian(s) {
            lemma_range_wf(s, 9, n - 1);
        }
    }
}

/// Parses the digits of `b` in `[lo, hi)` as a decimal number.
fn parse_num(b: &[u8], lo: usize, hi: usize) -> (r: Option<u64>)
    requires
        lo <= hi <= b@.len(),
    ensures
        match r {
            Some(v) => spec_is_num(b@, lo as int, hi as int) && v == spec_num_val(
                b@,
                lo as int,
                hi as int,
            ),
            None => !spec_is_num(b@, lo as int, hi as int),
        },
{
    if hi - lo < 1 || hi - lo > MAX_NUM_DIGITS {
        return None;
    }
    let mut acc: u64 = 0;
    let mut j: usize = lo;
    while j < hi
        invariant
            lo <= j <= hi <= b@.len(),
            hi - lo <= MAX_NUM_DIGITS,
            spec_all_digits(b@, lo as int, j as int),
            acc == spec_num_val(b@, lo as int, j as int),
            acc < spec_pow10((j - lo) as nat),
        decreases hi - j,
    {
        let c = b[j];
        if c < '0' as u8 || c > '9' as u8 {
            assert(!spec_is_digit(b@[j as int]));
            return None;
        }
        proof {
            let ghost k = (j - lo) as nat;
            let ghost d = spec_digit_val(b@[j as int]);
            assert(spec_pow10(k + 1) == 10 * spec_pow10(k));
            assert(acc * 10 + d < spec_pow10(k + 1)) by (nonlinear_arith)
                requires
                    acc < spec_pow10(k),
                    d < 10,
                    spec_pow10(k + 1) == 10 * spec_pow10(k),
            ;
            lemma_pow10_mono(k + 1, 18);
            reveal_with_fuel(spec_pow10, 20);
            assert(spec_pow10(18) == 1000000000000000000);
        }
        acc = acc * 10 + ((c - '0' as u8) as u64);
        j += 1;
    }
    Some(acc)
}

/// Finds the first non-digit at or after `lo`, scanning up to `hi`.
fn scan_digits(b: &[u8], lo: usize, hi: usize) -> (r: usize)
    requires
        lo <= hi <= b@.len(),
    ensures
        lo <= r <= hi,
        r == spec_first_nondigit(b@, lo as int, hi as int),
{
    let mut k: usize = lo;
    while k < hi
        invariant
            lo <= k <= hi <= b@.len(),
            spec_first_nondigit(b@, lo as int, hi as int) == spec_first_nondigit(
                b@,
                k as int,
                hi as int,
            ),
        decreases hi - k,
    {
        let c = b[k];
        if c < '0' as u8 || c > '9' as u8 {
            assert(spec_first_nondigit(b@, k as int, hi as int) == k as int);
            return k;
        }
        k += 1;
    }
    k
}

/// Parses `[lo, hi)` of `b` as a `min..max` range.
fn parse_range(b: &[u8], lo: usize, hi: usize) -> (r: Option<(u64, u64)>)
    requires
        lo <= hi <= b@.len(),
    ensures
        r == spec_parse_range(b@, lo as int, hi as int),
{
    let k = scan_digits(b, lo, hi);
    if hi - k < 2 {
        return None;
    }
    if b[k] != '.' as u8 || b[k + 1] != '.' as u8 {
        return None;
    }
    let mn = match parse_num(b, lo, k) {
        Some(v) => v,
        None => {
            return None;
        },
    };
    let mx = match parse_num(b, k + 2, hi) {
        Some(v) => v,
        None => {
            return None;
        },
    };
    if mn <= mx {
        Some((mn, mx))
    } else {
        None
    }
}

/// Parses a distribution specification string.
///
/// Returns the denoted shape exactly when the string matches the grammar
/// (`FIXED(v)`, `SEQ(min..max)`, `UNIFORM(min..max)` with accepted numbers
/// and `min <= max`); every other string is a configuration error naming
/// the malformed token.
pub fn parse_distribution(s: &str) -> (r: Result<Distribution, ConfigurationError>)
    ensures
        match r {
            Ok(d) => spec_parse_distribution(s.spec_bytes()) == Some(d),
            Err(_) => spec_parse_distribution(s.spec_bytes()) is None,
        },
{
    let b: &[u8] = s.as_bytes();
    let n: usize = b.len();
    if n < 1 {
        return Err(ConfigurationError { token: s.to_owned() });
    }
    if b[n - 1] != ')' as u8 {
        return Err(ConfigurationError { token: s.to_owned() });
    }
    if n >= 6 && b[0] == 'F' as u8 && b[1] == 'I' as u8 && b[2] == 'X' as u8 && b[3] == 'E' as u8
        && b[4] == 'D' as u8 && b[5] == '(' as u8 {
        match parse_num(b, 6, n - 1) {
            Some(v) => Ok(Distribution::Fixed { value: v }),
            None => Err(ConfigurationError { token: s.to_owned() }),
        }
    } else if n >= 4 && b[0] == 'S' as u8 && b[1] == 'E' as u8 && b[2] == 'Q' as u8 && b[3] == '('
        as u8 {
        match parse_range(b, 4, n - 1) {
            Some((min, max)) => Ok(Distribution::Sequence { min, max }),
            None => Err(ConfigurationError { token: s.to_owned() }),
        }
    } else if n >= 8 && b[0] == 'U' as u8 && b[1] == 'N' as u8 && b[2] == 'I' as u8 && b[3] == 'F'
        as u8 && b[4] == 'O' as u8 && b[5] == 'R' as u8 && b[6] == 'M' as u8 && b[7] == '(' as u8 {
        match parse_range(b, 8, n - 1) {
            Some((min, max)) => Ok(Distribution::Uniform { min, max }),
            None => Err(ConfigurationError { token: s.to_owned() }),
        }
    } else if n >= 9 && b[0] == 'G' as u8 && b[1] == 'A' as u8 && b[2] == 'U' as u8 && b[3] == 'S'
        as u8 && b[4] == 'S' as u8 && b[5] == 'I' as u8 && b[6] == 'A' as u8 && b[7] == 'N' as u8
        && b[8] == '(' as u8 {
        match parse_range(b, 9, n - 1) {
            Some((min, max)) => Ok(Distribution::Gaussian { min, max }),
            None => Err(ConfigurationError { token: s.to_owned() }),
        }
    } else {
        Err(ConfigurationError { token: s.to_owned() })
    }
}

} // verus!
