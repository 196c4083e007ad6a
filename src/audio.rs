//! Audio ingestion: channel-layout validation and piecewise-linear resampling of
//! 16-bit PCM to the recognizer's fixed rate.

use vstd::prelude::*;

verus! {

/// Sample rate expected by the recognizer [Hz].
pub const TARGET_SAMPLE_RATE: u32 = 16000;

/// Offset that maps an `i16` sample onto `0..=65535`.
const SAMPLE_OFFSET: u64 = 32768;

/// Number of samples produced from `n` samples at `rate`: `n * 16000 / rate`,
/// rounded to the nearest integer (halves round up).
pub open spec fn resampled_len(n: nat, rate: nat) -> nat
    recommends
        rate > 0,
{
    ((2 * n * TARGET_SAMPLE_RATE + rate) as int / (2 * rate) as int) as nat
}

/// Index of the input sample at or before output position `j`.
pub open spec fn source_index(rate: nat, j: nat) -> nat {
    (j * rate / (TARGET_SAMPLE_RATE as nat)) as nat
}

/// Fractional part (in units of 1/16000) of output position `j` past its source index.
pub open spec fn source_frac(rate: nat, j: nat) -> nat {
    (j * rate % (TARGET_SAMPLE_RATE as nat)) as nat
}

/// Value of output sample `j`: the linear blend of the two input samples that
/// bound its position (rounded down), or the last input sample where no
/// successor exists.
pub open spec fn resampled_at(x: Seq<i16>, rate: nat, j: nat) -> int
    recommends
        x.len() > 0,
{
    let i = source_index(rate, j) as int;
    let f = source_frac(rate, j) as int;
    let t = TARGET_SAMPLE_RATE as int;
    if i + 1 < x.len() {
        (x[i] * (t - f) + x[i + 1] * f) / t
    } else {
        x.last() as int
    }
}

/// The whole resampled signal.
pub open spec fn resampled(x: Seq<i16>, rate: nat) -> Seq<i16> {
    Seq::new(resampled_len(x.len(), rate), |j: int| resampled_at(x, rate, j as nat) as i16)
}

/// Why an audio file could not be turned into a sample buffer.
#[derive(Debug, Clone, Copy, PartialEq, Eq, Structural)]
pub enum IngestError {
    /// The stream has other than exactly one channel.
    UnsupportedFormat,
    /// The container is unreadable or malformed.
    DecodeError,
}

proof fn lemma_len_bounds(n: nat, rate: nat)
    requires
        rate > 0,
    ensures
        2 * rate * resampled_len(n, rate) <= 2 * n * 16000 + rate,
        2 * n * 16000 + rate < 2 * rate * resampled_len(n, rate) + 2 * rate,
{
    let m = resampled_len(n, rate);
    let a = 2 * n * 16000 + rate;
    let d = 2 * rate;
    assert(m == a / d);
    assert(d * (a / d) <= a && a < d * (a / d) + d) by (nonlinear_arith)
        requires
            d > 0,
            a >= 0,
    ;
}

/// Every output position lies strictly inside the input.
proof fn lemma_index_in_range(n: nat, rate: nat, j: nat)
    requires
        rate > 0,
        j < resampled_len(n, rate),
    ensures
        source_index(rate, j) < n,
{
    lemma_len_bounds(n, rate);
    let m = resampled_len(n, rate);
    assert(2 * rate * j + 2 * rate <= 2 * rate * m) by (nonlinear_arith)
        requires
            j + 1 <= m,
    ;
    assert(j * rate < n * 16000) by (nonlinear_arith)
        requires
            2 * rate * j + 2 * rate <= 2 * rate * m,
            2 * rate * m <= 2 * n * 16000 + rate,
            rate > 0,
    ;
    assert((j * rate) / 16000 < n) by (nonlinear_arith)
        requires
            j * rate < n * 16000,
    ;
}

/// A weighted average of two values with non-negative weights lies between them.
proof fn lemma_blend_bounds(a: int, b: int, f: int, t: int)
    requires
        0 <= f < t,
    ensures
        a <= b ==> a <= (a * (t - f) + b * f) / t <= b,
        b <= a ==> b <= (a * (t - f) + b * f) / t <= a,
{
    let s = a * (t - f) + b * f;
    assert(a <= b ==> a * t <= s <= b * t) by (nonlinear_arith)
        requires
            0 <= f < t,
            s == a * (t - f) + b * f,
    ;
    assert(b <= a ==> b * t <= s <= a * t) by (nonlinear_arith)
        requires
            0 <= f < t,
            s == a * (t - f) + b * f,
    ;
    assert(a * t <= s ==> a <= s / t) by (nonlinear_arith)
        requires
            t > 0,
    ;
    assert(s <= a * t ==> s / t <= a) by (nonlinear_arith)
        requires
            t > 0,
    ;
    assert(b * t <= s ==> b <= s / t) by (nonlinear_arith)
        requires
            t > 0,
    ;
    assert(s <= b * t ==> s / t <= b) by (nonlinear_arith)
        requires
            t > 0,
    ;
}

/// Output sample `j` lies between the two input samples that bound its position.
proof fn lemma_sample_bounds(x: Seq<i16>, rate: nat, j: nat)
    requires
        rate > 0,
        j < resampled_len(x.len(), rate),
    ensures
        ({
            let i = source_index(rate, j) as int;
            let k = if i + 1 < x.len() { i + 1 } else { i };
            &&& i < x.len()
            &&& x[i] <= x[k] ==> x[i] <= resampled_at(x, rate, j) <= x[k]
            &&& x[k] <= x[i] ==> x[k] <= resampled_at(x, rate, j) <= x[i]
        }),
{
    lemma_index_in_range(x.len(), rate, j);
    let i = source_index(rate, j) as int;
    if i + 1 < x.len() {
        let f = source_frac(rate, j) as int;
        assert(0 <= f < 16000);
        lemma_blend_bounds(x[i] as int, x[i + 1] as int, f, 16000);
    }
}

/// Resampling by the rate ratio `16000 / rate`: the output has
/// `round(n * 16000 / rate)` samples, which is within half a sample of the
/// exact ratio, and resampling at the target rate itself is the identity.
pub proof fn lemma_resampled_length(x: Seq<i16>, rate: nat)
    requires
        rate > 0,
    ensures
        resampled(x, rate).len() == resampled_len(x.len(), rate),
        -(rate as int) <= 2 * (rate * resampled(x, rate).len() - x.len() * 16000) <= rate,
        rate == TARGET_SAMPLE_RATE ==> resampled(x, rate) == x,
{
    lemma_len_bounds(x.len(), rate);
    let m = resampled_len(x.len(), rate);
    assert(-(rate as int) <= 2 * (rate * m - x.len() * 16000) <= rate) by (nonlinear_arith)
        requires
            2 * rate * m <= 2 * x.len() * 16000 + rate,
            2 * x.len() * 16000 + rate < 2 * rate * m + 2 * rate,
    ;
    if rate == TARGET_SAMPLE_RATE {
        lemma_resample_identity(x);
    }
}

proof fn lemma_resample_identity(x: Seq<i16>)
    ensures
        resampled(x, TARGET_SAMPLE_RATE as nat) == x,
{
    let n = x.len();
    let r = TARGET_SAMPLE_RATE as nat;
    assert(resampled_len(n, r) == n) by (nonlinear_arith)
        requires
            r == 16000,
            resampled_len(n, r) == (2 * n * 16000 + r) / (2 * r),
    ;
    let y = resampled(x, r);
    assert forall|j: int| 0 <= j < n implies y[j] == x[j] by {
        assert(j * 16000 / 16000 == j) by (nonlinear_arith)
            requires
                j >= 0,
        ;
        assert(j * 16000 % 16000 == 0) by (nonlinear_arith)
            requires
                j >= 0,
        ;
        let a = x[j] as int;
        assert((a * (16000 - 0) + x[j + 1] * 0) / 16000 == a) by (nonlinear_arith);
    }
    assert(y =~= x);
}

/// Resampled values never overshoot: each lies between the minimum and the
/// maximum of the two input samples that bound its position (the last input
/// sample alone, past the end of the input).
pub proof fn lemma_resampled_no_overshoot(x: Seq<i16>, rate: nat, j: int)
    requires
        rate > 0,
        0 <= j < resampled(x, rate).len(),
    ensures
        ({
            let i = source_index(rate, j as nat) as int;
            let k = if i + 1 < x.len() { i + 1 } else { i };
            let lo = if x[i] <= x[k] { x[i] } else { x[k] };
            let hi = if x[i] <= x[k] { x[k] } else { x[i] };
            &&& i < x.len()
            &&& lo <= resampled(x, rate)[j] <= hi
        }),
{
    lemma_sample_bounds(x, rate, j as nat);
}

/// Resamples `x`, recorded at `rate`, to the target rate by linear interpolation.
pub fn resample(x: &Vec<i16>, rate: u32) -> (r: Vec<i16>)
    requires
        rate > 0,
        resampled_len(x@.len(), rate as nat) <= usize::MAX,
    ensures
        r@ == resampled(x@, rate as nat),
{
    let n = x.len();
    let t: u128 = TARGET_SAMPLE_RATE as u128;
    let m128: u128 = (2 * (n as u128) * t + rate as u128) / (2 * rate as u128);
    let m: usize = m128 as usize;
    let mut out: Vec<i16> = Vec::with_capacity(m);
    let mut j: usize = 0;
    while j < m
        invariant
            rate > 0,
            n == x@.len(),
            m == resampled_len(n as nat, rate as nat),
            j <= m,
            t == 16000,
            out@.len() == j,
            forall|k: int| 0 <= k < j ==> out@[k] == resampled_at(x@, rate as nat, k as nat) as i16,
        decreases m - j,
    {
        proof {
            lemma_sample_bounds(x@, rate as nat, j as nat);
            assert((j as int) * (rate as int) <= (usize::MAX as int) * (u32::MAX as int))
                by (nonlinear_arith)
                requires
                    j <= usize::MAX,
                    rate <= u32::MAX,
            ;
        }
        let pos: u128 = (j as u128) * (rate as u128);
        let i: usize = (pos / t) as usize;
        let f: u64 = (pos % t) as u64;
        let v: i16 = if i + 1 < n {
            let a: u64 = (x[i] as i32 + 32768) as u64;
            let b: u64 = (x[i + 1] as i32 + 32768) as u64;
            proof {
                assert(a * (16000 - f) <= 65535 * 16000) by (nonlinear_arith)
                    requires
                        a <= 65535,
                        f < 16000,
                ;
                assert(b * f <= 65535 * 16000) by (nonlinear_arith)
                    requires
                        b <= 65535,
                        f < 16000,
                ;
            }
            let s: u64 = a * (16000 - f) + b * f;
            proof {
                let xi = x@[i as int] as int;
                let xk = x@[i + 1] as int;
                let w = xi * (16000 - f) + xk * f;
                assert(s == w + 32768 * 16000) by (nonlinear_arith)
                    requires
                        s == a * (16000 - f) + b * f,
                        a == xi + 32768,
                        b == xk + 32768,
                        w == xi * (16000 - f) + xk * f,
                ;
                vstd::arithmetic::div_mod::lemma_hoist_over_denominator(w, 32768, 16000);
            }
            ((s / 16000) as i64 - SAMPLE_OFFSET as i64) as i16
        } else {
            x[n - 1]
        };
        out.push(v);
        j = j + 1;
    }
    assert(out@ =~= resampled(x@, rate as nat));
    out
}

/// Outcome of ingesting a decoded stream of `channels` interleaved channels at `rate`.
pub open spec fn ingest_outcome(channels: u32, rate: u32, x: Seq<i16>) -> Result<Seq<i16>, IngestError> {
    if channels != 1 {
        Err(IngestError::UnsupportedFormat)
    } else if rate == 0 {
        Err(IngestError::DecodeError)
    } else if rate == TARGET_SAMPLE_RATE {
        Ok(x)
    } else if resampled_len(x.len(), rate as nat) > usize::MAX {
        Err(IngestError::DecodeError)
    } else {
        Ok(resampled(x, rate as nat))
    }
}

/// Checks the channel layout of a decoded stream and brings its samples to the
/// target rate: a direct copy at the target rate, a linear resampling otherwise.
/// A zero rate, or one so low that the resampled buffer could not be addressed,
/// marks a malformed container.
pub fn ingest_decoded(channels: u32, rate: u32, samples: Vec<i16>) -> (r: Result<Vec<i16>, IngestError>)
    ensures
        carries(r, ingest_outcome(channels, rate, samples@)),
{
    if channels != 1 {
        return Err(IngestError::UnsupportedFormat);
    }
    if rate == 0 {
        return Err(IngestError::DecodeError);
    }
    if rate == TARGET_SAMPLE_RATE {
        return Ok(samples);
    }
    let n = samples.len();
    let m128: u128 = (2 * (n as u128) * (TARGET_SAMPLE_RATE as u128) + rate as u128) / (2 * rate as u128);
    if m128 > usize::MAX as u128 {
        return Err(IngestError::DecodeError);
    }
    Ok(resample(&samples, rate))
}

/// What decoding `bytes` as an audio container yields: its channel count and
/// sample rate, with its interleaved samples as `i16` when they could all be
/// read; nothing when the bytes are no readable container.
pub uninterp spec fn decoded_of(bytes: Seq<u8>) -> Option<(u32, u32, Option<Seq<i16>>)>;

/// Relies on `audrey::read::Reader::new`, `Reader::description` and
/// `Reader::samples::<i16>`, with audrey's WAV and FLAC readers only: decoding
/// depends on the bytes alone.
#[verifier::external_body]
fn decode(bytes: &Vec<u8>) -> (r: Option<(u32, u32, Option<Vec<i16>>)>)
    ensures
        match r {
            Some((c, rate, Some(x))) => decoded_of(bytes@) == Some((c, rate, Some(x@))),
            Some((c, rate, None)) => decoded_of(bytes@) == Some((c, rate, None::<Seq<i16>>)),
            None => decoded_of(bytes@) is None,
        },
{
    let mut reader = match audrey::read::Reader::new(std::io::Cursor::new(bytes.clone())) {
        Ok(reader) => reader,
        Err(_) => return None,
    };
    let description = reader.description();
    let samples: Result<Vec<i16>, _> = reader.samples::<i16>().collect();
    Some((description.channel_count(), description.sample_rate(), samples.ok()))
}

/// Outcome of ingesting the bytes of an audio file. WAV and FLAC containers
/// are read; anything else (Ogg Vorbis and CAF included) is a decode error.
/// The channel layout is checked before the samples, so a multi-channel stream
/// is refused as such even when its samples are damaged.
pub open spec fn bytes_outcome(bytes: Seq<u8>) -> Result<Seq<i16>, IngestError> {
    match decoded_of(bytes) {
        None => Err(IngestError::DecodeError),
        Some((c, rate, samples)) => if c != 1 {
            Err(IngestError::UnsupportedFormat)
        } else {
            match samples {
                None => Err(IngestError::DecodeError),
                Some(x) => ingest_outcome(c, rate, x),
            }
        },
    }
}

/// Whether an executable result carries the given outcome.
pub open spec fn carries(r: Result<Vec<i16>, IngestError>, o: Result<Seq<i16>, IngestError>) -> bool {
    match (r, o) {
        (Ok(v), Ok(w)) => v@ == w,
        (Err(e), Err(d)) => e == d,
        _ => false,
    }
}

/// Decodes the bytes of an audio file and ingests the stream: mono only, at the
/// target rate.
pub fn ingest_bytes(bytes: &Vec<u8>) -> (r: Result<Vec<i16>, IngestError>)
    ensures
        carries(r, bytes_outcome(bytes@)),
{
    match decode(bytes) {
        None => Err(IngestError::DecodeError),
        Some((channels, rate, samples)) => {
            if channels != 1 {
                return Err(IngestError::UnsupportedFormat);
            }
            match samples {
                None => Err(IngestError::DecodeError),
                Some(samples) => ingest_decoded(channels, rate, samples),
            }
        },
    }
}

/// Multi-channel streams are always refused, whatever their rate and samples,
/// and a file that decodes to one is refused even when its samples are damaged.
pub proof fn lemma_multichannel_refused(channels: u32, rate: u32, x: Seq<i16>, bytes: Seq<u8>)
    requires
        channels != 1,
    ensures
        ingest_outcome(channels, rate, x) == Err::<Seq<i16>, IngestError>(IngestError::UnsupportedFormat),
        decoded_of(bytes) is Some && decoded_of(bytes)->Some_0.0 != 1
            ==> bytes_outcome(bytes) == Err::<Seq<i16>, IngestError>(IngestError::UnsupportedFormat),
{
}

} // verus!
