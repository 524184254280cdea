//! Thermal decoding: reinterprets a raw frame as 16-bit big-endian samples,
//! computes a zero-exclusion normalization range, and maps every sample
//! through a perceptual color gradient into packed opaque pixels.

use vstd::prelude::*;

use crate::FRAME_BYTES;
use crate::HEIGHT;
use crate::SAMPLE_COUNT;
use crate::WIDTH;

verus! {

/// The 16-bit sample at index `k`, read big-endian from a byte sequence.
pub open spec fn be_sample(bytes: Seq<u8>, k: int) -> u16 {
    ((bytes[2 * k] as int) * 256 + (bytes[2 * k + 1] as int)) as u16
}

/// All samples of a byte sequence, adjacent byte pairs in big-endian order.
pub open spec fn be_samples(bytes: Seq<u8>) -> Seq<u16> {
    Seq::new((bytes.len() / 2) as nat, |k: int| be_sample(bytes, k))
}

/// Whether at least one sample carries a reading (zero is the "no reading"
/// sentinel).
pub open spec fn has_nonzero(s: Seq<u16>) -> bool {
    exists|i: int| 0 <= i < s.len() && s[i] != 0
}

/// The least non-zero sample, or zero when every sample is zero.
pub open spec fn nz_min(s: Seq<u16>) -> u16
    decreases s.len(),
{
    if s.len() == 0 {
        0u16
    } else {
        let rest = nz_min(s.drop_last());
        if s.last() == 0 {
            rest
        } else if rest == 0 || s.last() < rest {
            s.last()
        } else {
            rest
        }
    }
}

/// The greatest non-zero sample, or zero when every sample is zero.
pub open spec fn nz_max(s: Seq<u16>) -> u16
    decreases s.len(),
{
    if s.len() == 0 {
        0u16
    } else {
        let rest = nz_max(s.drop_last());
        if s.last() > rest {
            s.last()
        } else {
            rest
        }
    }
}

/// Lower normalization bound of a frame: the least non-zero sample, or zero
/// under the all-zero fallback.
pub open spec fn frame_min(s: Seq<u16>) -> u16 {
    nz_min(s)
}

/// Upper normalization bound of a frame: the greatest non-zero sample, or
/// the full-scale value under the all-zero fallback.
pub open spec fn frame_max(s: Seq<u16>) -> u16 {
    if has_nonzero(s) {
        nz_max(s)
    } else {
        65535u16
    }
}

/// Width of the normalization range, clamped to at least one so that the
/// mapping never divides by zero on a flat frame.
pub open spec fn frame_range(s: Seq<u16>) -> u16 {
    let d = frame_max(s) - frame_min(s);
    if d < 1 {
        1u16
    } else {
        d as u16
    }
}

/// A sample's distance above the lower bound, with unsigned wraparound: a
/// sentinel zero below the bound wraps instead of trapping.
pub open spec fn wrap_delta(v: u16, m: u16) -> u16 {
    if v >= m {
        (v - m) as u16
    } else {
        (v - m + 0x10000) as u16
    }
}

/// A color packed as fully opaque 8-bit alpha, red, green, blue.
pub open spec fn pack_pixel(c: (u8, u8, u8)) -> u32 {
    0xFF000000u32 | ((c.0 as u32) << 16) | ((c.1 as u32) << 8) | (c.2 as u32)
}

/// The color of the gradient sampled at position `i / (n - 1)`, clamped to
/// the end of the gradient when `i` exceeds `n - 1`.
pub uninterp spec fn viridis_sample(i: nat, n: nat) -> (u8, u8, u8);

/// The packed pixel produced for sample `k` of a frame: the gradient
/// evaluated at the sample's position inside the frame's normalization
/// range.
pub open spec fn pixel_color(s: Seq<u16>, k: int) -> u32 {
    pack_pixel(
        viridis_sample(wrap_delta(s[k], frame_min(s)) as nat, (frame_range(s) + 1) as nat),
    )
}

/// Relies on colorous::Gradient::eval_rational on the viridis gradient: it
/// panics only for n == 0, and its color depends on the two index arguments
/// alone (it clamps i to n - 1, then samples a fixed gradient).
#[verifier::external_body]
fn viridis_rational(i: usize, n: usize) -> (c: (u8, u8, u8))
    requires
        1 <= n,
    ensures
        c == viridis_sample(i as nat, n as nat),
{
    let color = colorous::VIRIDIS.eval_rational(i, n);
    (color.r, color.g, color.b)
}

/// A decoded frame: `width * height` packed opaque pixels.
pub struct DecodedImage {
    pub width: usize,
    pub height: usize,
    pub pixels: Vec<u32>,
}

/// Pairs adjacent bytes into 16-bit samples, big-endian: the earlier byte is
/// the high byte.
pub fn decode_be_samples(bytes: &[u8]) -> (samples: Vec<u16>)
    ensures
        samples@ == be_samples(bytes@),
{
    let n = bytes.len() / 2;
    let mut samples: Vec<u16> = Vec::new();
    let mut k: usize = 0;
    while k < n
        invariant
            n == bytes@.len() / 2,
            bytes@.len() <= usize::MAX,
            k <= n,
            samples@.len() == k,
            forall|j: int| 0 <= j < k ==> samples@[j] == be_sample(bytes@, j),
        decreases n - k,
    {
        proof {
            assert(2 * n <= bytes@.len());
            assert(2 * k + 2 <= 2 * n);
        }
        let hi = bytes[2 * k];
        let lo = bytes[2 * k + 1];
        let s: u16 = (hi as u16) * 256 + (lo as u16);
        samples.push(s);
        k = k + 1;
    }
    proof {
        assert(samples@ =~= be_samples(bytes@));
    }
    samples
}

/// Scans a frame once and returns its normalization bounds: minimum and
/// maximum over the non-zero samples only, with the full-range fallback when
/// no sample is non-zero.
pub fn compute_bounds(samples: &Vec<u16>) -> (bounds: (u16, u16))
    ensures
        bounds.0 == frame_min(samples@),
        bounds.1 == frame_max(samples@),
{
    let s = samples.as_slice();
    let mut minv: u16 = 0;
    let mut maxv: u16 = 0;
    let mut i: usize = 0;
    while i < s.len()
        invariant
            s@ == samples@,
            i <= s@.len(),
            minv == nz_min(s@.take(i as int)),
            maxv == nz_max(s@.take(i as int)),
        decreases s@.len() - i,
    {
        let v = s[i];
        proof {
            assert(s@.take(i + 1).drop_last() =~= s@.take(i as int));
            assert(s@.take(i + 1).last() == s@[i as int]);
        }
        if v != 0 && (minv == 0 || v < minv) {
            minv = v;
        }
        if v > maxv {
            maxv = v;
        }
        i = i + 1;
    }
    proof {
        assert(s@.take(s@.len() as int) =~= s@);
        lemma_nz_max_zero_iff(samples@);
    }
    if maxv == 0 {
        (minv, 65535u16)
    } else {
        (minv, maxv)
    }
}

/// When every sample is zero, both folds stay at zero.
proof fn lemma_no_nonzero(s: Seq<u16>)
    requires
        !has_nonzero(s),
    ensures
        nz_min(s) == 0,
        nz_max(s) == 0,
    decreases s.len(),
{
    if s.len() > 0 {
        assert(s[s.len() - 1] == 0);
        assert(!has_nonzero(s.drop_last())) by {
            if has_nonzero(s.drop_last()) {
                let i = choose|i: int|
                    0 <= i < s.drop_last().len() && s.drop_last()[i] != 0;
                assert(s[i] != 0);
            }
        }
        lemma_no_nonzero(s.drop_last());
    }
}

/// The greatest-sample fold is zero exactly when no sample is non-zero.
proof fn lemma_nz_max_zero_iff(s: Seq<u16>)
    ensures
        (nz_max(s) == 0) <==> !has_nonzero(s),
    decreases s.len(),
{
    if s.len() == 0 {
        assert(!has_nonzero(s));
    } else {
        lemma_nz_max_zero_iff(s.drop_last());
        if s.last() != 0 {
            assert(s[s.len() - 1] != 0);
            assert(has_nonzero(s));
        } else {
            assert(s[s.len() - 1] == 0);
            if has_nonzero(s) {
                let i = choose|i: int| 0 <= i < s.len() && s[i] != 0;
                assert(i < s.len() - 1);
                assert(s.drop_last()[i] != 0);
                assert(has_nonzero(s.drop_last()));
            } else {
                if has_nonzero(s.drop_last()) {
                    let i = choose|i: int|
                        0 <= i < s.drop_last().len() && s.drop_last()[i] != 0;
                    assert(s[i] != 0);
                }
            }
        }
    }
}

/// Law: the normalization bounds come from the non-zero samples alone. When
/// a frame has any reading, its lower bound is positive, both bounds are
/// values of non-zero samples, and every non-zero sample lies between them.
pub proof fn lemma_bounds_characterize(s: Seq<u16>)
    requires
        has_nonzero(s),
    ensures
        frame_min(s) > 0,
        exists|i: int| 0 <= i < s.len() && s[i] == frame_min(s),
        exists|i: int| 0 <= i < s.len() && s[i] == frame_max(s),
        forall|i: int|
            0 <= i < s.len() && s[i] != 0 ==> frame_min(s) <= s[i] && s[i] <= frame_max(s),
    decreases s.len(),
{
    let d = s.drop_last();
    let last = s.last();
    if last != 0 && !has_nonzero(d) {
        lemma_no_nonzero(d);
        assert(nz_min(s) == last);
        assert(nz_max(s) == last);
        assert(s[s.len() - 1] == frame_min(s));
        assert(forall|i: int| 0 <= i < s.len() - 1 ==> s[i] == d[i] && s[i] == 0);
    } else if last == 0 {
        assert(has_nonzero(d)) by {
            let i = choose|i: int| 0 <= i < s.len() && s[i] != 0;
            assert(i < s.len() - 1);
            assert(d[i] != 0);
        }
        lemma_bounds_characterize(d);
        assert(nz_min(s) == nz_min(d));
        assert(nz_max(s) == nz_max(d));
        let wmin = choose|i: int| 0 <= i < d.len() && d[i] == frame_min(d);
        assert(s[wmin] == frame_min(s));
        let wmax = choose|i: int| 0 <= i < d.len() && d[i] == frame_max(d);
        assert(s[wmax] == frame_max(s));
        assert(forall|i: int|
            0 <= i < s.len() && s[i] != 0 ==> frame_min(s) <= s[i] && s[i] <= frame_max(s)) by {
            assert(forall|i: int| 0 <= i < d.len() ==> s[i] == d[i]);
        }
    } else {
        assert(has_nonzero(d));
        lemma_bounds_characterize(d);
        assert(nz_min(d) > 0);
        if last < nz_min(d) {
            assert(nz_min(s) == last);
            assert(s[s.len() - 1] == frame_min(s));
        } else {
            assert(nz_min(s) == nz_min(d));
            let wmin = choose|i: int| 0 <= i < d.len() && d[i] == frame_min(d);
            assert(s[wmin] == frame_min(s));
        }
        if last > nz_max(d) {
            assert(nz_max(s) == last);
            assert(s[s.len() - 1] == frame_max(s));
        } else {
            assert(nz_max(s) == nz_max(d));
            let wmax = choose|i: int| 0 <= i < d.len() && d[i] == frame_max(d);
            assert(s[wmax] == frame_max(s));
        }
        assert(forall|i: int|
            0 <= i < s.len() && s[i] != 0 ==> frame_min(s) <= s[i] && s[i] <= frame_max(s)) by {
            assert(forall|i: int| 0 <= i < d.len() ==> s[i] == d[i]);
        }
    }
}

/// The lower bound never exceeds the upper bound, fallback included.
pub proof fn lemma_min_le_max(s: Seq<u16>)
    ensures
        frame_min(s) <= frame_max(s),
{
    if has_nonzero(s) {
        lemma_bounds_characterize(s);
        let w = choose|i: int| 0 <= i < s.len() && s[i] == frame_min(s);
        assert(s[w] != 0);
    } else {
        lemma_no_nonzero(s);
    }
}

/// Computes a sample's wrapped distance above the lower bound without
/// trapping on underflow.
fn delta_from_min(v: u16, m: u16) -> (d: u16)
    ensures
        d == wrap_delta(v, m),
{
    if v >= m {
        v - m
    } else {
        ((v as u32) + 0x10000 - (m as u32)) as u16
    }
}

/// Converts the raw bytes of one frame into a displayable image: big-endian
/// sample extraction, zero-exclusion normalization, and gradient mapping,
/// pixel by pixel.
pub fn decode_frame(frame: &[u8]) -> (img: DecodedImage)
    requires
        frame@.len() == FRAME_BYTES,
    ensures
        img.width == WIDTH,
        img.height == HEIGHT,
        img.pixels@.len() == SAMPLE_COUNT,
        forall|k: int|
            0 <= k < SAMPLE_COUNT ==> img.pixels@[k] == pixel_color(be_samples(frame@), k),
{
    let samples = decode_be_samples(frame);
    proof {
        lemma_min_le_max(samples@);
    }
    let (minv, maxv) = compute_bounds(&samples);
    let spread = maxv - minv;
    let range: u16 = if spread < 1 { 1 } else { spread };
    let mut pixels: Vec<u32> = Vec::new();
    let mut k: usize = 0;
    while k < samples.len()
        invariant
            samples@ == be_samples(frame@),
            samples@.len() == SAMPLE_COUNT,
            minv == frame_min(samples@),
            range == frame_range(samples@),
            k <= SAMPLE_COUNT,
            pixels@.len() == k,
            forall|j: int| 0 <= j < k ==> pixels@[j] == pixel_color(samples@, j),
        decreases samples@.len() - k,
    {
        let d = delta_from_min(samples[k], minv);
        let c = viridis_rational(d as usize, range as usize + 1);
        let px: u32 = 0xFF000000u32 | ((c.0 as u32) << 16) | ((c.1 as u32) << 8) | (c.2 as u32);
        pixels.push(px);
        k = k + 1;
    }
    DecodedImage { width: WIDTH, height: HEIGHT, pixels }
}

/// Law: a frame of all-identical non-zero samples has coinciding bounds, a
/// range clamped to one, and a single uniform color over every pixel.
pub proof fn lemma_uniform_frame(s: Seq<u16>, v: u16)
    requires
        s.len() > 0,
        v != 0,
        forall|k: int| 0 <= k < s.len() ==> s[k] == v,
    ensures
        frame_min(s) == v,
        frame_max(s) == v,
        frame_range(s) == 1,
        forall|k: int| 0 <= k < s.len() ==> pixel_color(s, k) == pack_pixel(viridis_sample(0, 2)),
{
    assert(s[0] == v);
    assert(has_nonzero(s));
    lemma_uniform_fold(s, v);
    assert(wrap_delta(v, v) == 0);
}

/// Both folds of an all-identical non-zero frame land on the common value.
proof fn lemma_uniform_fold(s: Seq<u16>, v: u16)
    requires
        s.len() > 0,
        v != 0,
        forall|k: int| 0 <= k < s.len() ==> s[k] == v,
    ensures
        nz_min(s) == v,
        nz_max(s) == v,
    decreases s.len(),
{
    assert(s.last() == v);
    if s.len() == 1 {
        assert(s.drop_last().len() == 0);
        assert(nz_min(s.drop_last()) == 0);
        assert(nz_max(s.drop_last()) == 0);
    } else {
        assert(forall|k: int| 0 <= k < s.drop_last().len() ==> s.drop_last()[k] == v);
        lemma_uniform_fold(s.drop_last(), v);
    }
}

/// Law: a frame with no reading at all falls back to the full normalization
/// range, so the mapping stays well defined.
pub proof fn lemma_all_zero_frame(s: Seq<u16>)
    requires
        forall|k: int| 0 <= k < s.len() ==> s[k] == 0,
    ensures
        frame_min(s) == 0,
        frame_max(s) == 65535,
        frame_range(s) == 65535,
{
    assert(!has_nonzero(s)) by {
        if has_nonzero(s) {
            let i = choose|i: int| 0 <= i < s.len() && s[i] != 0;
            assert(s[i] == 0);
        }
    }
    lemma_no_nonzero(s);
}

} // verus!
