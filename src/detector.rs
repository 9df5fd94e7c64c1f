use vstd::prelude::*;
use crate::frame::{Frame, FrameModel, has_pixels, model_wf};

verus! {

/// The perceptual signature of a `width` x `height` RGBA image under the
/// fixed hashing configuration (gradient hash, 8 x 8, Lanczos3 filter).
pub uninterp spec fn perceptual_signature_of(width: u32, height: u32, pixels: Seq<u8>) -> Seq<u8>;

/// Relies on image_hasher's `HasherConfig::new().to_hasher().hash_image`
/// (gradient hash of 8 x 8 bits, Lanczos3 filter) and `ImageHash::as_bytes`:
/// the bytes of the hash depend on the image alone, and the 64 comparisons
/// of 8 rows of 9 values pack into 8 bytes. `image::RgbaImage::from_raw`
/// only wraps the buffer, which holds `4 * width * height` bytes.
#[verifier::external_body]
fn perceptual_signature(frame: &Frame) -> (r: Vec<u8>)
    requires
        frame.wf(),
        has_pixels(frame@),
    ensures
        r@ == perceptual_signature_of(frame.width, frame.height, frame.pixels@),
        r@.len() == 8,
{
    let image = image::RgbaImage::from_raw(frame.width, frame.height, frame.pixels.clone())
        .expect("the buffer holds one RGBA quadruple per pixel");
    let hasher = image_hasher::HasherConfig::new().to_hasher();
    hasher.hash_image(&image::DynamicImage::ImageRgba8(image)).as_bytes().to_vec()
}

/// Bit `i` of `x`, as 0 or 1.
pub open spec fn bit_of(x: u8, i: u8) -> nat {
    ((x >> i) & 1u8) as nat
}

/// Number of 1-bits of a byte.
pub open spec fn popcount(x: u8) -> nat {
    bit_of(x, 0) + bit_of(x, 1) + bit_of(x, 2) + bit_of(x, 3) + bit_of(x, 4) + bit_of(x, 5)
        + bit_of(x, 6) + bit_of(x, 7)
}

/// Differing bits over the first `n` byte pairs of `a` and `b`.
pub open spec fn hamming_upto(a: Seq<u8>, b: Seq<u8>, n: nat) -> nat
    decreases n,
{
    if n == 0 {
        0
    } else {
        hamming_upto(a, b, (n - 1) as nat) + popcount(a[n - 1] ^ b[n - 1])
    }
}

/// Hamming distance of two signatures: the differing bits over the bytes
/// that both have.
pub open spec fn hamming(a: Seq<u8>, b: Seq<u8>) -> nat {
    hamming_upto(a, b, if a.len() <= b.len() { a.len() } else { b.len() })
}

/// Two signatures differ when their lengths differ (they cannot come from
/// one configuration) or their Hamming distance is above zero.
pub open spec fn signature_differs(a: Seq<u8>, b: Seq<u8>) -> bool {
    a.len() != b.len() || hamming(a, b) > 0
}

/// Whether `current` counts as a change against `previous`. Frames with
/// pixels are compared by the Hamming distance of their signatures; a frame
/// without pixels has no signature and is compared exactly.
pub open spec fn frame_differs(current: FrameModel, previous: FrameModel) -> bool {
    if has_pixels(current) && has_pixels(previous) {
        signature_differs(
            perceptual_signature_of(current.0, current.1, current.2),
            perceptual_signature_of(previous.0, previous.1, previous.2),
        )
    } else {
        current != previous
    }
}

/// The change decision: a first frame is always a change.
pub open spec fn is_change(current: FrameModel, previous: Option<FrameModel>) -> bool {
    match previous {
        None => true,
        Some(p) => frame_differs(current, p),
    }
}

/// Two frames with the same dimensions and bit-identical pixel buffers are
/// never a change against each other.
pub proof fn lemma_identical_frames_unchanged(current: FrameModel, previous: FrameModel)
    requires
        current == previous,
    ensures
        !frame_differs(current, previous),
        !is_change(current, Some(previous)),
{
    lemma_hamming_self(perceptual_signature_of(current.0, current.1, current.2));
}

/// Two signatures of one length are at distance zero exactly when they are
/// equal.
pub proof fn lemma_hamming_zero_iff_equal(a: Seq<u8>, b: Seq<u8>)
    requires
        a.len() == b.len(),
    ensures
        hamming(a, b) == 0 <==> a == b,
{
    lemma_hamming_upto_zero(a, b, a.len());
    assert(a.subrange(0, a.len() as int) =~= a);
    assert(b.subrange(0, b.len() as int) =~= b);
}

/// Two signatures differ exactly when they are not equal.
pub proof fn lemma_signature_differs_iff_unequal(a: Seq<u8>, b: Seq<u8>)
    ensures
        signature_differs(a, b) <==> a != b,
{
    if a.len() == b.len() {
        lemma_hamming_zero_iff_equal(a, b);
    }
}

/// "Unchanged" is transitive: if `a` is no change against `b` and `b` none
/// against `c`, then `a` is none against `c`. It is equality of signatures
/// (or of frames without pixels), not a graduated similarity.
pub proof fn lemma_unchanged_transitive(a: FrameModel, b: FrameModel, c: FrameModel)
    requires
        !frame_differs(a, b),
        !frame_differs(b, c),
    ensures
        !frame_differs(a, c),
{
    lemma_signature_differs_iff_unequal(
        perceptual_signature_of(a.0, a.1, a.2),
        perceptual_signature_of(b.0, b.1, b.2),
    );
    lemma_signature_differs_iff_unequal(
        perceptual_signature_of(b.0, b.1, b.2),
        perceptual_signature_of(c.0, c.1, c.2),
    );
    lemma_signature_differs_iff_unequal(
        perceptual_signature_of(a.0, a.1, a.2),
        perceptual_signature_of(c.0, c.1, c.2),
    );
}

/// The first frame seen for a monitor is a change, whatever it holds.
pub proof fn lemma_first_frame_changed(current: FrameModel)
    ensures
        is_change(current, None),
{
}

proof fn lemma_popcount_bounds(x: u8)
    ensures
        popcount(x) <= 8,
        popcount(x) == 0 <==> x == 0,
{
    assert(((x >> 0u8) & 1u8) <= 1u8) by (bit_vector);
    assert(((x >> 1u8) & 1u8) <= 1u8) by (bit_vector);
    assert(((x >> 2u8) & 1u8) <= 1u8) by (bit_vector);
    assert(((x >> 3u8) & 1u8) <= 1u8) by (bit_vector);
    assert(((x >> 4u8) & 1u8) <= 1u8) by (bit_vector);
    assert(((x >> 5u8) & 1u8) <= 1u8) by (bit_vector);
    assert(((x >> 6u8) & 1u8) <= 1u8) by (bit_vector);
    assert(((x >> 7u8) & 1u8) <= 1u8) by (bit_vector);
    assert(x == 0u8 <==> (((x >> 0u8) & 1u8) == 0u8 && ((x >> 1u8) & 1u8) == 0u8 && ((x >> 2u8)
        & 1u8) == 0u8 && ((x >> 3u8) & 1u8) == 0u8 && ((x >> 4u8) & 1u8) == 0u8 && ((x >> 5u8)
        & 1u8) == 0u8 && ((x >> 6u8) & 1u8) == 0u8 && ((x >> 7u8) & 1u8) == 0u8)) by (bit_vector);
}

proof fn lemma_hamming_upto_bound(a: Seq<u8>, b: Seq<u8>, n: nat)
    ensures
        hamming_upto(a, b, n) <= 8 * n,
    decreases n,
{
    if n > 0 {
        lemma_hamming_upto_bound(a, b, (n - 1) as nat);
        lemma_popcount_bounds(a[n - 1] ^ b[n - 1]);
    }
}

/// The distance over a prefix is zero exactly when the two prefixes agree.
proof fn lemma_hamming_upto_zero(a: Seq<u8>, b: Seq<u8>, n: nat)
    requires
        n <= a.len(),
        n <= b.len(),
    ensures
        hamming_upto(a, b, n) == 0 <==> a.subrange(0, n as int) == b.subrange(0, n as int),
    decreases n,
{
    if n == 0 {
        assert(a.subrange(0, 0) =~= b.subrange(0, 0));
    } else {
        let m = (n - 1) as nat;
        lemma_hamming_upto_zero(a, b, m);
        let x = a[m as int];
        let y = b[m as int];
        lemma_popcount_bounds(x ^ y);
        assert((x ^ y) == 0u8 <==> x == y) by (bit_vector);
        if a.subrange(0, n as int) == b.subrange(0, n as int) {
            assert(a.subrange(0, m as int) =~= a.subrange(0, n as int).subrange(0, m as int));
            assert(b.subrange(0, m as int) =~= b.subrange(0, n as int).subrange(0, m as int));
            assert(a.subrange(0, n as int)[m as int] == b.subrange(0, n as int)[m as int]);
        }
        if hamming_upto(a, b, n) == 0 {
            assert(a.subrange(0, n as int) =~= b.subrange(0, n as int)) by {
                assert(a.subrange(0, n as int) =~= a.subrange(0, m as int).push(x));
                assert(b.subrange(0, n as int) =~= b.subrange(0, m as int).push(y));
            }
        }
    }
}

/// A signature is at distance zero from itself.
pub proof fn lemma_hamming_self(a: Seq<u8>)
    ensures
        hamming(a, a) == 0,
{
    lemma_hamming_upto_zero(a, a, a.len());
}

fn popcount_exec(x: u8) -> (r: u32)
    ensures
        r == popcount(x),
{
    proof {
        lemma_popcount_bounds(x);
    }
    let mut count: u32 = 0;
    let mut i: u8 = 0;
    while i < 8
        invariant
            i <= 8,
            count <= i,
            count == (if i > 0 { bit_of(x, 0) } else { 0 }) + (if i > 1 { bit_of(x, 1) } else { 0 })
                + (if i > 2 { bit_of(x, 2) } else { 0 }) + (if i > 3 { bit_of(x, 3) } else { 0 })
                + (if i > 4 { bit_of(x, 4) } else { 0 }) + (if i > 5 { bit_of(x, 5) } else { 0 })
                + (if i > 6 { bit_of(x, 6) } else { 0 }) + (if i > 7 { bit_of(x, 7) } else { 0 }),
        decreases 8 - i,
    {
        let b: u8 = (x >> i) & 1u8;
        assert(((x >> i) & 1u8) <= 1u8) by (bit_vector);
        count = count + b as u32;
        i = i + 1;
    }
    count
}

/// Hamming distance of two signatures: the number of differing bits over
/// the bytes that both have.
pub fn hamming_distance(a: &Vec<u8>, b: &Vec<u8>) -> (r: u64)
    requires
        a@.len() <= 0x1fff_ffff_ffff_ffff,
    ensures
        r == hamming(a@, b@),
{
    let n: usize = if a.len() <= b.len() { a.len() } else { b.len() };
    let mut total: u64 = 0;
    let mut i: usize = 0;
    while i < n
        invariant
            n == (if a@.len() <= b@.len() { a@.len() } else { b@.len() }),
            i <= n,
            n <= 0x1fff_ffff_ffff_ffff,
            total == hamming_upto(a@, b@, i as nat),
        decreases n - i,
    {
        proof {
            lemma_hamming_upto_bound(a@, b@, (i + 1) as nat);
        }
        let c = popcount_exec(a[i] ^ b[i]);
        total = total + c as u64;
        i = i + 1;
    }
    total
}

/// Whether two signatures differ: in length, or by a Hamming distance
/// above zero. Only bit-identical signatures count as the same image.
pub fn signatures_differ(a: &Vec<u8>, b: &Vec<u8>) -> (r: bool)
    ensures
        r == signature_differs(a@, b@),
{
    if a.len() != b.len() {
        return true;
    }
    let n: usize = if a.len() <= b.len() { a.len() } else { b.len() };
    proof {
        lemma_hamming_upto_zero(a@, b@, n as nat);
    }
    let mut i: usize = 0;
    while i < n
        invariant
            n == (if a@.len() <= b@.len() { a@.len() } else { b@.len() }),
            i <= n,
            forall|j: int| 0 <= j < i ==> a@[j] == b@[j],
        decreases n - i,
    {
        if a[i] != b[i] {
            assert(a@.subrange(0, n as int)[i as int] != b@.subrange(0, n as int)[i as int]);
            assert(a@.subrange(0, n as int) != b@.subrange(0, n as int));
            proof {
                lemma_hamming_upto_zero(a@, b@, n as nat);
            }
            return true;
        }
        i = i + 1;
    }
    assert(a@.subrange(0, n as int) =~= b@.subrange(0, n as int));
    false
}

/// Decides whether `current` is a change against the last accepted frame
/// of its monitor (`None`: nothing accepted yet, which is always a change).
pub fn is_image_different_enough(current: &Frame, previous: Option<&Frame>) -> (r: bool)
    requires
        current.wf(),
        previous matches Some(p) ==> p.wf(),
    ensures
        r == is_change(current@, match previous { Some(p) => Some(p@), None => None }),
{
    match previous {
        None => true,
        Some(p) => {
            if current.width > 0 && current.height > 0 && p.width > 0 && p.height > 0 {
                let sc = perceptual_signature(current);
                let sp = perceptual_signature(p);
                signatures_differ(&sc, &sp)
            } else {
                frames_equal(current, p) == false
            }
        }
    }
}

/// Exact comparison of two frames: dimensions and every byte.
fn frames_equal(a: &Frame, b: &Frame) -> (r: bool)
    ensures
        r == (a@ == b@),
{
    if a.width != b.width || a.height != b.height || a.pixels.len() != b.pixels.len() {
        return false;
    }
    let n = a.pixels.len();
    let mut i: usize = 0;
    while i < n
        invariant
            n == a.pixels@.len(),
            n == b.pixels@.len(),
            i <= n,
            forall|j: int| 0 <= j < i ==> a.pixels@[j] == b.pixels@[j],
        decreases n - i,
    {
        if a.pixels[i] != b.pixels[i] {
            return false;
        }
        i = i + 1;
    }
    assert(a.pixels@ =~= b.pixels@);
    true
}

} // verus!
