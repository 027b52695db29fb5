//! Byte images of numeric arrays, as they are uploaded to GPU buffers.
//!
//! Elements are laid out one after another, least significant byte first,
//! with no padding between them.

use vstd::prelude::*;

verus! {

/// The four bytes of a 32-bit element, least significant first.
pub open spec fn word_bytes(w: u32) -> Seq<u8> {
    seq![
        (w as int % 256) as u8,
        (w as int / 256 % 256) as u8,
        (w as int / 65536 % 256) as u8,
        (w as int / 16777216 % 256) as u8,
    ]
}

/// The two bytes of a 16-bit element, least significant first.
pub open spec fn half_bytes(h: u16) -> Seq<u8> {
    seq![(h as int % 256) as u8, (h as int / 256 % 256) as u8]
}

/// The byte image of a sequence of 32-bit elements.
pub open spec fn words_image(s: Seq<u32>) -> Seq<u8>
    decreases s.len(),
{
    if s.len() == 0 {
        Seq::empty()
    } else {
        words_image(s.drop_last()) + word_bytes(s.last())
    }
}

/// The byte image of a sequence of 16-bit elements.
pub open spec fn halves_image(s: Seq<u16>) -> Seq<u8>
    decreases s.len(),
{
    if s.len() == 0 {
        Seq::empty()
    } else {
        halves_image(s.drop_last()) + half_bytes(s.last())
    }
}

/// The image of 32-bit elements has four bytes per element, and the bytes of
/// element `i` stand at offsets `4 * i .. 4 * i + 4`.
pub proof fn lemma_words_image_layout(s: Seq<u32>)
    ensures
        words_image(s).len() == 4 * s.len(),
        forall|i: int, k: int|
            0 <= i < s.len() && 0 <= k < 4 ==> #[trigger] words_image(s)[4 * i + k]
                == word_bytes(s[i])[k],
    decreases s.len(),
{
    if s.len() > 0 {
        lemma_words_image_layout(s.drop_last());
        let head = words_image(s.drop_last());
        assert forall|i: int, k: int| 0 <= i < s.len() && 0 <= k < 4 implies #[trigger] words_image(
            s,
        )[4 * i + k] == word_bytes(s[i])[k] by {
            if i < s.len() - 1 {
                assert(head[4 * i + k] == word_bytes(s.drop_last()[i])[k]);
            }
        }
    }
}

/// The image of 16-bit elements has two bytes per element, and the bytes of
/// element `i` stand at offsets `2 * i .. 2 * i + 2`.
pub proof fn lemma_halves_image_layout(s: Seq<u16>)
    ensures
        halves_image(s).len() == 2 * s.len(),
        forall|i: int, k: int|
            0 <= i < s.len() && 0 <= k < 2 ==> #[trigger] halves_image(s)[2 * i + k]
                == half_bytes(s[i])[k],
    decreases s.len(),
{
    if s.len() > 0 {
        lemma_halves_image_layout(s.drop_last());
        let head = halves_image(s.drop_last());
        assert forall|i: int, k: int| 0 <= i < s.len() && 0 <= k < 2 implies #[trigger] halves_image(
            s,
        )[2 * i + k] == half_bytes(s[i])[k] by {
            if i < s.len() - 1 {
                assert(head[2 * i + k] == half_bytes(s.drop_last()[i])[k]);
            }
        }
    }
}

/// A 32-bit element is recovered from its four bytes: no bit is lost.
pub proof fn lemma_word_bytes_exact(w: u32)
    ensures
        word_bytes(w).len() == 4,
        w == word_bytes(w)[0] as int + 256 * (word_bytes(w)[1] as int) + 65536 * (word_bytes(
            w,
        )[2] as int) + 16777216 * (word_bytes(w)[3] as int),
{
}

/// A 16-bit element is recovered from its two bytes: no bit is lost.
pub proof fn lemma_half_bytes_exact(h: u16)
    ensures
        half_bytes(h).len() == 2,
        h == half_bytes(h)[0] as int + 256 * (half_bytes(h)[1] as int),
{
}

/// Lays out 32-bit elements as bytes for upload.
pub fn words_into_bytes(v: &Vec<u32>) -> (out: Vec<u8>)
    ensures
        out@ == words_image(v@),
{
    let mut out: Vec<u8> = Vec::new();
    let mut i: usize = 0;
    while i < v.len()
        invariant
            i <= v.len(),
            out@ == words_image(v@.take(i as int)),
        decreases v.len() - i,
    {
        let w: u32 = v[i];
        let b0: u8 = (w % 256) as u8;
        let b1: u8 = (w / 256 % 256) as u8;
        let b2: u8 = (w / 65536 % 256) as u8;
        let b3: u8 = (w / 16777216 % 256) as u8;
        out.push(b0);
        out.push(b1);
        out.push(b2);
        out.push(b3);
        proof {
            let next = v@.take(i + 1);
            assert(next.drop_last() =~= v@.take(i as int));
            assert(next.last() == w);
            assert(out@ =~= words_image(v@.take(i as int)) + word_bytes(w));
        }
        i = i + 1;
    }
    proof {
        assert(v@.take(i as int) =~= v@);
    }
    out
}

/// Lays out 16-bit elements as bytes for upload.
pub fn halves_into_bytes(v: &Vec<u16>) -> (out: Vec<u8>)
    ensures
        out@ == halves_image(v@),
{
    let mut out: Vec<u8> = Vec::new();
    let mut i: usize = 0;
    while i < v.len()
        invariant
            i <= v.len(),
            out@ == halves_image(v@.take(i as int)),
        decreases v.len() - i,
    {
        let h: u16 = v[i];
        let b0: u8 = (h % 256) as u8;
        let b1: u8 = (h / 256 % 256) as u8;
        out.push(b0);
        out.push(b1);
        proof {
            let next = v@.take(i + 1);
            assert(next.drop_last() =~= v@.take(i as int));
            assert(next.last() == h);
            assert(out@ =~= halves_image(v@.take(i as int)) + half_bytes(h));
        }
        i = i + 1;
    }
    proof {
        assert(v@.take(i as int) =~= v@);
    }
    out
}

} // verus!
