//! Assembly of a rendered texture: 2x2 supersampled colours are averaged
//! per pixel and laid out as opaque RGBA bytes, row by row.

use vstd::prelude::*;

use crate::palette::Rgb;

verus! {

/// Samples taken per pixel (a 2x2 grid).
pub const SAMPLES_PER_PIXEL: usize = 4;

/// Channel `k` (0 red, 1 green, 2 blue) of a colour.
pub open spec fn channel(c: Rgb, k: int) -> u8 {
    if k == 0 { c.r } else if k == 1 { c.g } else { c.b }
}

/// The average, rounded down, of channel `k` over the four samples of pixel
/// `p`.
pub open spec fn sample_average(samples: Seq<Rgb>, p: int, k: int) -> u8 {
    ((channel(samples[4 * p], k) + channel(samples[4 * p + 1], k) + channel(samples[4 * p + 2], k)
        + channel(samples[4 * p + 3], k)) / 4) as u8
}

/// The RGBA bytes of the pixels whose samples are `samples`, four per pixel:
/// each colour channel is the average of its samples and alpha is 255.
pub open spec fn texture_bytes(samples: Seq<Rgb>) -> Seq<u8> {
    Seq::new(
        (samples.len() / 4 * 4) as nat,
        |j: int|
            if j % 4 == 3 {
                255u8
            } else {
                sample_average(samples, j / 4, j % 4)
            },
    )
}

/// The average of four samples, channel by channel, rounded down.
pub fn average_samples(a: Rgb, b: Rgb, c: Rgb, d: Rgb) -> (avg: Rgb)
    ensures
        avg.r == (a.r + b.r + c.r + d.r) / 4,
        avg.g == (a.g + b.g + c.g + d.g) / 4,
        avg.b == (a.b + b.b + c.b + d.b) / 4,
{
    let r = (a.r as u32 + b.r as u32 + c.r as u32 + d.r as u32) / 4;
    let g = (a.g as u32 + b.g as u32 + c.g as u32 + d.g as u32) / 4;
    let bl = (a.b as u32 + b.b as u32 + c.b as u32 + d.b as u32) / 4;
    Rgb { r: r as u8, g: g as u8, b: bl as u8 }
}

/// The RGBA texture of `width` by `height` pixels whose colour samples are
/// `samples`: four per pixel, pixels row by row from the top left, and the
/// samples of a pixel in the order top left, top right, bottom left, bottom
/// right. A texture with no width or no height has no bytes.
pub fn compose_texture(width: u32, height: u32, samples: &Vec<Rgb>) -> (pixels: Vec<u8>)
    requires
        width == 0 || height == 0 || samples@.len() == 4 * (width as int * height as int),
    ensures
        (width == 0 || height == 0) ==> pixels@.len() == 0,
        !(width == 0 || height == 0) ==> pixels@ == texture_bytes(samples@),
        !(width == 0 || height == 0) ==> pixels@.len() == 4 * (width as int * height as int),
{
    if width == 0 || height == 0 {
        return Vec::new();
    }
    let len = samples.len();
    let n = len / SAMPLES_PER_PIXEL;
    let mut pixels: Vec<u8> = Vec::new();
    let mut p: usize = 0;
    while p < n
        invariant
            len == samples@.len(),
            n == len / 4,
            p <= n,
            pixels@.len() == 4 * p,
            forall|j: int| 0 <= j < 4 * p ==> pixels@[j] == texture_bytes(samples@)[j],
        decreases n - p,
    {
        assert(4 * p + 3 < samples@.len());
        let avg = average_samples(
            samples[4 * p],
            samples[4 * p + 1],
            samples[4 * p + 2],
            samples[4 * p + 3],
        );
        pixels.push(avg.r);
        pixels.push(avg.g);
        pixels.push(avg.b);
        pixels.push(255);
        p = p + 1;
    }
    assert(pixels@ =~= texture_bytes(samples@));
    pixels
}

/// A pixel whose four samples have one colour gets exactly that colour,
/// and every pixel is opaque.
pub proof fn lemma_solid_pixel(samples: Seq<Rgb>, p: int)
    requires
        0 <= p < samples.len() / 4,
        samples[4 * p + 1] == samples[4 * p],
        samples[4 * p + 2] == samples[4 * p],
        samples[4 * p + 3] == samples[4 * p],
    ensures
        texture_bytes(samples)[4 * p] == samples[4 * p].r,
        texture_bytes(samples)[4 * p + 1] == samples[4 * p].g,
        texture_bytes(samples)[4 * p + 2] == samples[4 * p].b,
        texture_bytes(samples)[4 * p + 3] == 255,
{
}

/// Each colour byte of pixel `p` is the floor of the mean of that channel
/// over all four of the pixel's samples, and its alpha byte is 255; so a
/// pixel does not depend on the order of its samples.
pub proof fn lemma_pixel_is_mean(samples: Seq<Rgb>, p: int)
    requires
        0 <= p < samples.len() / 4,
    ensures
        texture_bytes(samples).len() == samples.len() / 4 * 4,
        texture_bytes(samples)[4 * p] == (samples[4 * p].r + samples[4 * p + 1].r + samples[4 * p
            + 2].r + samples[4 * p + 3].r) / 4,
        texture_bytes(samples)[4 * p + 1] == (samples[4 * p].g + samples[4 * p + 1].g + samples[4
            * p + 2].g + samples[4 * p + 3].g) / 4,
        texture_bytes(samples)[4 * p + 2] == (samples[4 * p].b + samples[4 * p + 1].b + samples[4
            * p + 2].b + samples[4 * p + 3].b) / 4,
        texture_bytes(samples)[4 * p + 3] == 255,
{
    assert((4 * p) / 4 == p && (4 * p) % 4 == 0);
    assert((4 * p + 1) / 4 == p && (4 * p + 1) % 4 == 1);
    assert((4 * p + 2) / 4 == p && (4 * p + 2) % 4 == 2);
    assert((4 * p + 3) / 4 == p && (4 * p + 3) % 4 == 3);
}

/// Reordering the four samples of a pixel leaves the texture unchanged:
/// here, the samples of pixel `p` are swapped pairwise (first with third,
/// second with fourth), which moves top samples to the bottom.
pub proof fn lemma_pixel_sample_order(samples: Seq<Rgb>, p: int)
    requires
        0 <= p < samples.len() / 4,
    ensures
        texture_bytes(samples) == texture_bytes(
            samples.update(4 * p, samples[4 * p + 2]).update(4 * p + 2, samples[4 * p]).update(
                4 * p + 1,
                samples[4 * p + 3],
            ).update(4 * p + 3, samples[4 * p + 1]),
        ),
{
    let swapped = samples.update(4 * p, samples[4 * p + 2]).update(4 * p + 2, samples[4 * p]).update(
        4 * p + 1,
        samples[4 * p + 3],
    ).update(4 * p + 3, samples[4 * p + 1]);
    assert forall|j: int| 0 <= j < texture_bytes(samples).len() implies texture_bytes(samples)[j]
        == texture_bytes(swapped)[j] by {
        let q = j / 4;
        lemma_pixel_is_mean(samples, q);
        lemma_pixel_is_mean(swapped, q);
        if q == p {
            assert(swapped[4 * p] == samples[4 * p + 2]);
            assert(swapped[4 * p + 1] == samples[4 * p + 3]);
            assert(swapped[4 * p + 2] == samples[4 * p]);
            assert(swapped[4 * p + 3] == samples[4 * p + 1]);
        } else {
            assert(swapped[4 * q] == samples[4 * q]);
            assert(swapped[4 * q + 1] == samples[4 * q + 1]);
            assert(swapped[4 * q + 2] == samples[4 * q + 2]);
            assert(swapped[4 * q + 3] == samples[4 * q + 3]);
        }
        assert(j == 4 * q || j == 4 * q + 1 || j == 4 * q + 2 || j == 4 * q + 3);
    }
    assert(texture_bytes(samples) =~= texture_bytes(swapped));
}

} // verus!
