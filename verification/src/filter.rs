//! Post-processing filters on RGBA pixel buffers: which filter a name
//! selects, and the colour inversion.

use vstd::prelude::*;

verus! {

/// The filter a name selects.
#[derive(Clone, Copy, Debug, PartialEq, Eq, Structural)]
pub enum FilterKind {
    /// `"grayscale"`: each pixel's colour channels become its luminance.
    Grayscale,
    /// `"invert"`: each colour channel `v` becomes `255 - v`.
    Invert,
    /// `"vignette"`: pixels darken with their distance from the centre.
    Vignette,
    /// Any other name: the pixels are left as they are.
    Unchanged,
}

/// The filter that the name `name` selects.
pub open spec fn spec_filter_kind(name: Seq<char>) -> FilterKind {
    if name == "grayscale"@ {
        FilterKind::Grayscale
    } else if name == "invert"@ {
        FilterKind::Invert
    } else if name == "vignette"@ {
        FilterKind::Vignette
    } else {
        FilterKind::Unchanged
    }
}

/// The two strings hold the same characters.
fn str_equals(a: &str, b: &str) -> (eq: bool)
    ensures
        eq == (a@ == b@),
{
    let n = a.unicode_len();
    if n != b.unicode_len() {
        return false;
    }
    let mut i: usize = 0;
    while i < n
        invariant
            n == a@.len(),
            n == b@.len(),
            i <= n,
            forall|j: int| 0 <= j < i ==> a@[j] == b@[j],
        decreases n - i,
    {
        if a.get_char(i) != b.get_char(i) {
            return false;
        }
        i = i + 1;
    }
    assert(a@ =~= b@);
    true
}

/// The filter that the name `name` selects.
pub fn filter_kind(name: &str) -> (kind: FilterKind)
    ensures
        kind == spec_filter_kind(name@),
{
    if str_equals(name, "grayscale") {
        FilterKind::Grayscale
    } else if str_equals(name, "invert") {
        FilterKind::Invert
    } else if str_equals(name, "vignette") {
        FilterKind::Vignette
    } else {
        FilterKind::Unchanged
    }
}

/// Each filter is selected by exactly one name: "grayscale", "invert" or
/// "vignette"; every other name leaves the pixels unchanged.
pub proof fn lemma_filter_names(name: Seq<char>)
    ensures
        spec_filter_kind(name) == FilterKind::Grayscale <==> name == "grayscale"@,
        spec_filter_kind(name) == FilterKind::Invert <==> name == "invert"@,
        spec_filter_kind(name) == FilterKind::Vignette <==> name == "vignette"@,
        spec_filter_kind(name) == FilterKind::Unchanged <==> (name != "grayscale"@ && name
            != "invert"@ && name != "vignette"@),
{
    reveal_strlit("grayscale");
    reveal_strlit("invert");
    reveal_strlit("vignette");
    assert("grayscale"@.len() == 9 && "invert"@.len() == 6 && "vignette"@.len() == 8);
    assert("grayscale"@ != "invert"@);
    assert("grayscale"@ != "vignette"@);
    assert("invert"@ != "vignette"@);
}

/// Byte `j` of an RGBA buffer of `len` bytes is a colour channel of a whole
/// pixel: it lies in the first `len / 4` pixels and is not an alpha byte.
pub open spec fn is_color_byte(len: nat, j: int) -> bool {
    0 <= j < len / 4 * 4 && j % 4 != 3
}

/// The buffer `pixels` with the colour channels of every whole pixel
/// inverted; alpha bytes and trailing bytes of a partial pixel are kept.
pub open spec fn inverted(pixels: Seq<u8>) -> Seq<u8> {
    Seq::new(
        pixels.len(),
        |j: int|
            if is_color_byte(pixels.len(), j) {
                (255 - pixels[j]) as u8
            } else {
                pixels[j]
            },
    )
}

/// Inverts the colour channels of every whole pixel of an RGBA buffer.
pub fn invert_pixels(pixels: Vec<u8>) -> (out: Vec<u8>)
    ensures
        out@ == inverted(pixels@),
{
    let mut pixels = pixels;
    let ghost original = pixels@;
    let len = pixels.len();
    let num_pixels = len / 4;
    let mut i: usize = 0;
    while i < num_pixels
        invariant
            len == pixels@.len(),
            len == original.len(),
            num_pixels == len / 4,
            i <= num_pixels,
            forall|j: int|
                0 <= j < len ==> pixels@[j] == (if j < 4 * i && j % 4 != 3 {
                    (255 - original[j]) as u8
                } else {
                    original[j]
                }),
        decreases num_pixels - i,
    {
        let b = i * 4;
        let r = 255 - pixels[b];
        pixels.set(b, r);
        let g = 255 - pixels[b + 1];
        pixels.set(b + 1, g);
        let bl = 255 - pixels[b + 2];
        pixels.set(b + 2, bl);
        i = i + 1;
    }
    assert(pixels@ =~= inverted(original));
    pixels
}

/// Each inverted colour byte and the byte it came from add up to 255.
pub proof fn lemma_invert_complements(pixels: Seq<u8>, j: int)
    requires
        0 <= j < pixels.len() / 4 * 4,
        j % 4 != 3,
    ensures
        inverted(pixels)[j] + pixels[j] == 255,
{
}

/// Inverting twice gives back the buffer that was inverted.
pub proof fn lemma_invert_twice(pixels: Seq<u8>)
    ensures
        inverted(inverted(pixels)) == pixels,
{
    assert(inverted(inverted(pixels)) =~= pixels);
}

/// Inversion keeps the length, every alpha byte and the trailing bytes of a
/// partial pixel.
pub proof fn lemma_invert_keeps_alpha(pixels: Seq<u8>, j: int)
    requires
        0 <= j < pixels.len(),
        !is_color_byte(pixels.len(), j),
    ensures
        inverted(pixels).len() == pixels.len(),
        inverted(pixels)[j] == pixels[j],
{
}

} // verus!
