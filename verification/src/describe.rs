//! The JSON descriptor of a flag, as used for SVG export: the layout's kind,
//! its parameters, and the palette as `"#rrggbb"` strings.

use vstd::prelude::*;

use crate::layout::Layout;
use crate::palette::Rgb;

verus! {

/// The lowercase hexadecimal digit of `d`, for `d < 16`.
pub open spec fn hex_digit(d: nat) -> char {
    if d == 0 { '0' } else if d == 1 { '1' } else if d == 2 { '2' } else if d == 3 { '3' }
    else if d == 4 { '4' } else if d == 5 { '5' } else if d == 6 { '6' } else if d == 7 { '7' }
    else if d == 8 { '8' } else if d == 9 { '9' } else if d == 10 { 'a' } else if d == 11 { 'b' }
    else if d == 12 { 'c' } else if d == 13 { 'd' } else if d == 14 { 'e' } else { 'f' }
}

/// The decimal notation of `n`, without leading zeros.
pub open spec fn decimal_text(n: nat) -> Seq<char>
    decreases n,
{
    if n < 10 {
        seq![hex_digit(n)]
    } else {
        decimal_text(n / 10).push(hex_digit(n % 10))
    }
}

/// Two lowercase hexadecimal digits for a byte.
pub open spec fn hex_byte_text(b: u8) -> Seq<char> {
    seq![hex_digit((b / 16) as nat), hex_digit((b % 16) as nat)]
}

/// A colour as a JSON string `"#rrggbb"`.
#[verifier::opaque]
pub open spec fn color_text(c: Rgb) -> Seq<char> {
    seq!['"', '#'] + hex_byte_text(c.r) + hex_byte_text(c.g) + hex_byte_text(c.b) + seq!['"']
}

/// The colours of a palette as JSON strings separated by commas.
pub open spec fn colors_text(palette: Seq<Rgb>) -> Seq<char>
    decreases palette.len(),
{
    if palette.len() == 0 {
        Seq::empty()
    } else if palette.len() == 1 {
        color_text(palette[0])
    } else {
        colors_text(palette.drop_last()) + seq![','] + color_text(palette.last())
    }
}

/// A JSON boolean.
pub open spec fn bool_text(b: bool) -> Seq<char> {
    if b { "true"@ } else { "false"@ }
}

/// A fraction given in quarters, with four decimals.
pub open spec fn quarter_text(q: u32) -> Seq<char> {
    if q == 0 {
        "0.0000"@
    } else if q == 1 {
        "0.2500"@
    } else if q == 2 {
        "0.5000"@
    } else if q == 3 {
        "0.7500"@
    } else {
        "1.0000"@
    }
}

/// The value of a lowercase hexadecimal digit.
pub open spec fn hex_value(c: char) -> int {
    if '0' <= c <= '9' {
        c as int - '0' as int
    } else {
        c as int - 'a' as int + 10
    }
}

/// Every value below 16 prints as a lowercase hexadecimal digit that reads
/// back as that value.
pub proof fn lemma_hex_digit_value(d: nat)
    requires
        d < 16,
    ensures
        ('0' <= hex_digit(d) <= '9') || ('a' <= hex_digit(d) <= 'f'),
        hex_value(hex_digit(d)) == d,
{
}

/// The value of a text of decimal digits.
pub open spec fn decimal_value(t: Seq<char>) -> int
    decreases t.len(),
{
    if t.len() == 0 {
        0
    } else {
        10 * decimal_value(t.drop_last()) + (t.last() as int - '0' as int)
    }
}

/// The decimal notation of `n` is a nonempty text of digits, with no
/// leading zero unless it is `0`, that reads back as `n`.
pub proof fn lemma_decimal_text_value(n: nat)
    ensures
        decimal_text(n).len() >= 1,
        forall|i: int| 0 <= i < decimal_text(n).len() ==> '0' <= #[trigger] decimal_text(n)[i] <= '9',
        n > 0 ==> decimal_text(n)[0] != '0',
        decimal_value(decimal_text(n)) == n,
    decreases n,
{
    if n >= 10 {
        lemma_decimal_text_value(n / 10);
        lemma_hex_digit_value(n % 10);
        let t = decimal_text(n);
        assert(t.drop_last() == decimal_text(n / 10));
        assert(t[0] == decimal_text(n / 10)[0]);
        assert(t.last() == hex_digit(n % 10));
        assert(t.last() as int - '0' as int == n % 10);
        assert(decimal_value(t) == 10 * decimal_value(decimal_text(n / 10)) + n % 10);
        assert(n == 10 * (n / 10) + n % 10);
    } else {
        lemma_hex_digit_value(n);
        let t = decimal_text(n);
        assert(t.drop_last() =~= Seq::<char>::empty());
        assert(decimal_value(t) == 10 * decimal_value(t.drop_last()) + (t.last() as int - '0' as int));
    }
}

/// A colour prints as nine characters `"#rrggbb"` whose hexadecimal pairs
/// read back as its red, green and blue bytes.
pub proof fn lemma_color_text_value(c: Rgb)
    ensures
        color_text(c).len() == 9,
        color_text(c)[0] == '"',
        color_text(c)[1] == '#',
        color_text(c)[8] == '"',
        16 * hex_value(color_text(c)[2]) + hex_value(color_text(c)[3]) == c.r,
        16 * hex_value(color_text(c)[4]) + hex_value(color_text(c)[5]) == c.g,
        16 * hex_value(color_text(c)[6]) + hex_value(color_text(c)[7]) == c.b,
{
    reveal(color_text);
    lemma_hex_digit_value((c.r / 16) as nat);
    lemma_hex_digit_value((c.r % 16) as nat);
    lemma_hex_digit_value((c.g / 16) as nat);
    lemma_hex_digit_value((c.g % 16) as nat);
    lemma_hex_digit_value((c.b / 16) as nat);
    lemma_hex_digit_value((c.b % 16) as nat);
}

/// The character that follows entry `i` of a palette text.
pub open spec fn char_after_entry(t: Seq<char>, i: int) -> char {
    t[10 * i + 9]
}

/// The palette text holds each colour's nine characters in palette order,
/// one after another, with a comma between neighbours and nothing else.
#[verifier::rlimit(40)]
pub proof fn lemma_colors_text_layout(palette: Seq<Rgb>)
    ensures
        colors_text(palette).len() == if palette.len() == 0 { 0 } else { 10 * palette.len() - 1 },
        forall|i: int|
            0 <= i < palette.len() ==> colors_text(palette).subrange(10 * i, 10 * i + 9)
                == color_text(#[trigger] palette[i]),
        forall|i: int|
            0 <= i < palette.len() - 1 ==> #[trigger] char_after_entry(colors_text(palette), i)
                == ',',
    decreases palette.len(),
{
    if palette.len() == 1 {
        lemma_color_text_value(palette[0]);
        assert(colors_text(palette).subrange(0, 9) =~= color_text(palette[0]));
    } else if palette.len() > 1 {
        let front = palette.drop_last();
        lemma_colors_text_layout(front);
        lemma_color_text_value(palette.last());
        let t = colors_text(palette);
        let ft = colors_text(front);
        assert(t == ft + seq![','] + color_text(palette.last()));
        assert(t.len() == 10 * palette.len() - 1);
        assert forall|i: int| 0 <= i < palette.len() implies t.subrange(10 * i, 10 * i + 9)
            == color_text(#[trigger] palette[i]) by {
            if i < palette.len() - 1 {
                assert(front[i] == palette[i]);
                assert(t.subrange(10 * i, 10 * i + 9) =~= ft.subrange(10 * i, 10 * i + 9));
            } else {
                assert(t.subrange(10 * i, 10 * i + 9) =~= color_text(palette.last()));
            }
        }
        assert forall|i: int| 0 <= i < palette.len() - 1 implies #[trigger] char_after_entry(t, i)
            == ',' by {
            if i < palette.len() - 2 {
                assert(char_after_entry(ft, i) == ',');
                assert(t[10 * i + 9] == ft[10 * i + 9]);
            } else {
                assert(t[10 * i + 9] == ',');
            }
        }
    }
}

/// `c` is a decimal digit.
pub open spec fn is_digit(c: char) -> bool {
    '0' <= c <= '9'
}

/// The value of a decimal digit.
pub open spec fn digit_value(c: char) -> int {
    c as int - '0' as int
}

/// For every quarter count `q` from 0 to 4 the printed fraction has the form
/// `d.dddd`, and read back as a decimal it is `q / 4`: ten thousand times its
/// value is `2500 * q`. So distinct quarters print distinct texts, and four
/// quarters print `1.0000`.
pub proof fn lemma_quarter_text_value(q: u32)
    requires
        q <= 4,
    ensures
        quarter_text(q).len() == 6,
        quarter_text(q)[1] == '.',
        is_digit(quarter_text(q)[0]),
        is_digit(quarter_text(q)[2]),
        is_digit(quarter_text(q)[3]),
        is_digit(quarter_text(q)[4]),
        is_digit(quarter_text(q)[5]),
        10000 * digit_value(quarter_text(q)[0]) + 1000 * digit_value(quarter_text(q)[2]) + 100
            * digit_value(quarter_text(q)[3]) + 10 * digit_value(quarter_text(q)[4]) + digit_value(
            quarter_text(q)[5],
        ) == 2500 * q,
{
    reveal_strlit("0.0000");
    reveal_strlit("0.2500");
    reveal_strlit("0.5000");
    reveal_strlit("0.7500");
    reveal_strlit("1.0000");
}

/// The JSON descriptor of a flag with layout `layout` and palette `palette`,
/// where `thickness` and `star_scale` are the texts, with four decimals, of
/// the cross thickness and star scale fractions of the layouts that have
/// them.
pub open spec fn layout_text(
    layout: Layout,
    palette: Seq<Rgb>,
    thickness: Seq<char>,
    star_scale: Seq<char>,
) -> Seq<char> {
    let colors = ",\"colors\":["@ + colors_text(palette) + "]}"@;
    match layout {
        Layout::HorizontalStripes { bands, wide_middle } => "{\"type\":\"horizontal_stripes\",\"bands\":"@
            + decimal_text(bands as nat) + ",\"wideMiddle\":"@ + bool_text(wide_middle) + colors,
        Layout::VerticalStripes { wide_middle } => "{\"type\":\"vertical_stripes\",\"bands\":3,\"wideMiddle\":"@
            + bool_text(wide_middle) + colors,
        Layout::NordicCross { .. } => "{\"type\":\"nordic_cross\",\"thicknessFrac\":"@ + thickness
            + colors,
        Layout::Canton => "{\"type\":\"canton\""@ + colors,
        Layout::RisingSun { rays, cx_quarters, cy_quarters } => "{\"type\":\"rising_sun\",\"rays\":"@
            + decimal_text(rays as nat) + ",\"cxFrac\":"@ + quarter_text(cx_quarters)
            + ",\"cyFrac\":"@ + quarter_text(cy_quarters) + colors,
        Layout::NordicStar { .. } => "{\"type\":\"nordic_star\",\"thicknessFrac\":"@ + thickness
            + ",\"starScale\":"@ + star_scale + colors,
        Layout::Chevron => "{\"type\":\"chevron\""@ + colors,
    }
}

/// Appends the hexadecimal digit of `d`.
fn push_hex_digit(s: &mut String, d: u8)
    requires
        d < 16,
    ensures
        final(s)@ == old(s)@.push(hex_digit(d as nat)),
{
    let digit: &str = match d {
        0 => "0",
        1 => "1",
        2 => "2",
        3 => "3",
        4 => "4",
        5 => "5",
        6 => "6",
        7 => "7",
        8 => "8",
        9 => "9",
        10 => "a",
        11 => "b",
        12 => "c",
        13 => "d",
        14 => "e",
        _ => "f",
    };
    proof {
        reveal_strlit("0");
        reveal_strlit("1");
        reveal_strlit("2");
        reveal_strlit("3");
        reveal_strlit("4");
        reveal_strlit("5");
        reveal_strlit("6");
        reveal_strlit("7");
        reveal_strlit("8");
        reveal_strlit("9");
        reveal_strlit("a");
        reveal_strlit("b");
        reveal_strlit("c");
        reveal_strlit("d");
        reveal_strlit("e");
        reveal_strlit("f");
        assert(digit@ =~= seq![hex_digit(d as nat)]);
    }
    s.append(digit);
}

/// Appends the decimal notation of `n`.
fn push_decimal(s: &mut String, n: u32)
    ensures
        final(s)@ == old(s)@ + decimal_text(n as nat),
    decreases n,
{
    if n >= 10 {
        push_decimal(s, n / 10);
    }
    push_hex_digit(s, (n % 10) as u8);
    proof {
        if n >= 10 {
            assert(old(s)@ + decimal_text(n as nat) =~= old(s)@ + decimal_text((n / 10) as nat)
                + seq![hex_digit((n % 10) as nat)]);
        } else {
            assert(old(s)@ + decimal_text(n as nat) =~= old(s)@.push(hex_digit((n % 10) as nat)));
        }
    }
}

/// The decimal notation of `n`.
pub fn decimal_string(n: u32) -> (text: String)
    ensures
        text@ == decimal_text(n as nat),
{
    let mut text = String::new();
    push_decimal(&mut text, n);
    assert(Seq::<char>::empty() + decimal_text(n as nat) =~= decimal_text(n as nat));
    text
}

/// Appends two lowercase hexadecimal digits for a byte.
fn push_hex_byte(s: &mut String, b: u8)
    ensures
        final(s)@ == old(s)@ + hex_byte_text(b),
{
    push_hex_digit(s, b / 16);
    push_hex_digit(s, b % 16);
    assert(old(s)@ + hex_byte_text(b) =~= old(s)@.push(hex_digit((b / 16) as nat)).push(
        hex_digit((b % 16) as nat),
    ));
}

/// Appends a colour as a JSON string `"#rrggbb"`.
fn push_color(s: &mut String, c: Rgb)
    ensures
        final(s)@ == old(s)@ + color_text(c),
{
    s.append("\"#");
    push_hex_byte(s, c.r);
    push_hex_byte(s, c.g);
    push_hex_byte(s, c.b);
    s.append("\"");
    proof {
        reveal(color_text);
        reveal_strlit("\"#");
        reveal_strlit("\"");
        assert("\"#"@ =~= seq!['"', '#']);
        assert("\""@ =~= seq!['"']);
        assert(final(s)@ =~= old(s)@ + color_text(c));
    }
}

/// A colour as a JSON string `"#rrggbb"`.
pub fn color_json(c: Rgb) -> (text: String)
    ensures
        text@ == color_text(c),
{
    let mut text = String::new();
    push_color(&mut text, c);
    assert(Seq::<char>::empty() + color_text(c) =~= color_text(c));
    text
}

/// Appends the colours of a palette as JSON strings separated by commas.
fn push_colors(s: &mut String, palette: &Vec<Rgb>)
    ensures
        final(s)@ == old(s)@ + colors_text(palette@),
{
    let ghost start = s@;
    let n = palette.len();
    let mut i: usize = 0;
    while i < n
        invariant
            n == palette@.len(),
            i <= n,
            s@ == start + colors_text(palette@.take(i as int)),
        decreases n - i,
    {
        proof {
            assert(palette@.take(i + 1).drop_last() =~= palette@.take(i as int));
        }
        if i > 0 {
            s.append(",");
            proof {
                reveal_strlit(",");
                assert(","@ =~= seq![',']);
            }
        }
        push_color(s, palette[i]);
        i = i + 1;
        proof {
            if i == 1 {
                assert(palette@.take(1) =~= seq![palette@[0]]);
                assert(colors_text(palette@.take(0)) =~= Seq::<char>::empty());
            }
            assert(s@ =~= start + colors_text(palette@.take(i as int)));
        }
    }
    assert(palette@.take(n as int) =~= palette@);
}

/// The colours of a palette as JSON strings separated by commas.
pub fn colors_json(palette: &Vec<Rgb>) -> (text: String)
    ensures
        text@ == colors_text(palette@),
{
    let mut text = String::new();
    push_colors(&mut text, palette);
    assert(Seq::<char>::empty() + colors_text(palette@) =~= colors_text(palette@));
    text
}

/// Appends a JSON boolean.
fn push_bool(s: &mut String, b: bool)
    ensures
        final(s)@ == old(s)@ + bool_text(b),
{
    if b {
        s.append("true");
    } else {
        s.append("false");
    }
}

/// Appends a fraction given in quarters, with four decimals.
fn push_quarter(s: &mut String, q: u32)
    ensures
        final(s)@ == old(s)@ + quarter_text(q),
{
    if q == 0 {
        s.append("0.0000");
    } else if q == 1 {
        s.append("0.2500");
    } else if q == 2 {
        s.append("0.5000");
    } else if q == 3 {
        s.append("0.7500");
    } else {
        s.append("1.0000");
    }
}

/// The JSON descriptor of a flag with layout `layout` and palette
/// `palette`. `thickness` and `star_scale` are the texts, with four
/// decimals, of the cross thickness and star scale fractions; only the
/// layouts that have these fractions use them.
pub fn layout_json(layout: &Layout, palette: &Vec<Rgb>, thickness: &str, star_scale: &str) -> (text: String)
    ensures
        text@ == layout_text(*layout, palette@, thickness@, star_scale@),
{
    let mut s = String::new();
    match layout {
        Layout::HorizontalStripes { bands, wide_middle } => {
            s.append("{\"type\":\"horizontal_stripes\",\"bands\":");
            push_decimal(&mut s, *bands);
            s.append(",\"wideMiddle\":");
            push_bool(&mut s, *wide_middle);
        },
        Layout::VerticalStripes { wide_middle } => {
            s.append("{\"type\":\"vertical_stripes\",\"bands\":3,\"wideMiddle\":");
            push_bool(&mut s, *wide_middle);
        },
        Layout::NordicCross { .. } => {
            s.append("{\"type\":\"nordic_cross\",\"thicknessFrac\":");
            s.append(thickness);
        },
        Layout::Canton => {
            s.append("{\"type\":\"canton\"");
        },
        Layout::RisingSun { rays, cx_quarters, cy_quarters } => {
            s.append("{\"type\":\"rising_sun\",\"rays\":");
            push_decimal(&mut s, *rays);
            s.append(",\"cxFrac\":");
            push_quarter(&mut s, *cx_quarters);
            s.append(",\"cyFrac\":");
            push_quarter(&mut s, *cy_quarters);
        },
        Layout::NordicStar { .. } => {
            s.append("{\"type\":\"nordic_star\",\"thicknessFrac\":");
            s.append(thickness);
            s.append(",\"starScale\":");
            s.append(star_scale);
        },
        Layout::Chevron => {
            s.append("{\"type\":\"chevron\"");
        },
    }
    s.append(",\"colors\":[");
    push_colors(&mut s, palette);
    s.append("]}");
    assert(s@ =~= layout_text(*layout, palette@, thickness@, star_scale@));
    s
}

} // verus!
