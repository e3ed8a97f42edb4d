//! The bytes of the ANSI escape sequences: SGR codes for styles, OSC codes
//! for titles and hyperlinks.
use vstd::prelude::*;

use crate::style::{Color, FormatFlags, Style};

verus! {

/// The escape character that starts every sequence.
pub const ESC: u8 = 0x1b;

/// `[`, which follows `ESC` in a CSI sequence.
pub const CSI_OPEN: u8 = 0x5b;

/// `]`, which follows `ESC` in an OSC sequence.
pub const OSC_OPEN: u8 = 0x5d;

/// `;`, the separator of codes and parameters.
pub const SEP: u8 = 0x3b;

/// `m`, which ends an SGR sequence.
pub const SGR_END: u8 = 0x6d;

/// `\`, which follows `ESC` in the string terminator.
pub const BACKSLASH: u8 = 0x5c;

/// The ASCII digit `0`; the digit `d` is `DIGIT_ZERO + d`.
pub const DIGIT_ZERO: u8 = 0x30;

/// The ASCII digit of `d`.
pub open spec fn digit(d: nat) -> u8 {
    (DIGIT_ZERO + d) as u8
}

/// `ESC [ 0 m`: back to the terminal's default rendition.
pub open spec fn reset_code() -> Seq<u8> {
    seq![ESC, CSI_OPEN, digit(0), SGR_END]
}

/// `ESC \`: the string terminator that closes an OSC sequence.
pub open spec fn string_terminator() -> Seq<u8> {
    seq![ESC, BACKSLASH]
}

/// `ESC ] 2 ;`: opens a window-title change.
pub open spec fn title_open() -> Seq<u8> {
    seq![ESC, OSC_OPEN, digit(2), SEP]
}

/// `ESC ] 8 ; ;`: opens a hyperlink, whose URL follows.
pub open spec fn link_open() -> Seq<u8> {
    seq![ESC, OSC_OPEN, digit(8), SEP, SEP]
}

/// `ESC ] 8 ; ; ESC \`: the hyperlink with an empty URL, which closes a link.
pub open spec fn link_close() -> Seq<u8> {
    link_open() + string_terminator()
}

/// The ASCII decimal digits of `n`, without leading zeros.
pub open spec fn decimal(n: nat) -> Seq<u8>
    decreases n,
{
    if n < 10 {
        seq![digit(n)]
    } else {
        decimal(n / 10) + seq![digit(n % 10)]
    }
}

/// The SGR code of a color: `3x`/`9x` for a foreground, `4x`/`10x` for a
/// background, `38;5;n` and `38;2;r;g;b` (or `48;...`) for indexed and RGB
/// colors.
pub open spec fn color_code(c: Color, background: bool) -> Seq<u8> {
    let g: u8 = if background {
        digit(4)
    } else {
        digit(3)
    };
    let bright: Seq<u8> = if background {
        seq![digit(1), digit(0)]
    } else {
        seq![digit(9)]
    };
    match c {
        Color::Black => seq![g, digit(0)],
        Color::Red => seq![g, digit(1)],
        Color::Green => seq![g, digit(2)],
        Color::Yellow => seq![g, digit(3)],
        Color::Blue => seq![g, digit(4)],
        Color::Purple => seq![g, digit(5)],
        Color::Magenta => seq![g, digit(5)],
        Color::Cyan => seq![g, digit(6)],
        Color::White => seq![g, digit(7)],
        Color::DarkGray => bright.push(digit(0)),
        Color::LightRed => bright.push(digit(1)),
        Color::LightGreen => bright.push(digit(2)),
        Color::LightYellow => bright.push(digit(3)),
        Color::LightBlue => bright.push(digit(4)),
        Color::LightPurple => bright.push(digit(5)),
        Color::LightMagenta => bright.push(digit(5)),
        Color::LightCyan => bright.push(digit(6)),
        Color::LightGray => bright.push(digit(7)),
        Color::Fixed(n) => seq![g, digit(8), SEP, digit(5), SEP] + decimal(n as nat),
        Color::Rgb(r, gr, b) => seq![g, digit(8), SEP, digit(2), SEP] + decimal(r as nat) + seq![SEP]
            + decimal(gr as nat) + seq![SEP] + decimal(b as nat),
        Color::Default => seq![g, digit(9)],
    }
}

/// `codes` with `code` added when `on` holds.
pub open spec fn push_if(codes: Seq<Seq<u8>>, on: bool, code: Seq<u8>) -> Seq<Seq<u8>> {
    if on {
        codes.push(code)
    } else {
        codes
    }
}

/// The codes of the format attributes, in the order 1, 2, 3, 4, 5, 7, 8, 9.
pub open spec fn format_codes(f: FormatFlags) -> Seq<Seq<u8>> {
    let c = push_if(seq![], f.bold, seq![digit(1)]);
    let c = push_if(c, f.dimmed, seq![digit(2)]);
    let c = push_if(c, f.italic, seq![digit(3)]);
    let c = push_if(c, f.underline, seq![digit(4)]);
    let c = push_if(c, f.blink, seq![digit(5)]);
    let c = push_if(c, f.reverse, seq![digit(7)]);
    let c = push_if(c, f.hidden, seq![digit(8)]);
    push_if(c, f.strikethrough, seq![digit(9)])
}

/// The codes of a style: its format attributes, then its background, then its
/// foreground.
pub open spec fn style_codes(s: Style) -> Seq<Seq<u8>> {
    let c = format_codes(s.formats);
    let c = match s.coloring.bg {
        Some(bg) => c.push(color_code(bg, true)),
        None => c,
    };
    match s.coloring.fg {
        Some(fg) => c.push(color_code(fg, false)),
        None => c,
    }
}

/// The codes separated by `;`.
pub open spec fn join_codes(codes: Seq<Seq<u8>>) -> Seq<u8>
    decreases codes.len(),
{
    if codes.len() == 0 {
        seq![]
    } else if codes.len() == 1 {
        codes[0]
    } else {
        join_codes(codes.drop_last()) + seq![SEP] + codes.last()
    }
}

/// `ESC [ codes m`: the SGR sequence that applies a style's codes.
pub open spec fn sgr(s: Style) -> Seq<u8> {
    seq![ESC, CSI_OPEN] + join_codes(style_codes(s)) + seq![SGR_END]
}

/// What is written before text in a style: a reset if the style asks for one,
/// then its SGR sequence unless it sets nothing. Empty for the plain style
/// alone.
pub open spec fn prefix_bytes(s: Style) -> Seq<u8> {
    (if s.reset_before_style {
        reset_code()
    } else {
        seq![]
    }) + (if s.spec_is_empty() {
        seq![]
    } else {
        sgr(s)
    })
}

/// What is written after text in a style: a reset unless the style sets
/// nothing.
pub open spec fn suffix_bytes(s: Style) -> Seq<u8> {
    if s.spec_is_empty() {
        seq![]
    } else {
        reset_code()
    }
}

/// Appends the decimal digits of `n`.
fn push_decimal(out: &mut Vec<u8>, n: u8)
    ensures
        final(out)@ == old(out)@ + decimal(n as nat),
{
    proof {
        reveal_with_fuel(decimal, 3);
    }
    if n >= 100 {
        out.push(DIGIT_ZERO + n / 100);
        out.push(DIGIT_ZERO + (n / 10) % 10);
        out.push(DIGIT_ZERO + n % 10);
        assert((n / 10) / 10 == n / 100);
    } else if n >= 10 {
        out.push(DIGIT_ZERO + n / 10);
        out.push(DIGIT_ZERO + n % 10);
    } else {
        out.push(DIGIT_ZERO + n);
    }
    assert(final(out)@ =~= old(out)@ + decimal(n as nat));
}

/// Appends all of `more`.
pub fn extend_bytes(out: &mut Vec<u8>, more: &Vec<u8>)
    ensures
        final(out)@ == old(out)@ + more@,
{
    let mut i: usize = 0;
    while i < more.len()
        invariant
            i <= more@.len(),
            out@ == old(out)@ + more@.subrange(0, i as int),
        decreases more@.len() - i,
    {
        out.push(more[i]);
        i += 1;
        assert(more@.subrange(0, i as int) =~= more@.subrange(0, i - 1 as int).push(more@[i - 1]));
    }
    assert(more@.subrange(0, more@.len() as int) =~= more@);
}

/// The code made of the one digit `d`.
fn digit_code(d: u8) -> (r: Vec<u8>)
    requires
        d < 10,
    ensures
        r@ == seq![digit(d as nat)],
{
    let mut r: Vec<u8> = Vec::new();
    r.push(DIGIT_ZERO + d);
    r
}

/// A standard color: the ground digit, then the color's digit `d`.
fn push_standard(out: &mut Vec<u8>, background: bool, d: u8)
    requires
        d < 10,
    ensures
        final(out)@ == old(out)@ + seq![
            if background {
                digit(4)
            } else {
                digit(3)
            },
            digit(d as nat),
        ],
{
    if background {
        out.push(DIGIT_ZERO + 4);
    } else {
        out.push(DIGIT_ZERO + 3);
    }
    out.push(DIGIT_ZERO + d);
}

/// A bright color: `9` for a foreground or `10` for a background, then the
/// color's digit `d`.
fn push_bright(out: &mut Vec<u8>, background: bool, d: u8)
    requires
        d < 10,
    ensures
        final(out)@ == old(out)@ + (if background {
            seq![digit(1), digit(0)]
        } else {
            seq![digit(9)]
        }).push(digit(d as nat)),
{
    if background {
        out.push(DIGIT_ZERO + 1);
        out.push(DIGIT_ZERO);
    } else {
        out.push(DIGIT_ZERO + 9);
    }
    out.push(DIGIT_ZERO + d);
}

/// An extended color: the ground digit, `8`, `;`, then the kind digit `k`
/// (`5` indexed, `2` RGB) and `;`.
fn push_extended(out: &mut Vec<u8>, background: bool, k: u8)
    requires
        k < 10,
    ensures
        final(out)@ == old(out)@ + seq![
            if background {
                digit(4)
            } else {
                digit(3)
            },
            digit(8),
            SEP,
            digit(k as nat),
            SEP,
        ],
{
    push_standard(out, background, 8);
    out.push(SEP);
    out.push(DIGIT_ZERO + k);
    out.push(SEP);
}

impl Color {
    /// The SGR code of this color as a foreground, or as a background.
    pub fn code(self, background: bool) -> (r: Vec<u8>)
        ensures
            r@ == color_code(self, background),
    {
        let mut out: Vec<u8> = Vec::new();
        match self {
            Color::Black => push_standard(&mut out, background, 0),
            Color::Red => push_standard(&mut out, background, 1),
            Color::Green => push_standard(&mut out, background, 2),
            Color::Yellow => push_standard(&mut out, background, 3),
            Color::Blue => push_standard(&mut out, background, 4),
            Color::Purple => push_standard(&mut out, background, 5),
            Color::Magenta => push_standard(&mut out, background, 5),
            Color::Cyan => push_standard(&mut out, background, 6),
            Color::White => push_standard(&mut out, background, 7),
            Color::DarkGray => push_bright(&mut out, background, 0),
            Color::LightRed => push_bright(&mut out, background, 1),
            Color::LightGreen => push_bright(&mut out, background, 2),
            Color::LightYellow => push_bright(&mut out, background, 3),
            Color::LightBlue => push_bright(&mut out, background, 4),
            Color::LightPurple => push_bright(&mut out, background, 5),
            Color::LightMagenta => push_bright(&mut out, background, 5),
            Color::LightCyan => push_bright(&mut out, background, 6),
            Color::LightGray => push_bright(&mut out, background, 7),
            Color::Fixed(n) => {
                push_extended(&mut out, background, 5);
                push_decimal(&mut out, n);
            },
            Color::Rgb(r, g, b) => {
                push_extended(&mut out, background, 2);
                push_decimal(&mut out, r);
                out.push(SEP);
                push_decimal(&mut out, g);
                out.push(SEP);
                push_decimal(&mut out, b);
            },
            Color::Default => push_standard(&mut out, background, 9),
        }
        assert(out@ =~= color_code(self, background));
        out
    }
}

/// Adds `code` to the codes written so far, after a `;` unless it is the
/// first; `any` tells whether one was written.
fn append_code(codes: &mut Vec<u8>, any: bool, code: &Vec<u8>, Ghost(written): Ghost<Seq<Seq<u8>>>)
    requires
        old(codes)@ == join_codes(written),
        any == (written.len() > 0),
    ensures
        final(codes)@ == join_codes(written.push(code@)),
{
    let ghost all = written.push(code@);
    assert(all.drop_last() =~= written);
    if any {
        codes.push(SEP);
    } else {
        assert(all =~= seq![code@]);
    }
    extend_bytes(codes, code);
}

/// Adds the one-digit code `d` when `on` holds.
fn append_digit_if(
    codes: &mut Vec<u8>,
    any: &mut bool,
    on: bool,
    d: u8,
    Ghost(written): Ghost<Seq<Seq<u8>>>,
)
    requires
        d < 10,
        old(codes)@ == join_codes(written),
        *old(any) == (written.len() > 0),
    ensures
        final(codes)@ == join_codes(push_if(written, on, seq![digit(d as nat)])),
        *final(any) == (push_if(written, on, seq![digit(d as nat)]).len() > 0),
{
    if on {
        let c = digit_code(d);
        append_code(codes, *any, &c, Ghost(written));
        *any = true;
    }
}

/// Adds the code of `color`, if there is one.
fn append_color(
    codes: &mut Vec<u8>,
    any: &mut bool,
    color: Option<Color>,
    background: bool,
    Ghost(written): Ghost<Seq<Seq<u8>>>,
)
    requires
        old(codes)@ == join_codes(written),
        *old(any) == (written.len() > 0),
    ensures
        final(codes)@ == join_codes(
            match color {
                Some(c) => written.push(color_code(c, background)),
                None => written,
            },
        ),
        *final(any) == ((match color {
            Some(c) => written.push(color_code(c, background)),
            None => written,
        }).len() > 0),
{
    match color {
        Some(c) => {
            let code = c.code(background);
            append_code(codes, *any, &code, Ghost(written));
            *any = true;
        },
        None => {},
    }
}

/// Appends `ESC [ 0 m`.
fn push_reset(out: &mut Vec<u8>)
    ensures
        final(out)@ == old(out)@ + reset_code(),
{
    out.push(ESC);
    out.push(CSI_OPEN);
    out.push(DIGIT_ZERO);
    out.push(SGR_END);
    assert(final(out)@ =~= old(out)@ + reset_code());
}

/// The reset sequence, `ESC [ 0 m`.
pub fn reset() -> (r: Vec<u8>)
    ensures
        r@ == reset_code(),
{
    let mut r: Vec<u8> = Vec::new();
    push_reset(&mut r);
    r
}

impl Style {
    /// The codes of this style, separated by `;`.
    pub fn codes(&self) -> (r: Vec<u8>)
        ensures
            r@ == join_codes(style_codes(*self)),
    {
        let mut codes: Vec<u8> = Vec::new();
        let mut any = false;
        let f = self.formats;
        let ghost w0: Seq<Seq<u8>> = seq![];
        append_digit_if(&mut codes, &mut any, f.bold, 1, Ghost(w0));
        let ghost w1 = push_if(w0, f.bold, seq![digit(1)]);
        append_digit_if(&mut codes, &mut any, f.dimmed, 2, Ghost(w1));
        let ghost w2 = push_if(w1, f.dimmed, seq![digit(2)]);
        append_digit_if(&mut codes, &mut any, f.italic, 3, Ghost(w2));
        let ghost w3 = push_if(w2, f.italic, seq![digit(3)]);
        append_digit_if(&mut codes, &mut any, f.underline, 4, Ghost(w3));
        let ghost w4 = push_if(w3, f.underline, seq![digit(4)]);
        append_digit_if(&mut codes, &mut any, f.blink, 5, Ghost(w4));
        let ghost w5 = push_if(w4, f.blink, seq![digit(5)]);
        append_digit_if(&mut codes, &mut any, f.reverse, 7, Ghost(w5));
        let ghost w6 = push_if(w5, f.reverse, seq![digit(7)]);
        append_digit_if(&mut codes, &mut any, f.hidden, 8, Ghost(w6));
        let ghost w7 = push_if(w6, f.hidden, seq![digit(8)]);
        append_digit_if(&mut codes, &mut any, f.strikethrough, 9, Ghost(w7));
        let ghost w8 = push_if(w7, f.strikethrough, seq![digit(9)]);
        assert(w8 == format_codes(f));
        append_color(&mut codes, &mut any, self.coloring.bg, true, Ghost(w8));
        let ghost w9 = match self.coloring.bg {
            Some(c) => w8.push(color_code(c, true)),
            None => w8,
        };
        append_color(&mut codes, &mut any, self.coloring.fg, false, Ghost(w9));
        assert(style_codes(*self) == match self.coloring.fg {
            Some(c) => w9.push(color_code(c, false)),
            None => w9,
        });
        codes
    }

    /// The bytes written before text in this style.
    pub fn prefix(&self) -> (r: Vec<u8>)
        ensures
            r@ == prefix_bytes(*self),
    {
        let mut out: Vec<u8> = Vec::new();
        if self.reset_before_style {
            push_reset(&mut out);
        }
        if !self.is_empty() {
            out.push(ESC);
            out.push(CSI_OPEN);
            let codes = self.codes();
            extend_bytes(&mut out, &codes);
            out.push(SGR_END);
        }
        assert(out@ =~= prefix_bytes(*self));
        out
    }

    /// The bytes written after text in this style.
    pub fn suffix(&self) -> (r: Vec<u8>)
        ensures
            r@ == suffix_bytes(*self),
    {
        if self.is_empty() {
            Vec::new()
        } else {
            reset()
        }
    }
}

/// `ESC \`.
pub fn string_terminator_code() -> (r: Vec<u8>)
    ensures
        r@ == string_terminator(),
{
    let mut r: Vec<u8> = Vec::new();
    r.push(ESC);
    r.push(BACKSLASH);
    assert(r@ =~= string_terminator());
    r
}

/// `ESC ] 2 ;`.
pub fn title_open_code() -> (r: Vec<u8>)
    ensures
        r@ == title_open(),
{
    let mut r: Vec<u8> = Vec::new();
    r.push(ESC);
    r.push(OSC_OPEN);
    r.push(DIGIT_ZERO + 2);
    r.push(SEP);
    assert(r@ =~= title_open());
    r
}

/// `ESC ] 8 ; ;`.
pub fn link_open_code() -> (r: Vec<u8>)
    ensures
        r@ == link_open(),
{
    let mut r: Vec<u8> = Vec::new();
    r.push(ESC);
    r.push(OSC_OPEN);
    r.push(DIGIT_ZERO + 8);
    r.push(SEP);
    r.push(SEP);
    assert(r@ =~= link_open());
    r
}

/// `ESC ] 8 ; ; ESC \`.
pub fn link_close_code() -> (r: Vec<u8>)
    ensures
        r@ == link_close(),
{
    let mut r = link_open_code();
    r.push(ESC);
    r.push(BACKSLASH);
    assert(r@ =~= link_close());
    r
}

} // verus!
