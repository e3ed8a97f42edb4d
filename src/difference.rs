//! The style algebra and the delta engine: which escape instruction moves the
//! terminal from one style to the next.
use vstd::prelude::*;

use crate::ansi::{color_code, digit, format_codes, prefix_bytes, push_if, reset_code, sgr, style_codes};
use crate::style::{Color, Coloring, FormatFlags, Style};

verus! {

/// The instruction that moves the terminal from one style to another.
#[derive(Clone, Copy, PartialEq, Eq, Debug, Structural)]
pub enum StyleDelta {
    /// Emit the prefix of this style.
    PrefixUsing(Style),
    /// Nothing to emit: the terminal already shows the wanted style.
    Empty,
}

impl Default for StyleDelta {
    fn default() -> (r: StyleDelta)
        ensures
            r == StyleDelta::Empty,
    {
        StyleDelta::Empty
    }
}

/// The style instruction attached to one fragment of a sequence.
#[derive(Clone, Copy, PartialEq, Eq, Debug, Structural)]
pub enum UpdateCommand {
    /// Emit the prefix of this style before the fragment.
    Prefix(Style),
    /// Emit nothing before the fragment.
    DoNothing,
}

impl Default for UpdateCommand {
    fn default() -> (r: UpdateCommand)
        ensures
            r == UpdateCommand::DoNothing,
    {
        UpdateCommand::DoNothing
    }
}

impl UpdateCommand {
    /// The command that carries out a delta.
    pub open spec fn spec_of_delta(delta: StyleDelta) -> UpdateCommand {
        match delta {
            StyleDelta::PrefixUsing(s) => UpdateCommand::Prefix(s),
            StyleDelta::Empty => UpdateCommand::DoNothing,
        }
    }

    /// The command that carries out a delta.
    pub fn of_delta(delta: StyleDelta) -> (r: UpdateCommand)
        ensures
            r == UpdateCommand::spec_of_delta(delta),
    {
        match delta {
            StyleDelta::PrefixUsing(s) => UpdateCommand::Prefix(s),
            StyleDelta::Empty => UpdateCommand::DoNothing,
        }
    }
}

/// A style seen only as "which attributes are present".
#[derive(Clone, Copy, PartialEq, Eq, Debug, Structural)]
pub struct BoolStyle {
    /// Whether the style is prefixed with a full reset.
    pub reset_before_style: bool,
    /// Which format attributes are set.
    pub formats: FormatFlags,
    /// Which colors are present.
    pub coloring: BoolColoring,
}

/// Whether a foreground and a background color are present.
#[derive(Clone, Copy, PartialEq, Eq, Debug, Structural)]
pub struct BoolColoring {
    pub foreground: bool,
    pub background: bool,
}

impl BoolColoring {
    pub open spec fn spec_is_empty(&self) -> bool {
        !self.foreground && !self.background
    }

    /// Whether no color is present.
    #[verifier::when_used_as_spec(spec_is_empty)]
    pub fn is_empty(&self) -> (r: bool)
        ensures
            r == self.spec_is_empty(),
    {
        !(self.background || self.foreground)
    }

    pub open spec fn of(coloring: Coloring) -> BoolColoring {
        BoolColoring { foreground: coloring.fg.is_some(), background: coloring.bg.is_some() }
    }
}

impl From<Coloring> for BoolColoring {
    fn from(coloring: Coloring) -> (r: BoolColoring)
        ensures
            r == BoolColoring::of(coloring),
    {
        BoolColoring { foreground: coloring.fg.is_some(), background: coloring.bg.is_some() }
    }
}

impl vstd::std_specs::convert::FromSpecImpl<Coloring> for BoolColoring {
    open spec fn obeys_from_spec() -> bool {
        true
    }

    open spec fn from_spec(coloring: Coloring) -> BoolColoring {
        BoolColoring::of(coloring)
    }
}

impl BoolStyle {
    pub open spec fn of(style: Style) -> BoolStyle {
        BoolStyle {
            reset_before_style: style.reset_before_style,
            formats: style.formats,
            coloring: BoolColoring::of(style.coloring),
        }
    }
}

impl From<Style> for BoolStyle {
    fn from(style: Style) -> (r: BoolStyle)
        ensures
            r == BoolStyle::of(style),
    {
        BoolStyle {
            reset_before_style: style.reset_before_style,
            formats: style.formats,
            coloring: BoolColoring::from(style.coloring),
        }
    }
}

impl vstd::std_specs::convert::FromSpecImpl<Style> for BoolStyle {
    open spec fn obeys_from_spec() -> bool {
        true
    }

    open spec fn from_spec(style: Style) -> BoolStyle {
        BoolStyle::of(style)
    }
}

/// Types that form a boolean algebra of "present" attributes, so that what
/// turned on and what turned off between two values can be computed.
pub trait Difference: Sized + Copy {
    /// The complement: present exactly where `self` is absent.
    spec fn spec_not(self) -> Self;

    /// The conjunction: present exactly where both are present.
    spec fn spec_conjunction(self, other: Self) -> Self;

    /// Conjunction does not depend on the order of its operands.
    proof fn lemma_conjunction_commutes(a: Self, b: Self)
        ensures
            a.spec_conjunction(b) == b.spec_conjunction(a),
    ;

    /// Take the complement (for `bool`, the `!` operator).
    fn not(self) -> (r: Self)
        ensures
            r == self.spec_not(),
    ;

    /// Take the conjunction (for `bool`, the `&&` operator).
    fn conjunction(self, other: Self) -> (r: Self)
        ensures
            r == self.spec_conjunction(other),
    ;

    /// What is present in `after` and absent in `before`.
    fn turned_on(before: Self, after: Self) -> (r: Self)
        ensures
            r == before.spec_not().spec_conjunction(after),
    {
        before.not().conjunction(after)
    }

    /// What is present in `before` and absent in `after`.
    fn turned_off(before: Self, after: Self) -> (r: Self)
        ensures
            r == before.spec_conjunction(after.spec_not()),
    {
        before.conjunction(after.not())
    }
}

/// What is present in `after` and absent in `before`.
pub open spec fn spec_turned_on<T: Difference>(before: T, after: T) -> T {
    before.spec_not().spec_conjunction(after)
}

/// What is present in `before` and absent in `after`.
pub open spec fn spec_turned_off<T: Difference>(before: T, after: T) -> T {
    before.spec_conjunction(after.spec_not())
}

/// What turns on from `before` to `after` is what turns off from `after` back
/// to `before`.
pub proof fn lemma_turned_on_is_turned_off_reversed<T: Difference>(before: T, after: T)
    ensures
        spec_turned_on(before, after) == spec_turned_off(after, before),
{
    T::lemma_conjunction_commutes(before.spec_not(), after);
}

impl Difference for bool {
    open spec fn spec_not(self) -> bool {
        !self
    }

    open spec fn spec_conjunction(self, other: bool) -> bool {
        self && other
    }

    proof fn lemma_conjunction_commutes(a: bool, b: bool) {
    }

    fn not(self) -> (r: bool) {
        !self
    }

    fn conjunction(self, other: bool) -> (r: bool) {
        self && other
    }
}

impl Difference for BoolColoring {
    open spec fn spec_not(self) -> BoolColoring {
        BoolColoring { foreground: !self.foreground, background: !self.background }
    }

    open spec fn spec_conjunction(self, other: BoolColoring) -> BoolColoring {
        BoolColoring {
            foreground: self.foreground && other.foreground,
            background: self.background && other.background,
        }
    }

    proof fn lemma_conjunction_commutes(a: BoolColoring, b: BoolColoring) {
    }

    fn not(self) -> (r: BoolColoring) {
        BoolColoring { foreground: self.foreground.not(), background: self.background.not() }
    }

    fn conjunction(self, other: BoolColoring) -> (r: BoolColoring) {
        BoolColoring {
            foreground: self.foreground.conjunction(other.foreground),
            background: self.background.conjunction(other.background),
        }
    }
}

impl Difference for FormatFlags {
    open spec fn spec_not(self) -> FormatFlags {
        FormatFlags {
            bold: !self.bold,
            dimmed: !self.dimmed,
            italic: !self.italic,
            underline: !self.underline,
            blink: !self.blink,
            reverse: !self.reverse,
            hidden: !self.hidden,
            strikethrough: !self.strikethrough,
        }
    }

    open spec fn spec_conjunction(self, o: FormatFlags) -> FormatFlags {
        FormatFlags {
            bold: self.bold && o.bold,
            dimmed: self.dimmed && o.dimmed,
            italic: self.italic && o.italic,
            underline: self.underline && o.underline,
            blink: self.blink && o.blink,
            reverse: self.reverse && o.reverse,
            hidden: self.hidden && o.hidden,
            strikethrough: self.strikethrough && o.strikethrough,
        }
    }

    proof fn lemma_conjunction_commutes(a: FormatFlags, b: FormatFlags) {
    }

    fn not(self) -> (r: FormatFlags) {
        FormatFlags {
            bold: !self.bold,
            dimmed: !self.dimmed,
            italic: !self.italic,
            underline: !self.underline,
            blink: !self.blink,
            reverse: !self.reverse,
            hidden: !self.hidden,
            strikethrough: !self.strikethrough,
        }
    }

    fn conjunction(self, o: FormatFlags) -> (r: FormatFlags) {
        FormatFlags {
            bold: self.bold && o.bold,
            dimmed: self.dimmed && o.dimmed,
            italic: self.italic && o.italic,
            underline: self.underline && o.underline,
            blink: self.blink && o.blink,
            reverse: self.reverse && o.reverse,
            hidden: self.hidden && o.hidden,
            strikethrough: self.strikethrough && o.strikethrough,
        }
    }
}

impl Difference for BoolStyle {
    open spec fn spec_not(self) -> BoolStyle {
        BoolStyle {
            reset_before_style: !self.reset_before_style,
            formats: self.formats.spec_not(),
            coloring: self.coloring.spec_not(),
        }
    }

    open spec fn spec_conjunction(self, other: BoolStyle) -> BoolStyle {
        BoolStyle {
            reset_before_style: self.reset_before_style && other.reset_before_style,
            formats: self.formats.spec_conjunction(other.formats),
            coloring: self.coloring.spec_conjunction(other.coloring),
        }
    }

    proof fn lemma_conjunction_commutes(a: BoolStyle, b: BoolStyle) {
    }

    fn not(self) -> (r: BoolStyle) {
        BoolStyle {
            reset_before_style: self.reset_before_style.not(),
            formats: self.formats.not(),
            coloring: self.coloring.not(),
        }
    }

    fn conjunction(self, other: BoolStyle) -> (r: BoolStyle) {
        BoolStyle {
            reset_before_style: self.reset_before_style.conjunction(other.reset_before_style),
            formats: self.formats.conjunction(other.formats),
            coloring: self.coloring.conjunction(other.coloring),
        }
    }
}

impl Style {
    /// The same style with a full reset sent before it.
    pub open spec fn with_reset(self) -> Style {
        Style { reset_before_style: true, ..self }
    }
}

/// Whether going from `before` to `after` switches off a format attribute or
/// removes a color.
pub open spec fn turns_something_off(before: Style, after: Style) -> bool {
    let off = spec_turned_off(BoolStyle::of(before), BoolStyle::of(after));
    !off.formats.spec_is_empty() || !off.coloring.spec_is_empty()
}

/// The least style that turns `before` into `after` when nothing turns off:
/// the attributes that turn on, and each color that is added or replaced.
pub open spec fn additive_delta(before: Style, after: Style) -> Style {
    Style {
        reset_before_style: false,
        formats: spec_turned_on(before.formats, after.formats),
        coloring: Coloring {
            fg: if before.coloring.fg != after.coloring.fg {
                after.coloring.fg
            } else {
                None
            },
            bg: if before.coloring.bg != after.coloring.bg {
                after.coloring.bg
            } else {
                None
            },
        },
    }
}

/// The instruction that moves the terminal from `before` to `after`: nothing
/// when they are equal; a full reset and all of `after` when `after` is empty
/// and `before` is not, when `after` asks for a reset, or when something turns
/// off; else only what turns on or changes color.
pub open spec fn delta(before: Style, after: Style) -> StyleDelta {
    if before == after {
        StyleDelta::Empty
    } else if (after.spec_is_empty() && !before.spec_is_empty()) || after.reset_before_style {
        StyleDelta::PrefixUsing(after.with_reset())
    } else if !turns_something_off(before, after) {
        StyleDelta::PrefixUsing(additive_delta(before, after))
    } else {
        StyleDelta::PrefixUsing(after.with_reset())
    }
}

impl Style {
    /// The least instruction that changes the terminal from this style
    /// (`self`) to the `next` one.
    pub fn compute_delta(self, next: Style) -> (r: StyleDelta)
        ensures
            r == delta(self, next),
            self == next ==> r == StyleDelta::Empty,
    {
        if self == next {
            StyleDelta::Empty
        } else if (next.is_empty() && !self.is_empty()) || next.is_reset_before_style() {
            StyleDelta::PrefixUsing(next.reset_before_style())
        } else {
            let turned_off_in_next = BoolStyle::turned_off(BoolStyle::from(self), BoolStyle::from(next));
            if turned_off_in_next.formats.is_empty() && turned_off_in_next.coloring.is_empty() {
                let turned_on_from_self = BoolStyle::turned_on(BoolStyle::from(self), BoolStyle::from(next));
                let mut r = Style::new().insert_formats(turned_on_from_self.formats);
                if self.coloring.fg != next.coloring.fg {
                    r = r.set_fg(next.coloring.fg);
                }
                if self.coloring.bg != next.coloring.bg {
                    r = r.set_bg(next.coloring.bg);
                }
                StyleDelta::PrefixUsing(r)
            } else {
                StyleDelta::PrefixUsing(next.reset_before_style())
            }
        }
    }
}

impl StyleDelta {
    /// The instruction that follows this one when `next` is wanted: this one
    /// holds the style last established on the terminal, and `Empty` stands
    /// for the plain terminal.
    pub open spec fn spec_delta_next(self, next: Style) -> StyleDelta {
        match self {
            StyleDelta::PrefixUsing(current) => delta(current, next),
            StyleDelta::Empty => if next.spec_is_plain() {
                StyleDelta::Empty
            } else {
                StyleDelta::PrefixUsing(next)
            },
        }
    }

    /// The instruction after this one when the `next` style is wanted.
    pub fn delta_next(self, next: Style) -> (r: StyleDelta)
        ensures
            r == self.spec_delta_next(next),
    {
        match self {
            StyleDelta::PrefixUsing(current) => current.compute_delta(next),
            StyleDelta::Empty => if next.is_plain() {
                StyleDelta::Empty
            } else {
                StyleDelta::PrefixUsing(next)
            },
        }
    }
}

/// A delta chain that starts from `Empty` goes on as one that starts from the
/// plain style.
pub proof fn lemma_empty_is_plain(next: Style)
    ensures
        StyleDelta::Empty.spec_delta_next(next) == delta(Style::plain(), next),
{
}

/// A style followed by itself needs no escape code.
pub proof fn lemma_delta_to_self_is_empty(s: Style)
    ensures
        delta(s, s) == StyleDelta::Empty,
{
}

/// Going from a style that sets something to one that sets nothing is a full
/// reset to the plain style, whose prefix is exactly `ESC [ 0 m`.
pub proof fn lemma_reset_on_return_to_plain(before: Style, after: Style)
    requires
        !before.spec_is_empty(),
        after.spec_is_empty(),
    ensures
        delta(before, after) == StyleDelta::PrefixUsing(Style::plain().with_reset()),
        prefix_bytes(Style::plain().with_reset()) == reset_code(),
{
    assert(prefix_bytes(Style::plain().with_reset()) =~= reset_code());
}

/// Whether none of `codes` is the reset code `0`.
pub open spec fn no_reset_code(codes: Seq<Seq<u8>>) -> bool {
    forall|i: int| 0 <= i < codes.len() ==> #[trigger] codes[i] != seq![digit(0)]
}

proof fn lemma_push_if_keeps(codes: Seq<Seq<u8>>, on: bool, code: Seq<u8>)
    requires
        no_reset_code(codes),
        code != seq![digit(0)],
    ensures
        no_reset_code(push_if(codes, on, code)),
{
    if on {
        let pushed = codes.push(code);
        assert forall|i: int| 0 <= i < pushed.len() implies pushed[i] != seq![digit(0)] by {
            if i < codes.len() {
                assert(pushed[i] == codes[i]);
            }
        }
    }
}

proof fn lemma_color_code_long(c: Color, background: bool)
    ensures
        color_code(c, background).len() >= 2,
{
}

proof fn lemma_one_digit(d: nat)
    requires
        1 <= d <= 9,
    ensures
        seq![digit(d)] != seq![digit(0)],
{
    assert(seq![digit(d)][0] != seq![digit(0)][0]);
}

/// No code of a style is the reset code `0`: format codes are the digits 1
/// to 9 and color codes have two digits or more.
pub proof fn lemma_no_reset_code(s: Style)
    ensures
        !style_codes(s).contains(seq![digit(0)]),
{
    let f = s.formats;
    let c0: Seq<Seq<u8>> = seq![];
    lemma_one_digit(1);
    lemma_one_digit(2);
    lemma_one_digit(3);
    lemma_one_digit(4);
    lemma_one_digit(5);
    lemma_one_digit(7);
    lemma_one_digit(8);
    lemma_one_digit(9);
    lemma_push_if_keeps(c0, f.bold, seq![digit(1)]);
    let c1 = push_if(c0, f.bold, seq![digit(1)]);
    lemma_push_if_keeps(c1, f.dimmed, seq![digit(2)]);
    let c2 = push_if(c1, f.dimmed, seq![digit(2)]);
    lemma_push_if_keeps(c2, f.italic, seq![digit(3)]);
    let c3 = push_if(c2, f.italic, seq![digit(3)]);
    lemma_push_if_keeps(c3, f.underline, seq![digit(4)]);
    let c4 = push_if(c3, f.underline, seq![digit(4)]);
    lemma_push_if_keeps(c4, f.blink, seq![digit(5)]);
    let c5 = push_if(c4, f.blink, seq![digit(5)]);
    lemma_push_if_keeps(c5, f.reverse, seq![digit(7)]);
    let c6 = push_if(c5, f.reverse, seq![digit(7)]);
    lemma_push_if_keeps(c6, f.hidden, seq![digit(8)]);
    let c7 = push_if(c6, f.hidden, seq![digit(8)]);
    lemma_push_if_keeps(c7, f.strikethrough, seq![digit(9)]);
    let c8 = push_if(c7, f.strikethrough, seq![digit(9)]);
    assert(c8 == format_codes(f));
    let c9 = match s.coloring.bg {
        Some(bg) => {
            lemma_color_code_long(bg, true);
            lemma_push_if_keeps(c8, true, color_code(bg, true));
            c8.push(color_code(bg, true))
        },
        None => c8,
    };
    let c10 = match s.coloring.fg {
        Some(fg) => {
            lemma_color_code_long(fg, false);
            lemma_push_if_keeps(c9, true, color_code(fg, false));
            c9.push(color_code(fg, false))
        },
        None => c9,
    };
    assert(c10 == style_codes(s));
    assert(no_reset_code(c10));
}

/// When nothing turns off, the prefix holds only the codes of what turns on
/// and of the colors that change: no reset, and no `0` code.
pub proof fn lemma_additive_minimality(before: Style, after: Style)
    requires
        before != after,
        !after.reset_before_style,
        !turns_something_off(before, after),
    ensures
        delta(before, after) == StyleDelta::PrefixUsing(additive_delta(before, after)),
        prefix_bytes(additive_delta(before, after)) == (if additive_delta(
            before,
            after,
        ).spec_is_empty() {
            Seq::<u8>::empty()
        } else {
            sgr(additive_delta(before, after))
        }),
        !style_codes(additive_delta(before, after)).contains(seq![digit(0)]),
{
    assert(prefix_bytes(additive_delta(before, after)) =~= (if additive_delta(
        before,
        after,
    ).spec_is_empty() {
        Seq::<u8>::empty()
    } else {
        sgr(additive_delta(before, after))
    }));
    lemma_no_reset_code(additive_delta(before, after));
}

/// When something turns off, the prefix is a full reset followed by every
/// code of `after`.
pub proof fn lemma_fallback_on_removal(before: Style, after: Style)
    requires
        turns_something_off(before, after),
    ensures
        delta(before, after) == StyleDelta::PrefixUsing(after.with_reset()),
        prefix_bytes(after.with_reset()) == reset_code() + (if after.spec_is_empty() {
            Seq::<u8>::empty()
        } else {
            sgr(after)
        }),
{
    assert(sgr(after.with_reset()) == sgr(after));
    assert(prefix_bytes(after.with_reset()) =~= reset_code() + (if after.spec_is_empty() {
        Seq::<u8>::empty()
    } else {
        sgr(after)
    }));
}

} // verus!
