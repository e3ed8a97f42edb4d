//! Styled fragments, sequences of them, and how they are written out with as
//! few escape codes as possible.
use vstd::prelude::*;

use crate::ansi::{
    self, digit, link_close, link_open, prefix_bytes, reset_code, sgr, string_terminator,
    suffix_bytes, title_open, CSI_OPEN, ESC, SEP, SGR_END,
};
use crate::difference::{StyleDelta, UpdateCommand};
use crate::iter::{lemma_command_at, sorted_updates, ContentIter, StyleIter, WriteIter};
use crate::style::{Color, FormatFlags, Style};
use crate::write::{lift, AnyWrite, Content};

verus! {

/// An annotation carried in OSC sequences around a fragment's text.
#[derive(Clone, Debug)]
pub enum OSControl<S> {
    /// The text becomes the terminal's window title.
    Title,
    /// The text links to `url`.
    Link { url: Content<S> },
}

/// What an annotation stands for.
pub enum Annotation<U> {
    Title,
    Link(Seq<U>),
}

/// What a styled fragment stands for: its style, its text and its annotation.
pub struct StyledText<U> {
    pub style: Style,
    pub text: Seq<U>,
    pub annotation: Option<Annotation<U>>,
}

/// Text of type `S` (`String` or `Vec<u8>`) together with the `Style` to
/// display it in, and an optional annotation.
#[derive(Clone, Debug)]
pub struct AnsiGenericString<S> {
    pub style: Style,
    pub content: Content<S>,
    pub oscontrol: Option<OSControl<S>>,
}

/// A styled string of characters.
pub type AnsiString = AnsiGenericString<String>;

/// A styled string of bytes, for text of unknown encoding.
pub type AnsiByteString = AnsiGenericString<Vec<u8>>;

impl<S: AnyWrite> OSControl<S> {
    pub open spec fn annotation(&self) -> Annotation<S::Unit> {
        match self {
            OSControl::Title => Annotation::Title,
            OSControl::Link { url } => Annotation::Link(url.units()),
        }
    }
}

/// What an optional annotation stands for.
pub open spec fn annotation_of<S: AnyWrite>(o: Option<OSControl<S>>) -> Option<Annotation<S::Unit>> {
    match o {
        Some(c) => Some(c.annotation()),
        None => None,
    }
}

impl<S: AnyWrite> View for AnsiGenericString<S> {
    type V = StyledText<S::Unit>;

    open spec fn view(&self) -> StyledText<S::Unit> {
        StyledText {
            style: self.style,
            text: self.content.units(),
            annotation: annotation_of(self.oscontrol),
        }
    }
}

/// The text wrapped in the OSC sequences of its annotation: `ESC]2;` text
/// `ESC\` for a title; `ESC]8;;` url `ESC\` text `ESC]8;;ESC\` for a link.
pub open spec fn annotated<W: AnyWrite>(
    text: Seq<W::Unit>,
    annotation: Option<Annotation<W::Unit>>,
) -> Seq<W::Unit> {
    match annotation {
        None => text,
        Some(Annotation::Title) => lift::<W>(title_open()) + text + lift::<W>(string_terminator()),
        Some(Annotation::Link(url)) => lift::<W>(link_open()) + url + lift::<W>(string_terminator())
            + text + lift::<W>(link_close()),
    }
}

/// One fragment written on its own: the style's prefix, the annotated text,
/// the style's suffix.
pub open spec fn render_one<W: AnyWrite>(t: StyledText<W::Unit>) -> Seq<W::Unit> {
    lift::<W>(prefix_bytes(t.style)) + annotated::<W>(t.text, t.annotation) + lift::<W>(
        suffix_bytes(t.style),
    )
}

/// Nothing lifted is nothing.
proof fn lemma_lift_empty<W: AnyWrite>()
    ensures
        lift::<W>(Seq::<u8>::empty()) == Seq::<W::Unit>::empty(),
{
    assert(lift::<W>(Seq::<u8>::empty()) =~= Seq::<W::Unit>::empty());
}

impl<S: AnyWrite> OSControl<S> {
    /// A copy of the annotation.
    pub fn copy(&self) -> (r: OSControl<S>)
        ensures
            r.annotation() == self.annotation(),
    {
        match self {
            OSControl::Title => OSControl::Title,
            OSControl::Link { url } => OSControl::Link { url: url.copy() },
        }
    }
}

impl<S: AnyWrite> AnsiGenericString<S> {
    /// A copy of the fragment.
    pub fn copy(&self) -> (r: AnsiGenericString<S>)
        ensures
            r@ == self@,
    {
        let oscontrol = match &self.oscontrol {
            Some(o) => Some(o.copy()),
            None => None,
        };
        AnsiGenericString { style: self.style, content: self.content.copy(), oscontrol }
    }

    /// The style.
    pub fn style(&self) -> (r: &Style)
        ensures
            *r == self.style,
    {
        &self.style
    }

    /// The style, to be changed in place.
    pub fn style_mut(&mut self) -> (r: &mut Style)
        ensures
            *r == old(self).style,
            final(self).style == *final(r),
            final(self).content == old(self).content,
            final(self).oscontrol == old(self).oscontrol,
    {
        &mut self.style
    }

    /// The text.
    pub fn content(&self) -> (r: &Content<S>)
        ensures
            *r == self.content,
    {
        &self.content
    }

    /// The annotation, if any.
    pub fn oscontrol(&self) -> (r: &Option<OSControl<S>>)
        ensures
            *r == self.oscontrol,
    {
        &self.oscontrol
    }

    /// A plain fragment that sets the terminal's window title to `s` and
    /// shows nothing.
    pub fn title(s: S) -> (r: Self)
        ensures
            r == (AnsiGenericString {
                style: Style::plain(),
                content: Content::StrLike(s),
                oscontrol: Some(OSControl::<S>::Title),
            }),
    {
        AnsiGenericString {
            style: Style::new(),
            content: Content::StrLike(s),
            oscontrol: Some(OSControl::Title),
        }
    }

    /// The same fragment, linked to `url`.
    pub fn hyperlink(self, url: S) -> (r: Self)
        ensures
            r == (AnsiGenericString {
                oscontrol: Some(OSControl::Link { url: Content::StrLike(url) }),
                ..self
            }),
    {
        AnsiGenericString { oscontrol: Some(OSControl::Link { url: Content::StrLike(url) }), ..self }
    }

    /// The URL the fragment links to, if it is a link.
    pub fn url_string(&self) -> (r: Option<&Content<S>>)
        ensures
            match self.oscontrol {
                Some(OSControl::Link { url }) => r == Some(&url),
                _ => r.is_none(),
            },
    {
        match &self.oscontrol {
            Some(OSControl::Link { url }) => Some(url),
            _ => None,
        }
    }

    /// Writes `content` wrapped in the OSC sequences of `oscontrol`.
    fn write_inner(content: &Content<S>, oscontrol: &Option<OSControl<S>>, w: &mut S)
        ensures
            final(w).units() == old(w).units() + annotated::<S>(
                content.units(),
                annotation_of(*oscontrol),
            ),
    {
        match oscontrol {
            Some(OSControl::Link { url }) => {
                w.write_code(&ansi::link_open_code());
                url.write_to(w);
                w.write_code(&ansi::string_terminator_code());
                content.write_to(w);
                w.write_code(&ansi::link_close_code());
            },
            Some(OSControl::Title) => {
                w.write_code(&ansi::title_open_code());
                content.write_to(w);
                w.write_code(&ansi::string_terminator_code());
            },
            None => content.write_to(w),
        }
        assert(final(w).units() =~= old(w).units() + annotated::<S>(
            content.units(),
            annotation_of(*oscontrol),
        ));
    }

    /// Writes the fragment on its own: prefix, annotated text, suffix.
    pub fn write_to_any(&self, w: &mut S)
        ensures
            final(w).units() == old(w).units() + render_one::<S>(self@),
    {
        w.write_code(&self.style.prefix());
        Self::write_inner(&self.content, &self.oscontrol, w);
        w.write_code(&self.style.suffix());
        assert(final(w).units() =~= old(w).units() + render_one::<S>(self@));
    }

    /// The fragment written on its own into a new buffer.
    pub fn render(&self) -> (r: S)
        ensures
            r.units() == render_one::<S>(self@),
    {
        let mut w = S::empty_buffer();
        self.write_to_any(&mut w);
        assert(w.units() =~= render_one::<S>(self@));
        w
    }
}

impl AnsiGenericString<String> {
    /// The fragment written on its own as a `String`.
    pub fn to_string(&self) -> (r: String)
        ensures
            r@ == render_one::<String>(self@),
    {
        self.render()
    }
}

impl<S> From<S> for AnsiGenericString<S> {
    /// `s` in the plain style, without annotation.
    fn from(s: S) -> (r: AnsiGenericString<S>)
        ensures
            r == (AnsiGenericString { style: Style::plain(), content: Content::StrLike(s), oscontrol: None }),
    {
        AnsiGenericString { style: Style::new(), content: Content::StrLike(s), oscontrol: None }
    }
}

impl<S> vstd::std_specs::convert::FromSpecImpl<S> for AnsiGenericString<S> {
    open spec fn obeys_from_spec() -> bool {
        true
    }

    open spec fn from_spec(s: S) -> AnsiGenericString<S> {
        AnsiGenericString { style: Style::plain(), content: Content::StrLike(s), oscontrol: None }
    }
}

impl Style {
    /// This style applied to `input`.
    pub fn paint<S>(self, input: S) -> (r: AnsiGenericString<S>)
        ensures
            r == (AnsiGenericString { style: self, content: Content::StrLike(input), oscontrol: None }),
    {
        AnsiGenericString { style: self, content: Content::StrLike(input), oscontrol: None }
    }
}

impl Color {
    /// `input` in this foreground color.
    pub fn paint<S>(self, input: S) -> (r: AnsiGenericString<S>)
        ensures
            r == (AnsiGenericString {
                style: self.spec_normal(),
                content: Content::StrLike(input),
                oscontrol: None,
            }),
    {
        AnsiGenericString { style: self.normal(), content: Content::StrLike(input), oscontrol: None }
    }
}

/// The run encoder after `styles`: one command per fragment, and the delta
/// that holds the style last established on the terminal. A fragment whose
/// style equals the one before it gets `DoNothing` without a lookup; any other
/// is chained from the established delta, which moves only when a prefix is
/// emitted.
pub open spec fn encode(styles: Seq<Style>) -> (Seq<UpdateCommand>, StyleDelta)
    decreases styles.len(),
{
    if styles.len() == 0 {
        (seq![], StyleDelta::Empty)
    } else {
        let before = encode(styles.drop_last());
        let next = styles.last();
        if styles.len() > 1 && styles[styles.len() - 2] == next {
            (before.0.push(UpdateCommand::DoNothing), before.1)
        } else {
            match before.1.spec_delta_next(next) {
                StyleDelta::Empty => (before.0.push(UpdateCommand::DoNothing), before.1),
                StyleDelta::PrefixUsing(s) => (
                    before.0.push(UpdateCommand::Prefix(s)),
                    StyleDelta::PrefixUsing(s),
                ),
            }
        }
    }
}

/// The encoder gives one command per style.
pub proof fn lemma_encode_len(styles: Seq<Style>)
    ensures
        encode(styles).0.len() == styles.len(),
    decreases styles.len(),
{
    if styles.len() > 0 {
        lemma_encode_len(styles.drop_last());
    }
}

/// The styles of the fragments.
pub open spec fn styles_of<U>(frags: Seq<StyledText<U>>) -> Seq<Style> {
    frags.map_values(|t: StyledText<U>| t.style)
}

/// The bytes a command emits.
pub open spec fn command_bytes(c: UpdateCommand) -> Seq<u8> {
    match c {
        UpdateCommand::Prefix(s) => prefix_bytes(s),
        UpdateCommand::DoNothing => seq![],
    }
}

/// The first `n` fragments, each after the bytes of its command.
pub open spec fn render_runs<W: AnyWrite>(
    frags: Seq<StyledText<W::Unit>>,
    commands: Seq<UpdateCommand>,
    n: nat,
) -> Seq<W::Unit>
    decreases n,
{
    if n == 0 {
        seq![]
    } else {
        render_runs::<W>(frags, commands, (n - 1) as nat) + lift::<W>(
            command_bytes(commands[n - 1]),
        ) + annotated::<W>(frags[n - 1].text, frags[n - 1].annotation)
    }
}

/// Whether the last fragment sets an attribute or a color.
pub open spec fn ends_styled<U>(frags: Seq<StyledText<U>>) -> bool {
    frags.len() > 0 && !frags.last().style.spec_is_empty()
}

/// A sequence of fragments written together: each after the bytes of its
/// encoded command, then one reset when the last fragment is styled.
pub open spec fn render_all<W: AnyWrite>(frags: Seq<StyledText<W::Unit>>) -> Seq<W::Unit> {
    render_runs::<W>(frags, encode(styles_of(frags)).0, frags.len()) + (if ends_styled(frags) {
        lift::<W>(reset_code())
    } else {
        seq![]
    })
}

/// The command recorded for the fragment at index `begins_at`.
#[derive(Clone, Copy, Debug, PartialEq, Eq, Structural)]
pub struct StyleUpdate {
    pub command: UpdateCommand,
    pub begins_at: usize,
}

/// Styled fragments collected together, so that they are written with as few
/// escape codes as possible.
pub struct AnsiGenericStrings<S> {
    contents: Vec<Content<S>>,
    style_updates: Vec<StyleUpdate>,
    oscontrols: Vec<Option<OSControl<S>>>,
    styles: Vec<Style>,
    current: StyleDelta,
}

/// Styled strings of characters collected together.
pub type AnsiStrings = AnsiGenericStrings<String>;

/// Styled strings of bytes collected together.
pub type AnsiByteStrings = AnsiGenericStrings<Vec<u8>>;

impl<S: AnyWrite> View for AnsiGenericStrings<S> {
    type V = Seq<StyledText<S::Unit>>;

    closed spec fn view(&self) -> Seq<StyledText<S::Unit>> {
        Seq::new(
            self.styles@.len(),
            |i: int|
                StyledText {
                    style: self.styles@[i],
                    text: self.contents@[i].units(),
                    annotation: annotation_of(self.oscontrols@[i]),
                },
        )
    }
}

impl<S: AnyWrite> AnsiGenericStrings<S> {
    /// The recorded commands are those the encoder gives for the styles, one
    /// per fragment and at its index.
    closed spec fn encoded(&self) -> bool {
        let e = encode(self.styles@);
        &&& self.style_updates@.len() == self.styles@.len()
        &&& self.current == e.1
        &&& forall|i: int|
            0 <= i < self.styles@.len() ==> #[trigger] self.style_updates@[i].command == e.0[i]
                && self.style_updates@[i].begins_at == i
    }

    /// The well-formedness of a collection: one content, annotation and
    /// command per style, the commands as encoded.
    pub closed spec fn wf(&self) -> bool {
        &&& self.contents@.len() == self.styles@.len()
        &&& self.oscontrols@.len() == self.styles@.len()
        &&& self.encoded()
    }

    /// An empty collection, with room for `capacity` fragments.
    pub fn empty(capacity: usize) -> (r: Self)
        ensures
            r.wf(),
            r@ == Seq::<StyledText<S::Unit>>::empty(),
    {
        let r = AnsiGenericStrings {
            contents: Vec::with_capacity(capacity),
            style_updates: Vec::with_capacity(capacity),
            oscontrols: Vec::with_capacity(capacity),
            styles: Vec::with_capacity(capacity),
            current: StyleDelta::Empty,
        };
        assert(r@ =~= Seq::<StyledText<S::Unit>>::empty());
        r
    }

    /// Adds a fragment at the end.
    pub fn push(&mut self, s: AnsiGenericString<S>)
        requires
            old(self).wf(),
        ensures
            final(self).wf(),
            final(self)@ == old(self)@.push(s@),
    {
        let index = self.push_content(s.content);
        self.push_style(s.style, index);
        self.push_oscontrol(s.oscontrol);
        assert(self@ =~= old(self)@.push(s@));
    }

    /// Records the command for the next fragment, in style `next`.
    fn push_style(&mut self, next: Style, begins_at: usize)
        requires
            old(self).encoded(),
            begins_at == old(self).styles@.len(),
        ensures
            final(self).encoded(),
            final(self).styles@ == old(self).styles@.push(next),
            final(self).contents == old(self).contents,
            final(self).oscontrols == old(self).oscontrols,
    {
        let ghost before = self.styles@;
        let n = self.styles.len();
        let command = if n > 0 && self.styles[n - 1] == next {
            UpdateCommand::DoNothing
        } else {
            let delta = self.current.delta_next(next);
            if let StyleDelta::PrefixUsing(_) = delta {
                self.current = delta;
            }
            UpdateCommand::of_delta(delta)
        };
        self.styles.push(next);
        self.style_updates.push(StyleUpdate { command, begins_at });
        proof {
            assert(self.styles@.drop_last() =~= before);
            lemma_encode_len(before);
            let e = encode(self.styles@);
            assert forall|i: int| 0 <= i < self.styles@.len() implies #[trigger] self.style_updates@[i].command
                == e.0[i] && self.style_updates@[i].begins_at == i by {
                if i < before.len() {
                    assert(e.0[i] == encode(before).0[i]);
                }
            }
        }
    }

    /// Stores the annotation of the next fragment.
    fn push_oscontrol(&mut self, oscontrol: Option<OSControl<S>>)
        ensures
            final(self).oscontrols@ == old(self).oscontrols@.push(oscontrol),
            final(self).contents == old(self).contents,
            final(self).styles == old(self).styles,
            final(self).style_updates == old(self).style_updates,
            final(self).current == old(self).current,
    {
        self.oscontrols.push(oscontrol)
    }

    /// Stores the content of the next fragment, and returns its index.
    fn push_content(&mut self, content: Content<S>) -> (r: usize)
        ensures
            final(self).contents@ == old(self).contents@.push(content),
            r == old(self).contents@.len(),
            final(self).oscontrols == old(self).oscontrols,
            final(self).styles == old(self).styles,
            final(self).style_updates == old(self).style_updates,
            final(self).current == old(self).current,
    {
        let r = self.contents.len();
        self.contents.push(content);
        r
    }
}

impl<S: AnyWrite> AnsiGenericStrings<S> {
    /// The fragments of `arg`, collected in order.
    pub fn from_slice(arg: &[AnsiGenericString<S>]) -> (r: Self)
        ensures
            r.wf(),
            r@ == arg@.map_values(|s: AnsiGenericString<S>| s@),
    {
        let mut r = AnsiGenericStrings::empty(arg.len());
        let mut i: usize = 0;
        while i < arg.len()
            invariant
                i <= arg@.len(),
                r.wf(),
                r@ == arg@.subrange(0, i as int).map_values(|s: AnsiGenericString<S>| s@),
            decreases arg@.len() - i,
        {
            r.push(arg[i].copy());
            i += 1;
            assert(arg@.subrange(0, i as int).map_values(|s: AnsiGenericString<S>| s@)
                =~= arg@.subrange(0, i - 1 as int).map_values(|s: AnsiGenericString<S>| s@).push(
                arg@[i - 1]@,
            ));
        }
        assert(arg@.subrange(0, arg@.len() as int) =~= arg@);
        r
    }

    /// The recorded updates begin at increasing indices.
    proof fn lemma_updates_sorted(&self)
        requires
            self.wf(),
        ensures
            sorted_updates(self.style_updates@),
            forall|i: int|
                0 <= i < self.style_updates@.len() ==> #[trigger] self.style_updates@[i].begins_at
                    == i,
    {
        let us = self.style_updates@;
        assert forall|i: int| 0 <= i < us.len() implies #[trigger] us[i].begins_at == i by {
            assert(us[i].command == encode(self.styles@).0[i]);
        }
        assert forall|i: int, j: int| 0 <= i < j < us.len() implies #[trigger] us[i].begins_at
            < #[trigger] us[j].begins_at by {
            assert(us[i].begins_at == i);
            assert(us[j].begins_at == j);
        }
    }

    /// A walk over the fragments, each with the command that applies before
    /// it.
    fn write_iter(&self) -> (r: WriteIter<'_, S>)
        requires
            self.wf(),
        ensures
            r.inv(),
            r.position() == 0,
            r.updates() == self.style_updates@,
            r.contents() == self.contents@,
            r.oscontrols() == self.oscontrols@,
    {
        proof {
            self.lemma_updates_sorted();
        }
        WriteIter::new(
            StyleIter::new(&self.style_updates),
            ContentIter::new(&self.contents, &self.oscontrols),
        )
    }

    /// Writes all fragments: before each, the prefix its command asks for;
    /// after the last, a reset if it is styled.
    pub fn write_to_any(&self, w: &mut S)
        requires
            self.wf(),
        ensures
            final(w).units() == old(w).units() + render_all::<S>(self@),
    {
        let n = self.contents.len();
        let ghost frags = self@;
        let ghost commands = encode(self.styles@).0;
        proof {
            assert(styles_of(frags) =~= self.styles@);
        }
        let mut it = self.write_iter();
        let mut i: usize = 0;
        while i < n
            invariant
                self.wf(),
                frags == self@,
                commands == encode(self.styles@).0,
                n == self.styles@.len(),
                i <= n,
                it.inv(),
                it.position() == i,
                it.updates() == self.style_updates@,
                it.contents() == self.contents@,
                it.oscontrols() == self.oscontrols@,
                w.units() == old(w).units() + render_runs::<S>(frags, commands, i as nat),
            decreases n - i,
        {
            proof {
                lemma_lift_empty::<S>();
                self.lemma_updates_sorted();
                lemma_command_at(self.style_updates@, i as int);
            }
            match it.next() {
                Some((command, content, oscontrol)) => {
                    match command {
                        UpdateCommand::Prefix(style) => {
                            w.write_code(&style.prefix());
                        },
                        UpdateCommand::DoNothing => {},
                    }
                    AnsiGenericString::write_inner(content, oscontrol, w);
                },
                None => {},
            }
            i += 1;
            assert(w.units() =~= old(w).units() + render_runs::<S>(frags, commands, i as nat));
        }
        if n > 0 && !self.styles[n - 1].is_empty() {
            w.write_code(&ansi::reset());
        }
        proof {
            lemma_lift_empty::<S>();
        }
        assert(final(w).units() =~= old(w).units() + render_all::<S>(self@));
    }

    /// All fragments written into a new buffer.
    pub fn render(&self) -> (r: S)
        requires
            self.wf(),
        ensures
            r.units() == render_all::<S>(self@),
    {
        let mut w = S::empty_buffer();
        self.write_to_any(&mut w);
        assert(w.units() =~= render_all::<S>(self@));
        w
    }
}

impl AnsiGenericStrings<String> {
    /// All fragments written as a `String`.
    pub fn to_string(&self) -> (r: String)
        requires
            self.wf(),
        ensures
            r@ == render_all::<String>(self@),
    {
        self.render()
    }
}

/// Styled strings collected so that they are written with a minimum of
/// escape codes.
#[allow(non_snake_case)]
pub fn AnsiStrings(arg: &[AnsiString]) -> (r: AnsiStrings)
    ensures
        r.wf(),
        r@ == arg@.map_values(|s: AnsiString| s@),
{
    AnsiGenericStrings::from_slice(arg)
}

/// Styled byte strings collected so that they are written with a minimum of
/// escape codes.
#[allow(non_snake_case)]
pub fn AnsiByteStrings(arg: &[AnsiByteString]) -> (r: AnsiByteStrings)
    ensures
        r.wf(),
        r@ == arg@.map_values(|s: AnsiByteString| s@),
{
    AnsiGenericStrings::from_slice(arg)
}

/// The texts of the fragments, one after the other.
pub open spec fn concat_texts<U>(frags: Seq<StyledText<U>>) -> Seq<U>
    decreases frags.len(),
{
    if frags.len() == 0 {
        seq![]
    } else {
        concat_texts(frags.drop_last()) + frags.last().text
    }
}

/// Plain styles only: no command emits anything, and the terminal is never
/// moved off the plain state.
proof fn lemma_encode_plain(styles: Seq<Style>)
    requires
        forall|i: int| 0 <= i < styles.len() ==> #[trigger] styles[i] == Style::plain(),
    ensures
        encode(styles).1 == StyleDelta::Empty,
        forall|i: int|
            0 <= i < styles.len() ==> #[trigger] encode(styles).0[i] == UpdateCommand::DoNothing,
    decreases styles.len(),
{
    lemma_encode_len(styles);
    if styles.len() > 0 {
        let rest = styles.drop_last();
        lemma_encode_plain(rest);
        lemma_encode_len(rest);
        assert(styles.last() == Style::plain());
        assert forall|i: int| 0 <= i < styles.len() implies #[trigger] encode(styles).0[i]
            == UpdateCommand::DoNothing by {
            if i < rest.len() {
                assert(encode(styles).0[i] == encode(rest).0[i]);
            }
        }
    }
}

/// The first `n` fragments written after commands that emit nothing are their
/// bare texts.
proof fn lemma_runs_of_plain<W: AnyWrite>(
    frags: Seq<StyledText<W::Unit>>,
    commands: Seq<UpdateCommand>,
    n: nat,
)
    requires
        n <= frags.len(),
        n <= commands.len(),
        forall|i: int| 0 <= i < n ==> #[trigger] commands[i] == UpdateCommand::DoNothing,
        forall|i: int| 0 <= i < n ==> (#[trigger] frags[i]).annotation.is_none(),
    ensures
        render_runs::<W>(frags, commands, n) == concat_texts(frags.subrange(0, n as int)),
    decreases n,
{
    if n > 0 {
        lemma_runs_of_plain::<W>(frags, commands, (n - 1) as nat);
        lemma_lift_empty::<W>();
        let sub = frags.subrange(0, n as int);
        assert(sub.drop_last() =~= frags.subrange(0, n - 1));
        assert(render_runs::<W>(frags, commands, n) =~= concat_texts(sub));
    }
}

/// A sequence of plain, unannotated fragments is written as the bare
/// concatenation of their texts, with no escape code at all.
pub proof fn lemma_plain_concatenation<W: AnyWrite>(frags: Seq<StyledText<W::Unit>>)
    requires
        forall|i: int|
            0 <= i < frags.len() ==> (#[trigger] frags[i]).style == Style::plain()
                && frags[i].annotation.is_none(),
    ensures
        render_all::<W>(frags) == concat_texts(frags),
{
    let styles = styles_of(frags);
    lemma_encode_plain(styles);
    lemma_encode_len(styles);
    lemma_runs_of_plain::<W>(frags, encode(styles).0, frags.len());
    assert(frags.subrange(0, frags.len() as int) =~= frags);
    if frags.len() > 0 {
        assert(frags.last().style == Style::plain());
    }
    assert(render_all::<W>(frags) =~= concat_texts(frags));
}

/// Between two styled fragments, a plain one gets exactly one reset before it
/// and nothing after it: the next fragment gets its own codes, preceded by a
/// reset only if its style asks for one.
pub proof fn lemma_no_leakage_across_plain<W: AnyWrite>(
    a: StyledText<W::Unit>,
    p: StyledText<W::Unit>,
    b: StyledText<W::Unit>,
)
    requires
        !a.style.spec_is_empty(),
        p.style.spec_is_empty(),
        !b.style.spec_is_empty(),
    ensures
        encode(seq![a.style, p.style, b.style]).0 == seq![
            UpdateCommand::Prefix(a.style),
            UpdateCommand::Prefix(Style::plain().with_reset()),
            UpdateCommand::Prefix(b.style),
        ],
        render_all::<W>(seq![a, p, b]) == lift::<W>(prefix_bytes(a.style)) + annotated::<W>(
            a.text,
            a.annotation,
        ) + lift::<W>(reset_code()) + annotated::<W>(p.text, p.annotation) + lift::<W>(
            prefix_bytes(b.style),
        ) + annotated::<W>(b.text, b.annotation) + lift::<W>(reset_code()),
        prefix_bytes(b.style) == (if b.style.reset_before_style {
            reset_code()
        } else {
            Seq::<u8>::empty()
        }) + sgr(b.style),
{
    let styles = seq![a.style, p.style, b.style];
    assert(styles.drop_last() =~= seq![a.style, p.style]);
    assert(seq![a.style, p.style].drop_last() =~= seq![a.style]);
    assert(seq![a.style].drop_last() =~= Seq::<Style>::empty());
    assert(p.style.with_reset() == Style::plain().with_reset());
    let e0 = encode(Seq::<Style>::empty());
    assert(e0.0 =~= Seq::<UpdateCommand>::empty() && e0.1 == StyleDelta::Empty);
    let e1 = encode(seq![a.style]);
    assert(e1.0 =~= seq![UpdateCommand::Prefix(a.style)]);
    assert(e1.1 == StyleDelta::PrefixUsing(a.style));
    let e2 = encode(seq![a.style, p.style]);
    assert(e2.0 =~= seq![
        UpdateCommand::Prefix(a.style),
        UpdateCommand::Prefix(Style::plain().with_reset()),
    ]);
    assert(e2.1 == StyleDelta::PrefixUsing(Style::plain().with_reset()));
    if b.style.reset_before_style {
        assert(b.style.with_reset() == b.style);
    } else {
        assert(crate::difference::additive_delta(Style::plain().with_reset(), b.style) == b.style);
    }
    assert(encode(styles).0 =~= seq![
        UpdateCommand::Prefix(a.style),
        UpdateCommand::Prefix(Style::plain().with_reset()),
        UpdateCommand::Prefix(b.style),
    ]);
    let frags = seq![a, p, b];
    assert(styles_of(frags) =~= styles);
    assert(prefix_bytes(Style::plain().with_reset()) =~= reset_code());
    reveal_with_fuel(render_runs, 4);
    assert(render_all::<W>(frags) =~= lift::<W>(prefix_bytes(a.style)) + annotated::<W>(
        a.text,
        a.annotation,
    ) + lift::<W>(reset_code()) + annotated::<W>(p.text, p.annotation) + lift::<W>(
        prefix_bytes(b.style),
    ) + annotated::<W>(b.text, b.annotation) + lift::<W>(reset_code()));
    assert(prefix_bytes(b.style) =~= (if b.style.reset_before_style {
        reset_code()
    } else {
        Seq::<u8>::empty()
    }) + sgr(b.style));
}

/// A sequence whose last fragment is styled ends with `ESC [ 0 m`; one whose
/// last fragment sets nothing gets no reset after it.
pub proof fn lemma_trailing_reset<W: AnyWrite>(frags: Seq<StyledText<W::Unit>>)
    ensures
        ends_styled(frags) ==> render_all::<W>(frags) == render_runs::<W>(
            frags,
            encode(styles_of(frags)).0,
            frags.len(),
        ) + lift::<W>(reset_code()),
        ends_styled(frags) ==> {
            let out = render_all::<W>(frags);
            out.subrange(out.len() - 4, out.len() as int) == lift::<W>(reset_code())
        },
        !ends_styled(frags) ==> render_all::<W>(frags) == render_runs::<W>(
            frags,
            encode(styles_of(frags)).0,
            frags.len(),
        ),
{
    let runs = render_runs::<W>(frags, encode(styles_of(frags)).0, frags.len());
    if ends_styled(frags) {
        let out = render_all::<W>(frags);
        assert(out.subrange(out.len() - 4, out.len() as int) =~= lift::<W>(reset_code()));
    } else {
        assert(render_all::<W>(frags) =~= runs);
    }
}

/// The style `bold, blue foreground`.
pub open spec fn bold_blue() -> Style {
    Style {
        formats: FormatFlags { bold: true, ..FormatFlags::spec_empty() },
        ..Color::Blue.spec_normal()
    }
}

/// A linked fragment in bold blue is written as `ESC[1;34m`, the link's
/// opening `ESC]8;;url ESC\`, the text, the closing `ESC]8;;ESC\`, then
/// `ESC[0m`, in that order, alone or as the only fragment of a sequence.
pub proof fn lemma_annotation_ordering<W: AnyWrite>(text: Seq<W::Unit>, url: Seq<W::Unit>)
    ensures
        ({
            let t = StyledText {
                style: bold_blue(),
                text,
                annotation: Some(Annotation::Link(url)),
            };
            let out = lift::<W>(seq![ESC, CSI_OPEN, digit(1), SEP, digit(3), digit(4), SGR_END])
                + lift::<W>(link_open()) + url + lift::<W>(string_terminator()) + text + lift::<W>(
                link_close(),
            ) + lift::<W>(reset_code());
            render_one::<W>(t) == out && render_all::<W>(seq![t]) == out
        }),
{
    let t = StyledText { style: bold_blue(), text, annotation: Some(Annotation::Link(url)) };
    let codes = ansi::style_codes(bold_blue());
    assert(codes =~= seq![seq![digit(1)], seq![digit(3), digit(4)]]);
    assert(codes.drop_last() =~= seq![seq![digit(1)]]);
    assert(ansi::join_codes(seq![seq![digit(1)]]) == seq![digit(1)]);
    assert(ansi::join_codes(codes) =~= seq![digit(1), SEP, digit(3), digit(4)]);
    assert(prefix_bytes(bold_blue()) =~= seq![
        ESC,
        CSI_OPEN,
        digit(1),
        SEP,
        digit(3),
        digit(4),
        SGR_END,
    ]);
    let frags = seq![t];
    assert(frags.drop_last() =~= Seq::<StyledText<W::Unit>>::empty());
    assert(styles_of(frags) =~= seq![bold_blue()]);
    assert(seq![bold_blue()].drop_last() =~= Seq::<Style>::empty());
    let e0 = encode(Seq::<Style>::empty());
    assert(e0.0 =~= Seq::<UpdateCommand>::empty() && e0.1 == StyleDelta::Empty);
    assert(encode(seq![bold_blue()]).0 =~= seq![UpdateCommand::Prefix(bold_blue())]);
    reveal_with_fuel(render_runs, 2);
    let out = lift::<W>(seq![ESC, CSI_OPEN, digit(1), SEP, digit(3), digit(4), SGR_END])
        + lift::<W>(link_open()) + url + lift::<W>(string_terminator()) + text + lift::<W>(
        link_close(),
    ) + lift::<W>(reset_code());
    assert(render_one::<W>(t) =~= out);
    assert(render_all::<W>(frags) =~= out);
}

} // verus!
