use nu_ansi_term::Color::{Blue, Fixed, Green, LightRed, Red, Rgb};
use nu_ansi_term::{
    AnsiByteStrings, AnsiGenericString, AnsiGenericStrings, AnsiStrings, BoolColoring, BoolStyle,
    Color, Coloring, Content, ContentIter, Difference, FormatFlags, OSControl, Style, StyleDelta,
    StyleIter, StyleUpdate, UpdateCommand,
};

fn s(text: &str) -> String {
    String::from(text)
}

fn bytes(text: &str) -> Vec<u8> {
    text.as_bytes().to_vec()
}

#[test]
fn delta_of_a_style_to_itself_is_empty() {
    let styles = [
        Style::new(),
        Style::new().reset_before_style(),
        Red.bold().underline(),
        Fixed(200).on(Rgb(1, 2, 3)).italic(),
        Style::new().strikethrough().hidden(),
    ];
    for st in styles.iter() {
        assert_eq!(st.compute_delta(*st), StyleDelta::Empty);
    }
}

#[test]
fn plain_fragments_concatenate_without_escapes() {
    let parts = [
        Style::default().paint(s("alpha ")),
        Style::default().paint(s("")),
        Style::default().paint(s("beta")),
        Style::default().paint(s(" gamma")),
    ];
    let out = AnsiStrings(&parts).to_string();
    assert_eq!(out, "alpha beta gamma");
    assert!(!out.contains('\x1B'));
}

#[test]
fn return_to_plain_is_a_bare_reset() {
    let plain_reset = Style::default().reset_before_style();
    assert_eq!(Red.bold().compute_delta(Style::default()), StyleDelta::PrefixUsing(plain_reset));
    assert_eq!(
        Style::new().on(Blue).compute_delta(Style::new()),
        StyleDelta::PrefixUsing(plain_reset)
    );
    assert_eq!(plain_reset.prefix(), bytes("\x1B[0m"));
}

#[test]
fn additive_prefix_holds_only_new_codes() {
    let d = Red.normal().compute_delta(Red.bold().underline());
    let expected = Style::new().bold().underline();
    assert_eq!(d, StyleDelta::PrefixUsing(expected));
    assert_eq!(expected.prefix(), bytes("\x1B[1;4m"));

    let d = Red.bold().compute_delta(Blue.bold().on(Green));
    let expected = Style::new().fg(Blue).on(Green);
    assert_eq!(d, StyleDelta::PrefixUsing(expected));
    assert_eq!(expected.prefix(), bytes("\x1B[42;34m"));
}

#[test]
fn removal_falls_back_to_reset_and_full_codes() {
    let d = Red.bold().underline().compute_delta(Red.underline());
    let expected = Red.underline().reset_before_style();
    assert_eq!(d, StyleDelta::PrefixUsing(expected));
    assert_eq!(expected.prefix(), bytes("\x1B[0m\x1B[4;31m"));

    let d = Style::new().on(Blue).bold().compute_delta(Style::new().bold());
    assert_eq!(d, StyleDelta::PrefixUsing(Style::new().bold().reset_before_style()));
}

#[test]
fn forced_reset_is_kept() {
    let target = Red.normal().reset_before_style();
    assert_eq!(Style::new().compute_delta(target), StyleDelta::PrefixUsing(target));
    assert_eq!(target.prefix(), bytes("\x1B[0m\x1B[31m"));
}

#[test]
fn plain_between_styled_gets_one_reset() {
    let out = AnsiStrings(&[
        Green.paint(s("a")),
        Style::default().paint(s("b")),
        Blue.paint(s("c")),
    ])
    .to_string();
    assert_eq!(out, "\x1B[32ma\x1B[0mb\x1B[34mc\x1B[0m");
    assert!(!out.contains("\x1B[0m\x1B[0m"));
}

#[test]
fn trailing_reset_only_after_styled_end() {
    let ends_styled = AnsiStrings(&[Style::default().paint(s("x")), Green.paint(s("y"))]).to_string();
    assert_eq!(ends_styled, "x\x1B[32my\x1B[0m");
    assert!(ends_styled.ends_with("\x1B[0m"));

    let ends_plain = AnsiStrings(&[Green.paint(s("y")), Style::default().paint(s("x"))]).to_string();
    assert_eq!(ends_plain, "\x1B[32my\x1B[0mx");
}

#[test]
fn linked_bold_blue_fragment_byte_order() {
    let link = Blue.bold().paint(s("text")).hyperlink(s("URL"));
    let expected = "\x1B[1;34m\x1B]8;;URL\x1B\\text\x1B]8;;\x1B\\\x1B[0m";
    assert_eq!(link.to_string(), expected);
    assert_eq!(AnsiStrings(&[link]).to_string(), expected);
}

#[test]
fn green_scenario_deltas() {
    assert_eq!(
        Green.normal().compute_delta(Green.bold()),
        StyleDelta::PrefixUsing(Style::new().bold())
    );
    assert_eq!(
        Green.bold().compute_delta(Green.normal()),
        StyleDelta::PrefixUsing(Style::new().fg(Green).reset_before_style())
    );
    assert_eq!(
        Red.normal().compute_delta(Blue.normal()),
        StyleDelta::PrefixUsing(Style::new().fg(Blue))
    );
}

#[test]
fn empty_sequence_renders_nothing() {
    let none: [AnsiGenericString<String>; 0] = [];
    assert_eq!(AnsiStrings(&none).to_string(), "");
    let collected: AnsiGenericStrings<String> = AnsiGenericStrings::empty(4);
    assert_eq!(collected.to_string(), "");
}

#[test]
fn repeated_style_is_not_repeated() {
    let out = AnsiStrings(&[
        Green.paint(s("a")),
        Green.paint(s("b")),
        Style::default().paint(s("c")),
    ])
    .to_string();
    assert_eq!(out, "\x1B[32mab\x1B[0mc");
}

#[test]
fn chained_minimal_deltas() {
    let out = AnsiStrings(&[
        Green.paint(s("a")),
        Green.bold().paint(s("b")),
        Green.bold().underline().paint(s("c")),
    ])
    .to_string();
    assert_eq!(out, "\x1B[32ma\x1B[1mb\x1B[4;32mc\x1B[0m");
}

#[test]
fn byte_strings_render_bytes() {
    let out = AnsiByteStrings(&[
        Red.paint(bytes("r")),
        Style::default().paint(vec![0xff, 0x00]),
    ])
    .render();
    let mut expected = bytes("\x1B[31mr\x1B[0m");
    expected.extend_from_slice(&[0xff, 0x00]);
    assert_eq!(out, expected);
    assert_eq!(Blue.paint(bytes("b")).render(), bytes("\x1B[34mb\x1B[0m"));
}

#[test]
fn color_codes() {
    assert_eq!(Fixed(200).normal().prefix(), bytes("\x1B[38;5;200m"));
    assert_eq!(Style::new().on(Fixed(7)).prefix(), bytes("\x1B[48;5;7m"));
    assert_eq!(Style::new().on(Rgb(1, 22, 255)).prefix(), bytes("\x1B[48;2;1;22;255m"));
    assert_eq!(Rgb(0, 10, 100).normal().prefix(), bytes("\x1B[38;2;0;10;100m"));
    assert_eq!(LightRed.normal().prefix(), bytes("\x1B[91m"));
    assert_eq!(Style::new().on(LightRed).prefix(), bytes("\x1B[101m"));
    assert_eq!(Color::Default.normal().prefix(), bytes("\x1B[39m"));
    assert_eq!(Style::new().on(Color::Default).prefix(), bytes("\x1B[49m"));
    assert_eq!(Color::Magenta.code(false), bytes("35"));
    assert_eq!(Color::LightGray.code(true), bytes("107"));
    assert_eq!(Color::Black.code(true), bytes("40"));
}

#[test]
fn all_format_codes_in_order() {
    let st = Style::new()
        .strikethrough()
        .hidden()
        .reverse()
        .blink()
        .underline()
        .italic()
        .dimmed()
        .bold()
        .fg(Red)
        .on(Blue);
    assert_eq!(st.prefix(), bytes("\x1B[1;2;3;4;5;7;8;9;44;31m"));
    assert_eq!(st.suffix(), bytes("\x1B[0m"));
    assert_eq!(Style::new().prefix(), bytes(""));
    assert_eq!(Style::new().suffix(), bytes(""));
}

#[test]
fn delta_next_from_empty_and_prefix() {
    assert_eq!(StyleDelta::Empty.delta_next(Style::new()), StyleDelta::Empty);
    assert_eq!(
        StyleDelta::Empty.delta_next(Red.normal()),
        StyleDelta::PrefixUsing(Red.normal())
    );
    assert_eq!(
        StyleDelta::PrefixUsing(Red.normal()).delta_next(Red.bold()),
        StyleDelta::PrefixUsing(Style::new().bold())
    );
    assert_eq!(StyleDelta::default(), StyleDelta::Empty);
    assert_eq!(UpdateCommand::default(), UpdateCommand::DoNothing);
    assert_eq!(
        UpdateCommand::of_delta(StyleDelta::PrefixUsing(Red.normal())),
        UpdateCommand::Prefix(Red.normal())
    );
}

#[test]
fn turned_on_is_turned_off_reversed() {
    let a = Red.bold().underline();
    let b = Style::new().bold().italic().on(Blue);
    let on = BoolStyle::turned_on(BoolStyle::from(a), BoolStyle::from(b));
    let off = BoolStyle::turned_off(BoolStyle::from(b), BoolStyle::from(a));
    assert_eq!(on, off);
    assert!(on.formats.italic && !on.formats.bold && !on.formats.underline);
    assert!(on.coloring.background && !on.coloring.foreground);
    let f = FormatFlags::turned_off(a.formats, b.formats);
    assert!(f.underline && !f.bold && !f.italic);
}

#[test]
fn bool_coloring_presence() {
    let c = BoolColoring::from(Coloring { fg: Some(Red), bg: None });
    assert!(c.foreground && !c.background);
    assert!(!c.is_empty());
    assert!(BoolColoring::from(Coloring { fg: None, bg: None }).is_empty());
    assert!(true.conjunction(true) && !true.conjunction(false));
    assert!(false.not());
}

#[test]
fn title_and_link_accessors() {
    let t = AnsiGenericString::title(s("T"));
    assert!(matches!(t.oscontrol(), Some(OSControl::Title)));
    assert!(t.url_string().is_none());
    let mut l = Red.paint(s("x")).hyperlink(s("u"));
    match l.url_string() {
        Some(Content::StrLike(u)) => assert_eq!(u, "u"),
        None => panic!("no url"),
    }
    *l.style_mut() = Blue.normal();
    assert_eq!(*l.style(), Blue.normal());
    assert_eq!(l.to_string(), "\x1B[34m\x1B]8;;u\x1B\\x\x1B]8;;\x1B\\\x1B[0m");
    match l.content() {
        Content::StrLike(c) => assert_eq!(c, "x"),
    }
}

#[test]
fn title_inside_styled_sequence() {
    let out = AnsiStrings(&[Green.paint(s("g")), AnsiGenericString::title(s("T"))]).to_string();
    assert_eq!(out, "\x1B[32mg\x1B[0m\x1B]2;T\x1B\\");
}

#[test]
fn pushed_fragments_render_like_collected() {
    let mut col = AnsiGenericStrings::empty(0);
    col.push(Red.paint(s("a")));
    col.push(Red.bold().paint(s("b")));
    col.push(Style::new().paint(s("c")));
    assert_eq!(col.to_string(), "\x1B[31ma\x1B[1mb\x1B[0mc");
}

#[test]
fn style_iter_resolves_sparse_updates() {
    let reset = Style::new().reset_before_style();
    let ups = vec![
        StyleUpdate { command: UpdateCommand::Prefix(Red.normal()), begins_at: 0 },
        StyleUpdate { command: UpdateCommand::Prefix(reset), begins_at: 3 },
    ];
    let mut it = StyleIter::new(&ups);
    assert_eq!(it.next(), Some(UpdateCommand::Prefix(Red.normal())));
    assert_eq!(it.next(), Some(UpdateCommand::Prefix(Red.normal())));
    assert_eq!(it.next(), Some(UpdateCommand::Prefix(Red.normal())));
    assert_eq!(it.next(), Some(UpdateCommand::Prefix(reset)));
    assert_eq!(it.next(), Some(UpdateCommand::Prefix(reset)));
}

#[test]
fn style_iter_before_any_update() {
    let late = vec![StyleUpdate { command: UpdateCommand::Prefix(Blue.bold()), begins_at: 1 }];
    let mut it = StyleIter::new(&late);
    assert_eq!(it.next(), None);
    assert_eq!(it.next(), Some(UpdateCommand::Prefix(Blue.bold())));
    let none: Vec<StyleUpdate> = vec![];
    let mut it = StyleIter::new(&none);
    assert_eq!(it.next(), None);
    assert_eq!(it.next(), None);
}

#[test]
fn content_iter_walks_in_order() {
    let contents = vec![Content::StrLike(s("a")), Content::StrLike(s("b"))];
    let oscontrols = vec![None, Some(OSControl::Title)];
    let mut it = ContentIter::new(&contents, &oscontrols);
    match it.next() {
        Some((Content::StrLike(c), None)) => assert_eq!(c, "a"),
        _ => panic!("first fragment"),
    }
    match it.next() {
        Some((Content::StrLike(c), Some(OSControl::Title))) => assert_eq!(c, "b"),
        _ => panic!("second fragment"),
    }
    assert!(it.next().is_none());
}

#[test]
fn fragment_from_text_is_plain() {
    let f = AnsiGenericString::from(s("plain"));
    assert_eq!(*f.style(), Style::default());
    assert_eq!(f.to_string(), "plain");
}
