use nu_ansi_term::Color::{Blue, Green, Red};
use nu_ansi_term::Style;
use nu_ansi_term::StyleDelta::{Empty, PrefixUsing};

fn style() -> Style {
    Style::new()
}

#[test]
fn nothing() {
    assert_eq!(Green.normal().compute_delta(Green.normal()), Empty);
}

#[test]
fn bold() {
    assert_eq!(Green.normal().compute_delta(Green.bold()), PrefixUsing(style().bold()));
}

#[test]
fn unbold() {
    assert_eq!(
        Green.bold().compute_delta(Green.normal()),
        PrefixUsing(style().fg(Green).reset_before_style())
    );
}

#[test]
fn nothing2() {
    assert_eq!(Green.bold().compute_delta(Green.bold()), Empty);
}

#[test]
fn color_change() {
    assert_eq!(Red.normal().compute_delta(Blue.normal()), PrefixUsing(style().fg(Blue)));
}

#[test]
fn addition_of_blink() {
    assert_eq!(style().compute_delta(style().blink()), PrefixUsing(style().blink()));
}

#[test]
fn addition_of_dimmed() {
    assert_eq!(style().compute_delta(style().dimmed()), PrefixUsing(style().dimmed()));
}

#[test]
fn addition_of_hidden() {
    assert_eq!(style().compute_delta(style().hidden()), PrefixUsing(style().hidden()));
}

#[test]
fn addition_of_reverse() {
    assert_eq!(style().compute_delta(style().reverse()), PrefixUsing(style().reverse()));
}

#[test]
fn addition_of_strikethrough() {
    assert_eq!(
        style().compute_delta(style().strikethrough()),
        PrefixUsing(style().strikethrough())
    );
}

#[test]
fn removal_of_strikethrough() {
    assert_eq!(
        style().strikethrough().compute_delta(style()),
        PrefixUsing(style().reset_before_style())
    );
}

#[test]
fn removal_of_reverse() {
    assert_eq!(
        style().reverse().compute_delta(style()),
        PrefixUsing(style().reset_before_style())
    );
}

#[test]
fn removal_of_hidden() {
    assert_eq!(
        style().hidden().compute_delta(style()),
        PrefixUsing(style().reset_before_style())
    );
}

#[test]
fn removal_of_dimmed() {
    assert_eq!(
        style().dimmed().compute_delta(style()),
        PrefixUsing(style().reset_before_style())
    );
}

#[test]
fn removal_of_blink() {
    assert_eq!(
        style().blink().compute_delta(style()),
        PrefixUsing(style().reset_before_style())
    );
}
