use better_term::{Color, Style};

fn expected_sequence(style: &Style) -> String {
    let mut parts: Vec<String> = Vec::new();
    if style.overwrite {
        parts.push(String::from("0"));
    }
    if style.bold {
        parts.push(String::from("1"));
    }
    if style.dim {
        parts.push(String::from("2"));
    }
    if style.italic {
        parts.push(String::from("3"));
    }
    if style.underline {
        parts.push(String::from("4"));
    }
    if style.blink {
        parts.push(String::from("5"));
    }
    if style.invert {
        parts.push(String::from("7"));
    }
    if style.hide {
        parts.push(String::from("8"));
    }
    if style.strikethrough {
        parts.push(String::from("9"));
    }
    if let Some(bg) = style.bg {
        parts.push(bg.as_bg());
    }
    if let Some(fg) = style.fg {
        parts.push(fg.as_fg());
    }
    format!("\x1b[{}m", parts.join(";"))
}

#[test]
fn default_style_is_the_bare_sequence() {
    assert_eq!(Style::default().gen(), "\x1b[m");
    assert_eq!(Style::new().gen(), "\x1b[m");
    assert_eq!(Style::default().to_escape_string(), "\x1b[m");
}

#[test]
fn new_style_has_nothing_set() {
    let style = Style::new();
    assert_eq!(style, Style::default());
    assert_eq!(style.fg, None);
    assert_eq!(style.bg, None);
    assert!(!style.overwrite);
    assert!(!style.bold);
    assert!(!style.dim);
    assert!(!style.italic);
    assert!(!style.underline);
    assert!(!style.blink);
    assert!(!style.invert);
    assert!(!style.hide);
    assert!(!style.strikethrough);
}

#[test]
fn bold_alone() {
    assert_eq!(Style::new().bold().gen(), "\x1b[1m");
}

#[test]
fn bold_comes_before_underline() {
    assert_eq!(Style::new().bold().underline().gen(), "\x1b[1;4m");
}

#[test]
fn order_of_the_calls_does_not_change_the_sequence() {
    assert_eq!(Style::new().underline().bold().gen(), "\x1b[1;4m");
    assert_eq!(
        Style::new().fg(Color::Red).strikethrough().overwrite().gen(),
        "\x1b[0;9;31m"
    );
}

#[test]
fn overwrite_resets_before_the_foreground() {
    assert_eq!(Style::new().overwrite().fg(Color::Red).gen(), "\x1b[0;31m");
}

#[test]
fn each_attribute_has_its_number() {
    assert_eq!(Style::new().overwrite().gen(), "\x1b[0m");
    assert_eq!(Style::new().bold().gen(), "\x1b[1m");
    assert_eq!(Style::new().dim().gen(), "\x1b[2m");
    assert_eq!(Style::new().italic().gen(), "\x1b[3m");
    assert_eq!(Style::new().underline().gen(), "\x1b[4m");
    assert_eq!(Style::new().blink().gen(), "\x1b[5m");
    assert_eq!(Style::new().invert().gen(), "\x1b[7m");
    assert_eq!(Style::new().hidden().gen(), "\x1b[8m");
    assert_eq!(Style::new().strikethrough().gen(), "\x1b[9m");
}

#[test]
fn everything_set_is_written_in_the_fixed_order() {
    let style = Style::new()
        .fg(Color::Green)
        .bg(Color::Red)
        .strikethrough()
        .hidden()
        .invert()
        .blink()
        .underline()
        .italic()
        .dim()
        .bold()
        .overwrite();
    assert_eq!(style.gen(), "\x1b[0;1;2;3;4;5;7;8;9;41;32m");
}

#[test]
fn background_comes_before_foreground() {
    assert_eq!(Style::new().fg(Color::White).bg(Color::Black).gen(), "\x1b[40;37m");
    assert_eq!(Style::new().bg(Color::Black).fg(Color::White).gen(), "\x1b[40;37m");
    assert_eq!(
        Style::new().fg(Color::RGB(1, 2, 3)).bg(Color::Fixed(200)).gen(),
        "\x1b[48;5;200;38;2;1;2;3m"
    );
}

#[test]
fn colors_alone() {
    assert_eq!(Style::new().fg(Color::BrightCyan).gen(), "\x1b[96m");
    assert_eq!(Style::new().bg(Color::BrightCyan).gen(), "\x1b[106m");
    assert_eq!(Style::new().fg(Color::Hex(0xFF00A0)).gen(), "\x1b[38;2;255;0;160m");
    assert_eq!(Style::new().bg(Color::Reset).gen(), "\x1b[47m");
}

#[test]
fn cleared_colors_are_not_written() {
    assert_eq!(Style::new().fg(Color::Red).clear_fg().gen(), "\x1b[m");
    assert_eq!(Style::new().bg(Color::Red).clear_bg().gen(), "\x1b[m");
    assert_eq!(Style::new().fg(Color::Red).bg(Color::Blue).clear_fg().gen(), "\x1b[44m");
    assert_eq!(Style::new().fg(Color::Red).bg(Color::Blue).clear_bg().gen(), "\x1b[31m");
    assert_eq!(Style::new().bold().fg(Color::Red).clear_fg(), Style::new().bold());
    assert_eq!(Style::new().clear_fg(), Style::new());
    assert_eq!(Style::new().clear_bg(), Style::new());
}

#[test]
fn a_later_color_replaces_an_earlier_one() {
    assert_eq!(Style::new().fg(Color::Red).fg(Color::Blue).gen(), "\x1b[34m");
    assert_eq!(Style::new().bg(Color::Red).bg(Color::Blue).gen(), "\x1b[44m");
}

#[test]
fn every_combination_is_written_in_order() {
    let colors = [None, Some(Color::Yellow), Some(Color::Fixed(17)), Some(Color::RGB(9, 80, 255))];
    for bits in 0..512u32 {
        for fg in colors {
            for bg in colors {
                let style = Style {
                    fg,
                    bg,
                    overwrite: bits & 1 != 0,
                    bold: bits & 2 != 0,
                    dim: bits & 4 != 0,
                    italic: bits & 8 != 0,
                    underline: bits & 16 != 0,
                    blink: bits & 32 != 0,
                    invert: bits & 64 != 0,
                    hide: bits & 128 != 0,
                    strikethrough: bits & 256 != 0,
                };
                assert_eq!(style.gen(), expected_sequence(&style));
                assert_eq!(style.to_escape_string(), style.gen());
            }
        }
    }
}

#[test]
fn a_setter_changes_one_field() {
    let base = Style::new().bg(Color::Blue).dim();
    assert_eq!(base.bold(), Style { bold: true, ..base });
    assert_eq!(base.dim(), base);
    assert_eq!(base.italic(), Style { italic: true, ..base });
    assert_eq!(base.underline(), Style { underline: true, ..base });
    assert_eq!(base.blink(), Style { blink: true, ..base });
    assert_eq!(base.invert(), Style { invert: true, ..base });
    assert_eq!(base.hidden(), Style { hide: true, ..base });
    assert_eq!(base.strikethrough(), Style { strikethrough: true, ..base });
    assert_eq!(base.overwrite(), Style { overwrite: true, ..base });
    assert_eq!(base.fg(Color::Red), Style { fg: Some(Color::Red), ..base });
    assert_eq!(base.bg(Color::Red), Style { bg: Some(Color::Red), ..base });
    assert_eq!(base.clear_bg(), Style { bg: None, ..base });
    assert_eq!(base.clear_fg(), base);
}

#[test]
fn a_setter_leaves_its_receiver_as_it_was() {
    let base = Style::new().bold();
    let changed = base.underline().fg(Color::Red);
    assert_eq!(base, Style::new().bold());
    assert_eq!(base.gen(), "\x1b[1m");
    assert_eq!(changed.gen(), "\x1b[1;4;31m");
}

#[test]
fn setters_are_idempotent() {
    let base = Style::new().italic().bg(Color::Cyan);
    assert_eq!(base.bold().bold(), base.bold());
    assert_eq!(base.dim().dim(), base.dim());
    assert_eq!(base.italic().italic(), base.italic());
    assert_eq!(base.underline().underline(), base.underline());
    assert_eq!(base.blink().blink(), base.blink());
    assert_eq!(base.invert().invert(), base.invert());
    assert_eq!(base.hidden().hidden(), base.hidden());
    assert_eq!(base.strikethrough().strikethrough(), base.strikethrough());
    assert_eq!(base.overwrite().overwrite(), base.overwrite());
    assert_eq!(base.fg(Color::Red).fg(Color::Red), base.fg(Color::Red));
    assert_eq!(base.bg(Color::Red).bg(Color::Red), base.bg(Color::Red));
    assert_eq!(base.clear_fg().clear_fg(), base.clear_fg());
    assert_eq!(base.clear_bg().clear_bg(), base.clear_bg());
    assert_eq!(Style::new().bold().bold().gen(), "\x1b[1m");
}
