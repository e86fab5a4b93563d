use wiremix::config::style_text::{parse_color, parse_modifiers};
use wiremix::config::theme::{Color, BOLD, CROSSED_OUT, ITALIC, UNDERLINED};

#[test]
fn colors_by_name() {
    assert_eq!(parse_color("red"), Ok(Color::Red));
    assert_eq!(parse_color("Light Blue"), Ok(Color::LightBlue));
    assert_eq!(parse_color("dark_gray"), Ok(Color::DarkGray));
    assert_eq!(parse_color("light-MAGENTA"), Ok(Color::LightMagenta));
    assert_eq!(parse_color("RESET"), Ok(Color::Reset));
}

#[test]
fn colors_by_index() {
    assert_eq!(parse_color("0"), Ok(Color::Indexed(0)));
    assert_eq!(parse_color("255"), Ok(Color::Indexed(255)));
    assert_eq!(parse_color("+7"), Ok(Color::Indexed(7)));
    assert_eq!(parse_color("007"), Ok(Color::Indexed(7)));
    assert!(parse_color("256").is_err());
    assert!(parse_color("99999999999999999999").is_err());
    assert!(parse_color("+").is_err());
}

#[test]
fn colors_by_rgb() {
    assert_eq!(parse_color("#ff8000"), Ok(Color::Rgb(255, 128, 0)));
    assert_eq!(parse_color("#A0b1C2"), Ok(Color::Rgb(0xa0, 0xb1, 0xc2)));
    assert!(parse_color("#ff800").is_err());
    assert!(parse_color("#gg0000").is_err());
    assert!(parse_color("#ééé").is_err());
}

#[test]
fn unknown_color_is_refused() {
    assert_eq!(parse_color("mauve"), Err(String::from("unknown color 'mauve'")));
    assert_eq!(parse_color(""), Err(String::from("unknown color ''")));
}

#[test]
fn modifiers_joined_by_bars() {
    assert_eq!(parse_modifiers("BOLD"), Ok(BOLD));
    assert_eq!(parse_modifiers("BOLD | ITALIC"), Ok(BOLD | ITALIC));
    assert_eq!(parse_modifiers(" UNDERLINED|CROSSED_OUT ||"), Ok(UNDERLINED | CROSSED_OUT));
    assert_eq!(parse_modifiers(""), Ok(0));
    assert_eq!(parse_modifiers("\tBOLD\u{a0}"), Ok(BOLD));
}

#[test]
fn unknown_modifier_is_refused() {
    assert_eq!(parse_modifiers("BOLD | bold"), Err(String::from("unknown modifier 'bold'")));
    assert_eq!(parse_modifiers("BLINK | NOPE"), Err(String::from("unknown modifier 'BLINK'")));
    assert_eq!(parse_modifiers("BOLD | NOPE"), Err(String::from("unknown modifier 'NOPE'")));
}
