use task_colors::color::{get_color, get_tcolor, TColor, FALLBACK_INDEX};
use tui::style::Color;

#[test]
fn default_pair_is_black_on_bright_white() {
    let pair = TColor::default();
    assert_eq!(pair.fg, Color::Indexed(0));
    assert_eq!(pair.bg, Color::Indexed(15));
    assert_eq!(FALLBACK_INDEX, 15);
}

#[test]
fn indexed_token_yields_its_digit() {
    for d in 0u8..10 {
        assert_eq!(get_color(&format!("color{}", d)), Color::Indexed(d));
    }
}

#[test]
fn indexed_token_reads_one_digit_only() {
    assert_eq!(get_color("color255"), Color::Indexed(2));
    assert_eq!(get_color("color10"), Color::Indexed(1));
}

#[test]
fn indexed_token_without_digit_falls_back() {
    assert_eq!(get_color("color"), Color::Indexed(15));
    assert_eq!(get_color("colorx"), Color::Indexed(15));
    assert_eq!(get_color("color.error"), Color::Indexed(15));
    assert_eq!(get_color("color\u{e9}"), Color::Indexed(15));
}

#[test]
fn rgb_token_yields_palette_index() {
    for r in 0u16..10 {
        for g in 0u16..10 {
            for b in 0u16..10 {
                let index = 16 + 36 * r + 6 * g + b;
                let expected = if index <= 255 { index as u8 } else { 15 };
                assert_eq!(get_color(&format!("rgb{}{}{}", r, g, b)), Color::Indexed(expected));
            }
        }
    }
}

#[test]
fn rgb_token_exact_values() {
    assert_eq!(get_color("rgb000"), Color::Indexed(16));
    assert_eq!(get_color("rgb123"), Color::Indexed(67));
    assert_eq!(get_color("rgb555"), Color::Indexed(231));
    assert_eq!(get_color("rgb635"), Color::Indexed(255));
    assert_eq!(get_color("rgb5551"), Color::Indexed(231));
}

#[test]
fn rgb_token_out_of_palette_falls_back() {
    assert_eq!(get_color("rgb636"), Color::Indexed(15));
    assert_eq!(get_color("rgb640"), Color::Indexed(15));
    assert_eq!(get_color("rgb999"), Color::Indexed(15));
}

#[test]
fn rgb_token_without_three_digits_falls_back() {
    assert_eq!(get_color("rgb"), Color::Indexed(15));
    assert_eq!(get_color("rgb12"), Color::Indexed(15));
    assert_eq!(get_color("rgb1x3"), Color::Indexed(15));
    assert_eq!(get_color("rgbx23"), Color::Indexed(15));
    assert_eq!(get_color("rgb12x"), Color::Indexed(15));
}

#[test]
fn named_tokens() {
    assert_eq!(get_color("white"), Color::White);
    assert_eq!(get_color("black"), Color::Black);
}

#[test]
fn unknown_tokens_fall_back() {
    assert_eq!(get_color(""), Color::Indexed(15));
    assert_eq!(get_color("red"), Color::Indexed(15));
    assert_eq!(get_color("White"), Color::Indexed(15));
    assert_eq!(get_color("whiter"), Color::Indexed(15));
    assert_eq!(get_color("blac"), Color::Indexed(15));
    assert_eq!(get_color(" white"), Color::Indexed(15));
}

#[test]
fn foreground_on_background() {
    let pair = get_tcolor("red on blue");
    assert_eq!(pair, TColor { fg: Color::Indexed(15), bg: Color::Indexed(15) });
    let pair = get_tcolor("black on white");
    assert_eq!(pair, TColor { fg: Color::Black, bg: Color::White });
    let pair = get_tcolor("color3 on rgb123");
    assert_eq!(pair, TColor { fg: Color::Indexed(3), bg: Color::Indexed(67) });
    let pair = get_tcolor("rgb555 on color0");
    assert_eq!(pair, TColor { fg: Color::Indexed(231), bg: Color::Indexed(0) });
}

#[test]
fn background_alone() {
    let pair = get_tcolor("on blue");
    assert_eq!(pair, TColor { fg: Color::Indexed(0), bg: Color::Indexed(15) });
    let pair = get_tcolor("on white");
    assert_eq!(pair, TColor { fg: Color::Indexed(0), bg: Color::White });
    let pair = get_tcolor("on color4");
    assert_eq!(pair, TColor { fg: Color::Indexed(0), bg: Color::Indexed(4) });
}

#[test]
fn foreground_alone() {
    let pair = get_tcolor("red");
    assert_eq!(pair, TColor { fg: Color::Indexed(15), bg: Color::Indexed(15) });
    let pair = get_tcolor("black");
    assert_eq!(pair, TColor { fg: Color::Black, bg: Color::Indexed(15) });
    let pair = get_tcolor("color7");
    assert_eq!(pair, TColor { fg: Color::Indexed(7), bg: Color::Indexed(15) });
    let pair = get_tcolor("");
    assert_eq!(pair, TColor { fg: Color::Indexed(15), bg: Color::Indexed(15) });
}

#[test]
fn words_are_taken_by_position() {
    // The third word is the background, whatever it is.
    let pair = get_tcolor("bold black on white");
    assert_eq!(pair, TColor { fg: Color::Indexed(15), bg: Color::Indexed(15) });
    let pair = get_tcolor("black on white on color1");
    assert_eq!(pair, TColor { fg: Color::Black, bg: Color::White });
}

#[test]
fn words_are_parted_by_any_run_of_whitespace() {
    let pair = get_tcolor("white  on black");
    assert_eq!(pair, TColor { fg: Color::White, bg: Color::Black });
    let pair = get_tcolor("white \t on \t black\r");
    assert_eq!(pair, TColor { fg: Color::White, bg: Color::Black });
    let pair = get_tcolor("  color2 on   rgb123  ");
    assert_eq!(pair, TColor { fg: Color::Indexed(2), bg: Color::Indexed(67) });
    let pair = get_tcolor("on    white");
    assert_eq!(pair, TColor { fg: Color::Indexed(0), bg: Color::White });
}

#[test]
fn tab_before_on_is_not_the_on_between_two_colours() {
    // No " on " here, but "on ": the second word, "on", is the background.
    let pair = get_tcolor("white\ton black");
    assert_eq!(pair, TColor { fg: Color::Indexed(0), bg: Color::Indexed(15) });
}

#[test]
fn missing_word_gives_the_fallback_index() {
    let pair = get_tcolor("black on ");
    assert_eq!(pair, TColor { fg: Color::Black, bg: Color::Indexed(15) });
    let pair = get_tcolor(" on white");
    assert_eq!(pair, TColor { fg: Color::Indexed(15), bg: Color::Indexed(15) });
    let pair = get_tcolor(" on ");
    assert_eq!(pair, TColor { fg: Color::Indexed(15), bg: Color::Indexed(15) });
    let pair = get_tcolor("on ");
    assert_eq!(pair, TColor { fg: Color::Indexed(0), bg: Color::Indexed(15) });
}

#[test]
fn on_at_the_end_is_part_of_the_foreground() {
    // Without a space behind "on" the whole value is one foreground word.
    let pair = get_tcolor("white on");
    assert_eq!(pair, TColor { fg: Color::Indexed(15), bg: Color::Indexed(15) });
}

#[test]
fn on_inside_a_word_counts_as_on() {
    // "crimson white" holds "on " and no " on ": the second word is the background.
    let pair = get_tcolor("crimson white");
    assert_eq!(pair, TColor { fg: Color::Indexed(0), bg: Color::White });
    let pair = get_tcolor("salmon on black");
    assert_eq!(pair, TColor { fg: Color::Indexed(15), bg: Color::Black });
}
