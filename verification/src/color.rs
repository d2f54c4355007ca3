//! Colours of the task list: what a colour word means, what a line of two
//! colour words means, and the table of all settings.

use crate::text::{
    begins_with, chars_of, contains, is_gap, is_space, is_word, lemma_words_after_gap,
    lemma_words_begin,
    lemma_words_of_word, occurs_at, occurs_in, split_words, starts_with, views, words,
};
use tui::style::Color;
use vstd::prelude::*;

verus! {

/// The terminal colour of the `tui` crate. Its variants are read from the
/// crate itself, so a colour is built and compared here as any enum is.
#[verifier::external_type_specification]
pub struct ExColor(tui::style::Color);

/// The palette index of a colour word that has no meaning.
pub const FALLBACK_INDEX: u8 = 15;

/// A foreground and a background colour.
#[derive(Debug, Clone, Copy, PartialEq, Eq)]
pub struct TColor {
    pub fg: Color,
    pub bg: Color,
}

impl TColor {
    /// Black on bright white, by palette index: the pair of a setting that
    /// was not made.
    pub fn default() -> (pair: Self)
        ensures
            pair == (TColor { fg: Color::Indexed(0), bg: Color::Indexed(FALLBACK_INDEX) }),
    {
        TColor { fg: Color::Indexed(0), bg: Color::Indexed(FALLBACK_INDEX) }
    }
}

/// The value of the decimal digit `c`, if it is one.
pub open spec fn digit(c: char) -> Option<int> {
    if '0' <= c <= '9' {
        Some(c as int - '0' as int)
    } else {
        None
    }
}

/// The value of the decimal digit at offset `at` of `s`, if one stands there.
pub open spec fn digit_at(s: Seq<char>, at: int) -> Option<int> {
    if 0 <= at < s.len() {
        digit(s[at])
    } else {
        None
    }
}

/// Where a colour given by three levels lies in the palette of 256.
pub open spec fn palette_index(red: int, green: int, blue: int) -> int {
    16 + 36 * red + 6 * green + blue
}

/// The colour that a colour word stands for.
///
/// `color` and one digit is that palette index; whatever follows the digit
/// is not read. `rgb` and three digits is `palette_index` of the three.
/// `white` and `black` are the named colours. Every other word is the
/// fallback index, and so is a word that begins with `color` or `rgb` but
/// lacks a digit where one is due, or whose three digits lead out of the
/// palette.
pub open spec fn color_of_token(s: Seq<char>) -> Color {
    if begins_with(s, "color"@) {
        match digit_at(s, 5) {
            Some(index) => Color::Indexed(index as u8),
            None => Color::Indexed(FALLBACK_INDEX),
        }
    } else if begins_with(s, "rgb"@) {
        match (digit_at(s, 3), digit_at(s, 4), digit_at(s, 5)) {
            (Some(red), Some(green), Some(blue)) => if palette_index(red, green, blue) <= 255 {
                Color::Indexed(palette_index(red, green, blue) as u8)
            } else {
                Color::Indexed(FALLBACK_INDEX)
            },
            _ => Color::Indexed(FALLBACK_INDEX),
        }
    } else if s == "white"@ {
        Color::White
    } else if s == "black"@ {
        Color::Black
    } else {
        Color::Indexed(FALLBACK_INDEX)
    }
}

/// Reads the decimal digit at offset `at` of `s`.
pub fn read_digit(s: &[char], at: usize) -> (d: Option<u8>)
    ensures
        match d {
            Some(v) => digit_at(s@, at as int) == Some(v as int),
            None => digit_at(s@, at as int) is None,
        },
{
    if at >= s.len() {
        return None;
    }
    let c = s[at];
    if '0' <= c && c <= '9' {
        Some((c as u32 - '0' as u32) as u8)
    } else {
        None
    }
}

/// The colour that the word `s` stands for.
pub fn token_color(s: &[char]) -> (c: Color)
    ensures
        c == color_of_token(s@),
{
    let indexed = chars_of("color");
    let levels = chars_of("rgb");
    if starts_with(s, indexed.as_slice()) {
        match read_digit(s, 5) {
            Some(index) => Color::Indexed(index),
            None => Color::Indexed(FALLBACK_INDEX),
        }
    } else if starts_with(s, levels.as_slice()) {
        match (read_digit(s, 3), read_digit(s, 4), read_digit(s, 5)) {
            (Some(red), Some(green), Some(blue)) => {
                let index: u16 = 16 + 36 * (red as u16) + 6 * (green as u16) + (blue as u16);
                if index <= 255 {
                    Color::Indexed(index as u8)
                } else {
                    Color::Indexed(FALLBACK_INDEX)
                }
            },
            _ => Color::Indexed(FALLBACK_INDEX),
        }
    } else {
        let white = chars_of("white");
        let black = chars_of("black");
        if same(s, white.as_slice()) {
            Color::White
        } else if same(s, black.as_slice()) {
            Color::Black
        } else {
            Color::Indexed(FALLBACK_INDEX)
        }
    }
}

/// Tells whether two words are the same.
pub fn same(s: &[char], t: &[char]) -> (b: bool)
    ensures
        b == (s@ == t@),
{
    if s.len() != t.len() {
        return false;
    }
    let b = starts_with(s, t);
    assert(s@.subrange(0, s@.len() as int) =~= s@);
    b
}

/// The colour that a colour word stands for.
///
/// A word that cannot be read is no error: it stands for the fallback
/// index, as a word does that is not known at all.
pub fn get_color(s: &str) -> (c: Color)
    ensures
        c == color_of_token(s@),
{
    let word = chars_of(s);
    token_color(word.as_slice())
}

/// The colour of the word at place `at`, or the fallback index where
/// the value has no such word.
pub open spec fn word_color(all: Seq<Seq<char>>, at: int) -> Color {
    if 0 <= at < all.len() {
        color_of_token(all[at])
    } else {
        Color::Indexed(FALLBACK_INDEX)
    }
}

/// The pair of colours that the value of a setting stands for.
///
/// The words of the value are its longest runs of characters other than
/// space, tab, line feed, vertical tab, form feed and carriage return.
/// With ` on ` in the value, the first word is the foreground and the
/// third the background. Else, with `on ` in it, the second word is the
/// background and the foreground is index 0. Else the whole value is the
/// foreground and the background is the fallback index. A word that the
/// value does not have gives the fallback index, as an unknown word does.
pub open spec fn pair_of_line(line: Seq<char>) -> TColor {
    let all = words(line);
    if occurs_in(line, " on "@) {
        TColor { fg: word_color(all, 0), bg: word_color(all, 2) }
    } else if occurs_in(line, "on "@) {
        TColor { fg: Color::Indexed(0), bg: word_color(all, 1) }
    } else {
        TColor { fg: color_of_token(line), bg: Color::Indexed(FALLBACK_INDEX) }
    }
}

/// The colour of the word at place `at` of `all`.
pub fn color_at(all: &Vec<&[char]>, at: usize) -> (c: Color)
    ensures
        c == word_color(views(all@), at as int),
{
    if at < all.len() {
        assert(views(all@)[at as int] == all@[at as int]@);
        token_color(all[at])
    } else {
        Color::Indexed(FALLBACK_INDEX)
    }
}

/// The pair of colours that the value `line` stands for.
pub fn line_pair(line: &[char]) -> (pair: TColor)
    ensures
        pair == pair_of_line(line@),
{
    let between = chars_of(" on ");
    let before = chars_of("on ");
    if contains(line, between.as_slice()) {
        let all = split_words(line);
        TColor { fg: color_at(&all, 0), bg: color_at(&all, 2) }
    } else if contains(line, before.as_slice()) {
        let all = split_words(line);
        TColor { fg: Color::Indexed(0), bg: color_at(&all, 1) }
    } else {
        TColor { fg: token_color(line), bg: Color::Indexed(FALLBACK_INDEX) }
    }
}

/// The pair of colours that the value of a setting stands for: a
/// foreground, `on` and a background, or one of the two alone.
pub fn get_tcolor(line: &str) -> (pair: TColor)
    ensures
        pair == pair_of_line(line@),
{
    let value = chars_of(line);
    line_pair(value.as_slice())
}

/// The character that writes the digit `d`.
pub open spec fn digit_char(d: int) -> char {
    ('0' as int + d) as char
}

/// `color` and a digit is the palette index that the digit names.
pub proof fn lemma_indexed_token(d: int)
    requires
        0 <= d <= 9,
    ensures
        color_of_token("color"@.push(digit_char(d))) == Color::Indexed(d as u8),
{
    reveal_strlit("color");
    let s = "color"@.push(digit_char(d));
    assert(s.subrange(0, 5) =~= "color"@);
}

/// `rgb` and three digits is the palette index `16 + 36 r + 6 g + b`,
/// as far as that lies in the palette of 256.
pub proof fn lemma_rgb_token(r: int, g: int, b: int)
    requires
        0 <= r <= 9,
        0 <= g <= 9,
        0 <= b <= 9,
        16 + 36 * r + 6 * g + b <= 255,
    ensures
        color_of_token("rgb"@.push(digit_char(r)).push(digit_char(g)).push(digit_char(b)))
            == Color::Indexed((16 + 36 * r + 6 * g + b) as u8),
{
    reveal_strlit("rgb");
    reveal_strlit("color");
    let s = "rgb"@.push(digit_char(r)).push(digit_char(g)).push(digit_char(b));
    assert(s.subrange(0, 3) =~= "rgb"@);
    assert(s.subrange(0, 5)[0] == 'r');
}

/// `on`, a space, a gap and a word hold two words: `on` and that word.
proof fn lemma_words_on(gap: Seq<char>, bg: Seq<char>)
    requires
        is_gap(gap),
        is_word(bg),
    ensures
        words("on "@ + gap + bg) == seq!["on"@, bg],
{
    reveal_strlit("on ");
    reveal_strlit("on");
    let wide = seq![' '] + gap;
    assert forall|i: int| 0 <= i < wide.len() implies is_space(#[trigger] wide[i]) by {
        if i > 0 {
            assert(wide[i] == gap[i - 1]);
        }
    }
    lemma_words_of_word(bg);
    lemma_words_after_gap(wide, bg);
    assert((wide + bg)[0] == ' ');
    lemma_words_begin("on"@, wide + bg);
    assert("on"@ + (wide + bg) =~= "on "@ + gap + bg);
    assert(seq!["on"@] + seq![bg] =~= seq!["on"@, bg]);
}

/// A foreground word, ` on ` and a background word give the colours of
/// the two words, whether the words are known or not, and however wide
/// the gaps beside ` on ` are.
pub proof fn lemma_pair_fg_gap_on_gap_bg(
    fg: Seq<char>,
    left: Seq<char>,
    right: Seq<char>,
    bg: Seq<char>,
)
    requires
        is_word(fg),
        is_gap(left),
        is_gap(right),
        is_word(bg),
    ensures
        pair_of_line(fg + left + " on "@ + right + bg) == (TColor {
            fg: color_of_token(fg),
            bg: color_of_token(bg),
        }),
{
    reveal_strlit(" on ");
    reveal_strlit("on ");
    let line = fg + left + " on "@ + right + bg;
    let n = (fg.len() + left.len()) as int;
    assert(line.subrange(n, n + 4) =~= " on "@);
    assert(occurs_at(line, " on "@, n));
    let end = "on "@ + right + bg;
    let wide = left + seq![' '];
    assert forall|i: int| 0 <= i < wide.len() implies is_space(#[trigger] wide[i]) by {
        if i < left.len() {
            assert(wide[i] == left[i]);
        }
    }
    lemma_words_on(right, bg);
    lemma_words_after_gap(wide, end);
    assert(is_space((wide + end)[0])) by {
        assert((wide + end)[0] == wide[0]);
    }
    lemma_words_begin(fg, wide + end);
    assert(fg + (wide + end) =~= line);
    assert(words(line) =~= seq![fg, "on"@, bg]);
}

/// A foreground word, ` on ` and a background word give the colours of
/// the two words, whether the words are known or not.
pub proof fn lemma_pair_fg_on_bg(fg: Seq<char>, bg: Seq<char>)
    requires
        is_word(fg),
        is_word(bg),
    ensures
        pair_of_line(fg + " on "@ + bg) == (TColor {
            fg: color_of_token(fg),
            bg: color_of_token(bg),
        }),
{
    let none = Seq::<char>::empty();
    lemma_pair_fg_gap_on_gap_bg(fg, none, none, bg);
    assert(fg + none + " on "@ + none + bg =~= fg + " on "@ + bg);
}

/// `on `, a gap of any width and a background word give index 0 as the
/// foreground and the colour of the word as the background.
pub proof fn lemma_pair_on_gap_bg(gap: Seq<char>, bg: Seq<char>)
    requires
        is_gap(gap),
        is_word(bg),
    ensures
        pair_of_line("on "@ + gap + bg) == (TColor {
            fg: Color::Indexed(0),
            bg: color_of_token(bg),
        }),
{
    reveal_strlit(" on ");
    reveal_strlit("on ");
    let line = "on "@ + gap + bg;
    let g = gap.len() as int;
    assert(line.subrange(0, 3) =~= "on "@);
    assert(occurs_at(line, "on "@, 0));
    assert forall|at: int| !occurs_at(line, " on "@, at) by {
        if occurs_at(line, " on "@, at) {
            let part = line.subrange(at, at + 4);
            assert(part[0] == ' ' && part[1] == 'o' && part[3] == ' ');
            assert(line[at] == ' ' && line[at + 1] == 'o' && line[at + 3] == ' ');
            if at + 3 >= 3 + g {
                assert(line[at + 3] == bg[at - g]);
            } else if at + 1 >= 3 {
                assert(line[at + 1] == gap[at - 2]);
            }
        }
    }
    lemma_words_on(gap, bg);
}

/// `on ` and a background word give index 0 as the foreground and the
/// colour of the word as the background.
pub proof fn lemma_pair_on_bg(bg: Seq<char>)
    requires
        is_word(bg),
    ensures
        pair_of_line("on "@ + bg) == (TColor {
            fg: Color::Indexed(0),
            bg: color_of_token(bg),
        }),
{
    let none = Seq::<char>::empty();
    lemma_pair_on_gap_bg(none, bg);
    assert("on "@ + none + bg =~= "on "@ + bg);
}

/// A value without `on ` is a foreground alone: the background is the
/// fallback index.
pub proof fn lemma_pair_fg_only(line: Seq<char>)
    requires
        !occurs_in(line, "on "@),
    ensures
        pair_of_line(line) == (TColor {
            fg: color_of_token(line),
            bg: Color::Indexed(FALLBACK_INDEX),
        }),
{
    reveal_strlit(" on ");
    reveal_strlit("on ");
    if occurs_in(line, " on "@) {
        let at = choose|at: int| occurs_at(line, " on "@, at);
        assert(line.subrange(at + 1, at + 4) =~= line.subrange(at, at + 4).subrange(1, 4));
        assert(line.subrange(at, at + 4).subrange(1, 4) =~= "on "@);
        assert(occurs_at(line, "on "@, at + 1));
    }
}

} // verus!
