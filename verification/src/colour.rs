//! Colours as a configuration file writes them: `#rrggbb`, `r, g, b`, or a
//! colour's name.

use vstd::prelude::*;
use vstd::string::StringExecFns;
use crate::text::{chars_of, text_of};

verus! {

/// A colour of the terminal's palette.
#[derive(Clone, Copy, Debug, PartialEq, Eq, Structural)]
pub enum NamedColour {
    Reset,
    Black,
    Red,
    Green,
    Yellow,
    Blue,
    Magenta,
    Cyan,
    Gray,
    DarkGray,
    LightRed,
    LightGreen,
    LightYellow,
    LightBlue,
    LightMagenta,
    LightCyan,
    White,
}

/// A colour: one of the palette, or red, green and blue.
#[derive(Clone, Copy, Debug, PartialEq, Eq, Structural)]
pub enum Colour {
    Named(NamedColour),
    Rgb(u8, u8, u8),
}

/// The value of a hexadecimal digit.
pub open spec fn hex_digit(c: char) -> Option<nat> {
    if '0' <= c <= '9' {
        Some((c as u32 - '0' as u32) as nat)
    } else if 'a' <= c <= 'f' {
        Some((c as u32 - 'a' as u32 + 10) as nat)
    } else if 'A' <= c <= 'F' {
        Some((c as u32 - 'A' as u32 + 10) as nat)
    } else {
        None
    }
}

/// The value of two hexadecimal digits.
pub open spec fn hex_pair(high: char, low: char) -> Option<u8> {
    match (hex_digit(high), hex_digit(low)) {
        (Some(h), Some(l)) => Some((h * 16 + l) as u8),
        _ => None,
    }
}

/// The colour that `#rrggbb` stands for.
pub open spec fn hex_colour(text: Seq<char>) -> Option<Colour> {
    if text.len() == 7 && text[0] == '#' {
        match (hex_pair(text[1], text[2]), hex_pair(text[3], text[4]), hex_pair(text[5], text[6])) {
            (Some(r), Some(g), Some(b)) => Some(Colour::Rgb(r, g, b)),
            _ => None,
        }
    } else {
        None
    }
}

/// The first index from `from` on, and before `to`, that does not hold a
/// space; `to` where there is none.
pub open spec fn skip_spaces(text: Seq<char>, from: int, to: int) -> int
    decreases to - from,
{
    if from >= to || from < 0 || to > text.len() {
        to
    } else if text[from] == ' ' {
        skip_spaces(text, from + 1, to)
    } else {
        from
    }
}

/// The first index from `from` on, and before `to`, that does not hold a
/// decimal digit; `to` where there is none.
pub open spec fn skip_digits(text: Seq<char>, from: int, to: int) -> int
    decreases to - from,
{
    if from >= to || from < 0 || to > text.len() {
        to
    } else if '0' <= text[from] <= '9' {
        skip_digits(text, from + 1, to)
    } else {
        from
    }
}

/// The first index from `from` on that holds a comma; the length of the
/// text where there is none.
pub open spec fn find_comma(text: Seq<char>, from: int) -> int
    decreases text.len() - from,
{
    if from >= text.len() || from < 0 {
        text.len() as int
    } else if text[from] == ',' {
        from
    } else {
        find_comma(text, from + 1)
    }
}

/// The number that the decimal digits from `from` up to `to` write.
pub open spec fn decimal_value(text: Seq<char>, from: int, to: int) -> nat
    decreases to - from,
{
    if to <= from || to > text.len() || from < 0 {
        0
    } else {
        decimal_value(text, from, to - 1) * 10 + (text[to - 1] as u32 - '0' as u32) as nat
    }
}

/// The value of one component of `r, g, b`, written from `from` up to `to`:
/// decimal digits with spaces before and after them, and at most 255.
pub open spec fn component(text: Seq<char>, from: int, to: int) -> Option<u8> {
    let start = skip_spaces(text, from, to);
    let end = skip_digits(text, start, to);
    if start < end && skip_spaces(text, end, to) == to && decimal_value(text, start, end) <= 255 {
        Some(decimal_value(text, start, end) as u8)
    } else {
        None
    }
}

/// The colour that `r, g, b` stands for: three components and two commas.
pub open spec fn rgb_colour(text: Seq<char>) -> Option<Colour> {
    let first = find_comma(text, 0);
    let second = find_comma(text, first + 1);
    if first < text.len() && second < text.len() && find_comma(text, second + 1) == text.len() {
        match (
            component(text, 0, first),
            component(text, first + 1, second),
            component(text, second + 1, text.len() as int),
        ) {
            (Some(r), Some(g), Some(b)) => Some(Colour::Rgb(r, g, b)),
            _ => None,
        }
    } else {
        None
    }
}

/// A letter of `A` to `Z` as its small letter; every other character as it
/// is.
pub open spec fn small_letter(c: char) -> char {
    if 'A' <= c <= 'Z' {
        ((c as u32) + 32) as char
    } else {
        c
    }
}

/// The text with the letters `A` to `Z` as small letters.
pub open spec fn small_letters(text: Seq<char>) -> Seq<char> {
    text.map_values(|c: char| small_letter(c))
}

/// The colour of the palette with this name, in small letters.
pub open spec fn palette_colour(name: Seq<char>) -> Option<NamedColour> {
    if name == "reset"@ {
        Some(NamedColour::Reset)
    } else if name == "black"@ {
        Some(NamedColour::Black)
    } else if name == "red"@ {
        Some(NamedColour::Red)
    } else if name == "green"@ {
        Some(NamedColour::Green)
    } else if name == "yellow"@ {
        Some(NamedColour::Yellow)
    } else if name == "blue"@ {
        Some(NamedColour::Blue)
    } else if name == "magenta"@ {
        Some(NamedColour::Magenta)
    } else if name == "cyan"@ {
        Some(NamedColour::Cyan)
    } else if name == "gray"@ || name == "grey"@ {
        Some(NamedColour::Gray)
    } else if name == "darkgray"@ {
        Some(NamedColour::DarkGray)
    } else if name == "lightred"@ {
        Some(NamedColour::LightRed)
    } else if name == "lightgreen"@ {
        Some(NamedColour::LightGreen)
    } else if name == "lightyellow"@ {
        Some(NamedColour::LightYellow)
    } else if name == "lightblue"@ {
        Some(NamedColour::LightBlue)
    } else if name == "lightmagenta"@ {
        Some(NamedColour::LightMagenta)
    } else if name == "lightcyan"@ {
        Some(NamedColour::LightCyan)
    } else if name == "white"@ {
        Some(NamedColour::White)
    } else {
        None
    }
}

/// The colour that a name stands for, whatever the case of its letters.
pub open spec fn named_colour(text: Seq<char>) -> Option<Colour> {
    match palette_colour(small_letters(text)) {
        Some(named) => Some(Colour::Named(named)),
        None => None,
    }
}

/// The colour that a text of a configuration stands for: `#rrggbb` where it
/// begins with `#`, `r, g, b` where it holds a comma, else a name. A text
/// of fewer than two characters stands for none.
pub open spec fn colour_of(text: Seq<char>) -> Option<Colour> {
    if text.len() < 2 {
        None
    } else if text[0] == '#' {
        hex_colour(text)
    } else if find_comma(text, 0) < text.len() {
        rgb_colour(text)
    } else {
        named_colour(text)
    }
}

fn hex_digit_of(c: char) -> (value: Option<u8>)
    ensures
        match value {
            Some(v) => hex_digit(c) == Some(v as nat) && v < 16,
            None => hex_digit(c) is None,
        },
{
    if '0' <= c && c <= '9' {
        Some((c as u32 - '0' as u32) as u8)
    } else if 'a' <= c && c <= 'f' {
        Some((c as u32 - 'a' as u32 + 10) as u8)
    } else if 'A' <= c && c <= 'F' {
        Some((c as u32 - 'A' as u32 + 10) as u8)
    } else {
        None
    }
}

fn hex_pair_of(high: char, low: char) -> (value: Option<u8>)
    ensures
        value == hex_pair(high, low),
{
    match hex_digit_of(high) {
        Some(h) => match hex_digit_of(low) {
            Some(l) => Some(h * 16 + l),
            None => None,
        },
        None => None,
    }
}

fn parse_hex(text: &Vec<char>) -> (colour: Option<Colour>)
    ensures
        colour == hex_colour(text@),
{
    if text.len() != 7 || text[0] != '#' {
        return None;
    }
    let r = hex_pair_of(text[1], text[2]);
    let g = hex_pair_of(text[3], text[4]);
    let b = hex_pair_of(text[5], text[6]);
    match (r, g, b) {
        (Some(r), Some(g), Some(b)) => Some(Colour::Rgb(r, g, b)),
        _ => None,
    }
}

fn spaces_end(text: &Vec<char>, from: usize, to: usize) -> (end: usize)
    requires
        from <= to <= text.len(),
    ensures
        end == skip_spaces(text@, from as int, to as int),
        from <= end <= to,
{
    let mut i = from;
    while i < to && text[i] == ' '
        invariant
            from <= i <= to <= text.len(),
            skip_spaces(text@, from as int, to as int) == skip_spaces(text@, i as int, to as int),
        decreases to - i,
    {
        i = i + 1;
    }
    i
}

fn digits_end(text: &Vec<char>, from: usize, to: usize) -> (end: usize)
    requires
        from <= to <= text.len(),
    ensures
        end == skip_digits(text@, from as int, to as int),
        from <= end <= to,
        forall|k: int| from <= k < end ==> '0' <= #[trigger] text@[k] <= '9',
{
    let mut i = from;
    while i < to && '0' <= text[i] && text[i] <= '9'
        invariant
            from <= i <= to <= text.len(),
            skip_digits(text@, from as int, to as int) == skip_digits(text@, i as int, to as int),
            forall|k: int| from <= k < i ==> '0' <= #[trigger] text@[k] <= '9',
        decreases to - i,
    {
        i = i + 1;
    }
    i
}

fn comma_at(text: &Vec<char>, from: usize) -> (at: usize)
    requires
        from <= text.len(),
    ensures
        at == find_comma(text@, from as int),
        from <= at <= text.len(),
{
    let mut i = from;
    while i < text.len() && text[i] != ','
        invariant
            from <= i <= text.len(),
            find_comma(text@, from as int) == find_comma(text@, i as int),
        decreases text.len() - i,
    {
        i = i + 1;
    }
    i
}

proof fn lemma_decimal_value_grows(text: Seq<char>, from: int, mid: int, to: int)
    requires
        0 <= from <= mid <= to <= text.len(),
        forall|k: int| from <= k < to ==> '0' <= #[trigger] text[k] <= '9',
    ensures
        decimal_value(text, from, mid) <= decimal_value(text, from, to),
    decreases to - mid,
{
    if mid < to {
        lemma_decimal_value_grows(text, from, mid, to - 1);
    }
}

fn parse_component(text: &Vec<char>, from: usize, to: usize) -> (value: Option<u8>)
    requires
        from <= to <= text.len(),
    ensures
        value == component(text@, from as int, to as int),
{
    let start = spaces_end(text, from, to);
    let end = digits_end(text, start, to);
    if start >= end || spaces_end(text, end, to) != to {
        return None;
    }
    let mut total: u32 = 0;
    let mut i = start;
    while i < end
        invariant
            start <= i <= end <= text.len(),
            start == skip_spaces(text@, from as int, to as int),
            end == skip_digits(text@, start as int, to as int),
            forall|k: int| start <= k < end ==> '0' <= #[trigger] text@[k] <= '9',
            total == decimal_value(text@, start as int, i as int),
            total <= 255,
        decreases end - i,
    {
        let digit: u32 = text[i] as u32 - '0' as u32;
        let next: u32 = total * 10 + digit;
        assert(next == decimal_value(text@, start as int, i as int + 1));
        if next > 255 {
            proof {
                lemma_decimal_value_grows(text@, start as int, i as int + 1, end as int);
            }
            return None;
        }
        total = next;
        i = i + 1;
    }
    Some(total as u8)
}

fn parse_rgb(text: &Vec<char>) -> (colour: Option<Colour>)
    ensures
        colour == rgb_colour(text@),
{
    let len = text.len();
    let first = comma_at(text, 0);
    if first >= len {
        return None;
    }
    let second = comma_at(text, first + 1);
    if second >= len {
        return None;
    }
    if comma_at(text, second + 1) != len {
        return None;
    }
    let r = parse_component(text, 0, first);
    let g = parse_component(text, first + 1, second);
    let b = parse_component(text, second + 1, len);
    match (r, g, b) {
        (Some(r), Some(g), Some(b)) => Some(Colour::Rgb(r, g, b)),
        _ => None,
    }
}

fn small_letters_of(text: &Vec<char>) -> (small: Vec<char>)
    ensures
        small@ == small_letters(text@),
{
    let mut small: Vec<char> = Vec::new();
    let mut i: usize = 0;
    while i < text.len()
        invariant
            i <= text.len(),
            small@ == small_letters(text@.take(i as int)),
        decreases text.len() - i,
    {
        let c = text[i];
        let lower = if 'A' <= c && c <= 'Z' {
            small_letter_of(c)
        } else {
            c
        };
        small.push(lower);
        proof {
            assert(text@.take(i as int + 1) =~= text@.take(i as int).push(c));
            assert(small@ =~= small_letters(text@.take(i as int + 1)));
        }
        i = i + 1;
    }
    proof {
        assert(text@.take(text.len() as int) =~= text@);
    }
    small
}

fn small_letter_of(c: char) -> (small: char)
    requires
        'A' <= c <= 'Z',
    ensures
        small == small_letter(c),
{
    let code: u8 = c as u8 + 32;
    code as char
}

fn is_text(name: &String, word: &str) -> (same: bool)
    ensures
        same == (name@ == word@),
{
    let other = String::from_str(word);
    *name == other
}

fn parse_name(text: &Vec<char>) -> (colour: Option<Colour>)
    ensures
        colour == named_colour(text@),
{
    let small = small_letters_of(text);
    let name = text_of(&small);
    let named = if is_text(&name, "reset") {
        Some(NamedColour::Reset)
    } else if is_text(&name, "black") {
        Some(NamedColour::Black)
    } else if is_text(&name, "red") {
        Some(NamedColour::Red)
    } else if is_text(&name, "green") {
        Some(NamedColour::Green)
    } else if is_text(&name, "yellow") {
        Some(NamedColour::Yellow)
    } else if is_text(&name, "blue") {
        Some(NamedColour::Blue)
    } else if is_text(&name, "magenta") {
        Some(NamedColour::Magenta)
    } else if is_text(&name, "cyan") {
        Some(NamedColour::Cyan)
    } else if is_text(&name, "gray") || is_text(&name, "grey") {
        Some(NamedColour::Gray)
    } else if is_text(&name, "darkgray") {
        Some(NamedColour::DarkGray)
    } else if is_text(&name, "lightred") {
        Some(NamedColour::LightRed)
    } else if is_text(&name, "lightgreen") {
        Some(NamedColour::LightGreen)
    } else if is_text(&name, "lightyellow") {
        Some(NamedColour::LightYellow)
    } else if is_text(&name, "lightblue") {
        Some(NamedColour::LightBlue)
    } else if is_text(&name, "lightmagenta") {
        Some(NamedColour::LightMagenta)
    } else if is_text(&name, "lightcyan") {
        Some(NamedColour::LightCyan)
    } else if is_text(&name, "white") {
        Some(NamedColour::White)
    } else {
        None
    };
    match named {
        Some(named) => Some(Colour::Named(named)),
        None => None,
    }
}

/// Reads a colour as a configuration writes it.
pub fn get_colour_from_config(text: &str) -> (colour: Option<Colour>)
    ensures
        colour == colour_of(text@),
{
    let chars = chars_of(text);
    if chars.len() < 2 {
        None
    } else if chars[0] == '#' {
        parse_hex(&chars)
    } else if comma_at(&chars, 0) < chars.len() {
        parse_rgb(&chars)
    } else {
        parse_name(&chars)
    }
}

} // verus!
