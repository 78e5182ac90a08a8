//! Colours: 24-bit RGB values, the sixteen colours of the legacy palette
//! with their names and code characters, and the texts a colour is read
//! from and written as.

use crate::text::{push_char, spells, str_chars, string_of};
use vstd::prelude::*;
use vstd::string::StringExecFns;

verus! {

/// A colour: red, green and blue, eight bits each.
#[derive(Debug, Clone, Copy, PartialEq, Eq, Structural)]
pub struct Color {
    pub r: u8,
    pub g: u8,
    pub b: u8,
}

/// The number of colours in the legacy palette.
pub const PALETTE_SIZE: usize = 16;

/// The colour at place `i` of the legacy palette. The place is also the
/// value of the colour's code character, read as a hexadecimal digit.
pub open spec fn palette(i: int) -> Color {
    if i == 0 {
        Color { r: 0, g: 0, b: 0 }
    } else if i == 1 {
        Color { r: 0, g: 0, b: 170 }
    } else if i == 2 {
        Color { r: 0, g: 170, b: 0 }
    } else if i == 3 {
        Color { r: 0, g: 170, b: 170 }
    } else if i == 4 {
        Color { r: 170, g: 0, b: 0 }
    } else if i == 5 {
        Color { r: 170, g: 0, b: 170 }
    } else if i == 6 {
        Color { r: 255, g: 170, b: 0 }
    } else if i == 7 {
        Color { r: 170, g: 170, b: 170 }
    } else if i == 8 {
        Color { r: 85, g: 85, b: 85 }
    } else if i == 9 {
        Color { r: 85, g: 85, b: 255 }
    } else if i == 10 {
        Color { r: 85, g: 255, b: 85 }
    } else if i == 11 {
        Color { r: 85, g: 255, b: 255 }
    } else if i == 12 {
        Color { r: 255, g: 85, b: 85 }
    } else if i == 13 {
        Color { r: 255, g: 85, b: 255 }
    } else if i == 14 {
        Color { r: 255, g: 255, b: 85 }
    } else {
        Color { r: 255, g: 255, b: 255 }
    }
}

/// The name of the colour at place `i` of the legacy palette.
pub open spec fn palette_name(i: int) -> Seq<char> {
    if i == 0 {
        "black"@
    } else if i == 1 {
        "dark_blue"@
    } else if i == 2 {
        "dark_green"@
    } else if i == 3 {
        "dark_aqua"@
    } else if i == 4 {
        "dark_red"@
    } else if i == 5 {
        "dark_purple"@
    } else if i == 6 {
        "gold"@
    } else if i == 7 {
        "gray"@
    } else if i == 8 {
        "dark_gray"@
    } else if i == 9 {
        "blue"@
    } else if i == 10 {
        "green"@
    } else if i == 11 {
        "aqua"@
    } else if i == 12 {
        "red"@
    } else if i == 13 {
        "light_purple"@
    } else if i == 14 {
        "yellow"@
    } else {
        "white"@
    }
}

/// The square of the distance between `c` and the palette's colour `i`.
pub open spec fn distance(c: Color, i: int) -> int {
    let p = palette(i);
    (c.r - p.r) * (c.r - p.r) + (c.g - p.g) * (c.g - p.g) + (c.b - p.b) * (c.b - p.b)
}

/// The place, among the first `n` of the palette, of the colour nearest to
/// `c`; of several equally near, the first.
pub open spec fn nearest_among(c: Color, n: nat) -> int
    decreases n,
{
    if n <= 1 {
        0
    } else {
        let best = nearest_among(c, (n - 1) as nat);
        if distance(c, n - 1) < distance(c, best) {
            n - 1
        } else {
            best
        }
    }
}

/// The place in the palette of the colour nearest to `c`.
pub open spec fn nearest_index(c: Color) -> int {
    nearest_among(c, PALETTE_SIZE as nat)
}

/// The name under which `c` is written where only the palette is known.
pub open spec fn legacy_name(c: Color) -> Seq<char> {
    palette_name(nearest_index(c))
}

/// The first place from `from` on whose palette name is `name`.
pub open spec fn name_index(name: Seq<char>, from: int) -> Option<int>
    decreases PALETTE_SIZE - from,
{
    if from < 0 || from >= PALETTE_SIZE {
        None
    } else if palette_name(from) == name {
        Some(from)
    } else {
        name_index(name, from + 1)
    }
}

/// The palette colour called `name`, if there is one.
pub open spec fn name_color(name: Seq<char>) -> Option<Color> {
    match name_index(name, 0) {
        Some(i) => Some(palette(i)),
        None => None,
    }
}

/// The palette colour whose code character is `c`: the digits `0` to `9`
/// and the letters `a` to `f`.
pub open spec fn legacy_char_color(c: char) -> Option<Color> {
    if '0' <= c && c <= '9' {
        Some(palette(c as int - '0' as int))
    } else if 'a' <= c && c <= 'f' {
        Some(palette(c as int - 'a' as int + 10))
    } else {
        None
    }
}

/// The value of `c` as a hexadecimal digit, in either case.
pub open spec fn hex_value(c: char) -> Option<int> {
    if '0' <= c && c <= '9' {
        Some(c as int - '0' as int)
    } else if 'a' <= c && c <= 'f' {
        Some(c as int - 'a' as int + 10)
    } else if 'A' <= c && c <= 'F' {
        Some(c as int - 'A' as int + 10)
    } else {
        None
    }
}

/// The value of the two hexadecimal digits `high` and `low`.
pub open spec fn hex_pair(high: char, low: char) -> Option<u8> {
    match (hex_value(high), hex_value(low)) {
        (Some(h), Some(l)) => Some((16 * h + l) as u8),
        _ => None,
    }
}

/// The lower-case hexadecimal digit of value `v`.
pub open spec fn hex_digit(v: int) -> char {
    if v < 10 {
        ('0' as int + v) as char
    } else {
        ('a' as int + v - 10) as char
    }
}

/// `c` as text: `#` and six lower-case hexadecimal digits.
pub open spec fn hex_text(c: Color) -> Seq<char> {
    seq![
        '#',
        hex_digit(c.r as int / 16),
        hex_digit(c.r as int % 16),
        hex_digit(c.g as int / 16),
        hex_digit(c.g as int % 16),
        hex_digit(c.b as int / 16),
        hex_digit(c.b as int % 16),
    ]
}

/// `text` without the `#` signs it begins with.
pub open spec fn strip_hashes(text: Seq<char>) -> Seq<char>
    decreases text.len(),
{
    if text.len() > 0 && text[0] == '#' {
        strip_hashes(text.skip(1))
    } else {
        text
    }
}

/// The colour that three pairs of hexadecimal digits spell, or which of
/// the three is no number.
pub open spec fn hex_color(r: Option<u8>, g: Option<u8>, b: Option<u8>) -> Result<
    Color,
    Seq<char>,
> {
    match r {
        None => Err("invalid red"@),
        Some(r) => match g {
            None => Err("invalid green"@),
            Some(g) => match b {
                None => Err("invalid blue"@),
                Some(b) => Ok(Color { r, g, b }),
            },
        },
    }
}

/// What reading a colour from `text` gives.
///
/// Leading `#` signs are dropped. A palette name gives its colour. Three
/// hexadecimal digits give the colour with each digit doubled, six give the
/// colour directly. Anything else is an error, with the message that says
/// why.
pub open spec fn parse_color(text: Seq<char>) -> Result<Color, Seq<char>> {
    let body = strip_hashes(text);
    match name_color(body) {
        Some(c) => Ok(c),
        None => if body.len() == 3 {
            hex_color(
                hex_pair(body[0], body[0]),
                hex_pair(body[1], body[1]),
                hex_pair(body[2], body[2]),
            )
        } else if body.len() == 6 {
            hex_color(
                hex_pair(body[0], body[1]),
                hex_pair(body[2], body[3]),
                hex_pair(body[4], body[5]),
            )
        } else {
            Err("invalid hex color, expected 3 or 6 characters ("@ + body + ")"@)
        },
    }
}

/// What reading a colour from `text` gives where a hexadecimal colour must
/// begin with `#`: a palette name, `#` with three or six digits, or an
/// error.
pub open spec fn parse_named_color(text: Seq<char>) -> Result<Color, Seq<char>> {
    match name_color(text) {
        Some(c) => Ok(c),
        None => if text.len() > 0 && text[0] == '#' && (text.len() == 7 || text.len() == 4) {
            parse_color(text)
        } else {
            Err("unknown color: "@ + text)
        },
    }
}

/// Whether `k` is the place of the palette colour nearest to `c`, the
/// first of those equally near.
pub open spec fn is_nearest(c: Color, k: int) -> bool {
    &&& 0 <= k < PALETTE_SIZE
    &&& forall|j: int| 0 <= j < PALETTE_SIZE ==> distance(c, k) <= #[trigger] distance(c, j)
    &&& forall|j: int| 0 <= j < k ==> distance(c, k) < #[trigger] distance(c, j)
}

proof fn lemma_nearest_among(c: Color, n: nat)
    requires
        1 <= n <= PALETTE_SIZE,
    ensures
        0 <= nearest_among(c, n) < n,
        forall|j: int| 0 <= j < n ==> distance(c, nearest_among(c, n)) <= #[trigger] distance(c, j),
        forall|j: int|
            0 <= j < nearest_among(c, n) ==> distance(c, nearest_among(c, n)) < #[trigger] distance(
                c,
                j,
            ),
    decreases n,
{
    if n > 1 {
        lemma_nearest_among(c, (n - 1) as nat);
    }
}

/// The nearest palette colour is no farther than any other, and nearer
/// than every one before it.
pub proof fn lemma_nearest_index(c: Color)
    ensures
        is_nearest(c, nearest_index(c)),
{
    lemma_nearest_among(c, PALETTE_SIZE as nat);
}

/// The colour at place `i` of the palette.
pub fn palette_color(i: usize) -> (c: Color)
    requires
        i < PALETTE_SIZE,
    ensures
        c == palette(i as int),
{
    match i {
        0 => Color { r: 0, g: 0, b: 0 },
        1 => Color { r: 0, g: 0, b: 170 },
        2 => Color { r: 0, g: 170, b: 0 },
        3 => Color { r: 0, g: 170, b: 170 },
        4 => Color { r: 170, g: 0, b: 0 },
        5 => Color { r: 170, g: 0, b: 170 },
        6 => Color { r: 255, g: 170, b: 0 },
        7 => Color { r: 170, g: 170, b: 170 },
        8 => Color { r: 85, g: 85, b: 85 },
        9 => Color { r: 85, g: 85, b: 255 },
        10 => Color { r: 85, g: 255, b: 85 },
        11 => Color { r: 85, g: 255, b: 255 },
        12 => Color { r: 255, g: 85, b: 85 },
        13 => Color { r: 255, g: 85, b: 255 },
        14 => Color { r: 255, g: 255, b: 85 },
        _ => Color { r: 255, g: 255, b: 255 },
    }
}

/// The name of the colour at place `i` of the palette.
pub fn palette_label(i: usize) -> (name: &'static str)
    requires
        i < PALETTE_SIZE,
    ensures
        name@ == palette_name(i as int),
{
    match i {
        0 => "black",
        1 => "dark_blue",
        2 => "dark_green",
        3 => "dark_aqua",
        4 => "dark_red",
        5 => "dark_purple",
        6 => "gold",
        7 => "gray",
        8 => "dark_gray",
        9 => "blue",
        10 => "green",
        11 => "aqua",
        12 => "red",
        13 => "light_purple",
        14 => "yellow",
        _ => "white",
    }
}

fn hex_digit_value(c: char) -> (v: Option<u8>)
    ensures
        match hex_value(c) {
            Some(x) => v == Some(x as u8) && x < 16,
            None => v is None,
        },
{
    if '0' <= c && c <= '9' {
        Some(c as u8 - '0' as u8)
    } else if 'a' <= c && c <= 'f' {
        Some(c as u8 - 'a' as u8 + 10)
    } else if 'A' <= c && c <= 'F' {
        Some(c as u8 - 'A' as u8 + 10)
    } else {
        None
    }
}

fn hex_pair_value(high: char, low: char) -> (v: Option<u8>)
    ensures
        v == hex_pair(high, low),
{
    match (hex_digit_value(high), hex_digit_value(low)) {
        (Some(h), Some(l)) => Some(16 * h + l),
        _ => None,
    }
}

fn hex_digit_char(v: u8) -> (c: char)
    requires
        v < 16,
    ensures
        c == hex_digit(v as int),
{
    if v < 10 {
        ('0' as u8 + v) as char
    } else {
        ('a' as u8 + v - 10) as char
    }
}

fn hex_color_of(r: Option<u8>, g: Option<u8>, b: Option<u8>) -> (result: Result<Color, String>)
    ensures
        match hex_color(r, g, b) {
            Ok(c) => result == Ok::<Color, String>(c),
            Err(message) => result matches Err(m) && m@ == message,
        },
{
    match r {
        None => Err("invalid red".to_owned()),
        Some(r) => match g {
            None => Err("invalid green".to_owned()),
            Some(g) => match b {
                None => Err("invalid blue".to_owned()),
                Some(b) => Ok(Color { r, g, b }),
            },
        },
    }
}

/// The palette colour whose name the characters of `chars` from `from` up
/// to `to` spell.
fn named(chars: &Vec<char>, from: usize, to: usize) -> (color: Option<Color>)
    requires
        from <= to <= chars@.len(),
    ensures
        color == name_color(chars@.subrange(from as int, to as int)),
{
    let ghost name = chars@.subrange(from as int, to as int);
    let mut i: usize = 0;
    while i < PALETTE_SIZE
        invariant
            i <= PALETTE_SIZE,
            from <= to <= chars@.len(),
            name == chars@.subrange(from as int, to as int),
            name_index(name, 0) == name_index(name, i as int),
        decreases PALETTE_SIZE - i,
    {
        if spells(chars, from, to, palette_label(i)) {
            return Some(palette_color(i));
        }
        i += 1;
    }
    None
}

/// Reads a colour from the characters of `chars` from `from` up to `to`.
pub(crate) fn parse_chars(chars: &Vec<char>, from: usize, to: usize) -> (result: Result<
    Color,
    String,
>)
    requires
        from <= to <= chars@.len(),
    ensures
        match parse_color(chars@.subrange(from as int, to as int)) {
            Ok(c) => result == Ok::<Color, String>(c),
            Err(message) => result matches Err(m) && m@ == message,
        },
{
    let ghost text = chars@.subrange(from as int, to as int);
    let mut start: usize = from;
    assert(text.skip(0) =~= text);
    while start < to && chars[start] == '#'
        invariant
            from <= start <= to <= chars@.len(),
            text == chars@.subrange(from as int, to as int),
            strip_hashes(text) == strip_hashes(text.skip(start - from)),
        decreases to - start,
    {
        assert(text.skip(start - from).skip(1) =~= text.skip(start - from + 1));
        start += 1;
    }
    let ghost body = text.skip(start - from);
    assert(body =~= chars@.subrange(start as int, to as int));
    assert(strip_hashes(text) == body);
    match named(chars, start, to) {
        Some(c) => {
            return Ok(c);
        },
        None => {},
    }
    let n: usize = to - start;
    if n == 3 {
        hex_color_of(
            hex_pair_value(chars[start], chars[start]),
            hex_pair_value(chars[start + 1], chars[start + 1]),
            hex_pair_value(chars[start + 2], chars[start + 2]),
        )
    } else if n == 6 {
        hex_color_of(
            hex_pair_value(chars[start], chars[start + 1]),
            hex_pair_value(chars[start + 2], chars[start + 3]),
            hex_pair_value(chars[start + 4], chars[start + 5]),
        )
    } else {
        let rest = string_of(chars, start, to);
        let message = "invalid hex color, expected 3 or 6 characters (".to_owned();
        let message = message.concat(rest.as_str());
        let message = message.concat(")");
        Err(message)
    }
}

impl Color {
    /// The colour with the three channels `r`, `g` and `b`.
    pub fn new(r: u8, g: u8, b: u8) -> (c: Color)
        ensures
            c == (Color { r, g, b }),
    {
        Color { r, g, b }
    }

    /// The name of the palette colour nearest to this one, by the sum of
    /// the squares of the three differences; of several equally near, the
    /// one that comes first in the palette.
    pub fn to_legacy_name(&self) -> (name: &'static str)
        ensures
            name@ == legacy_name(*self),
    {
        let mut best: usize = 0;
        let mut best_distance: i32 = self.distance_to(0);
        let mut i: usize = 1;
        while i < PALETTE_SIZE
            invariant
                1 <= i <= PALETTE_SIZE,
                best == nearest_among(*self, i as nat),
                best_distance == distance(*self, best as int),
                best < i,
            decreases PALETTE_SIZE - i,
        {
            let d: i32 = self.distance_to(i);
            if d < best_distance {
                best = i;
                best_distance = d;
            }
            i += 1;
        }
        palette_label(best)
    }

    fn distance_to(&self, i: usize) -> (d: i32)
        requires
            i < PALETTE_SIZE,
        ensures
            d == distance(*self, i as int),
            0 <= d <= 3 * 255 * 255,
    {
        let p = palette_color(i);
        let dr: i32 = self.r as i32 - p.r as i32;
        let dg: i32 = self.g as i32 - p.g as i32;
        let db: i32 = self.b as i32 - p.b as i32;
        assert(0 <= dr * dr <= 255 * 255) by (nonlinear_arith)
            requires
                -255 <= dr <= 255,
        ;
        assert(0 <= dg * dg <= 255 * 255) by (nonlinear_arith)
            requires
                -255 <= dg <= 255,
        ;
        assert(0 <= db * db <= 255 * 255) by (nonlinear_arith)
            requires
                -255 <= db <= 255,
        ;
        dr * dr + dg * dg + db * db
    }

    /// Reads a colour from `hex`: a palette name, or three or six
    /// hexadecimal digits, behind any number of `#` signs.
    pub fn from(hex: &str) -> (result: Result<Color, String>)
        ensures
            match parse_color(hex@) {
                Ok(c) => result == Ok::<Color, String>(c),
                Err(message) => result matches Err(m) && m@ == message,
            },
    {
        let chars = str_chars(hex);
        assert(chars@.subrange(0, chars@.len() as int) =~= hex@);
        parse_chars(&chars, 0, chars.len())
    }

    /// This colour as `#` and six lower-case hexadecimal digits.
    pub fn to_hex_string(&self) -> (text: String)
        ensures
            text@ == hex_text(*self),
    {
        let mut text = String::new();
        push_char(&mut text, '#');
        push_char(&mut text, hex_digit_char(self.r / 16));
        push_char(&mut text, hex_digit_char(self.r % 16));
        push_char(&mut text, hex_digit_char(self.g / 16));
        push_char(&mut text, hex_digit_char(self.g % 16));
        push_char(&mut text, hex_digit_char(self.b / 16));
        push_char(&mut text, hex_digit_char(self.b % 16));
        assert(text@ =~= hex_text(*self));
        text
    }

    /// The palette colour called `name`, if there is one.
    pub fn from_name(name: &str) -> (color: Option<Color>)
        ensures
            color == name_color(name@),
    {
        let chars = str_chars(name);
        assert(chars@.subrange(0, chars@.len() as int) =~= name@);
        named(&chars, 0, chars.len())
    }

    /// The palette colour whose code character is `c`.
    pub fn from_legacy_char(c: char) -> (color: Option<Color>)
        ensures
            color == legacy_char_color(c),
    {
        if '0' <= c && c <= '9' {
            Some(palette_color((c as u8 - '0' as u8) as usize))
        } else if 'a' <= c && c <= 'f' {
            Some(palette_color((c as u8 - 'a' as u8 + 10) as usize))
        } else {
            None
        }
    }

    /// Reads a colour from `text`: a palette name, or `#` and three or six
    /// hexadecimal digits.
    pub fn from_str(text: &str) -> (result: Result<Color, String>)
        ensures
            match parse_named_color(text@) {
                Ok(c) => result == Ok::<Color, String>(c),
                Err(message) => result matches Err(m) && m@ == message,
            },
    {
        match Color::from_name(text) {
            Some(c) => {
                return Ok(c);
            },
            None => {},
        }
        let chars = str_chars(text);
        if chars.len() > 0 && chars[0] == '#' && (chars.len() == 7 || chars.len() == 4) {
            return Color::from(text);
        }
        Err("unknown color: ".to_owned().concat(text))
    }
}

} // verus!
