//! The theme: which colours the panel is painted in.

use crate::text::parse_number;
use vstd::prelude::*;

verus! {

/// The colours of a theme, each as a `#rrggbb` text.
#[derive(Clone, Debug)]
pub struct ThemeColors {
    pub background: String,
    pub surface: String,
    pub interactive: String,
    pub interactive_pressed: String,
    pub text_primary: String,
    pub text_secondary: String,
    pub accent: String,
    pub border: String,
    pub running_app: String,
    pub running_app_text: String,
}

/// A theme as the contracts speak of it.
#[verifier::ext_equal]
pub struct ThemeView {
    pub background: Seq<char>,
    pub surface: Seq<char>,
    pub interactive: Seq<char>,
    pub interactive_pressed: Seq<char>,
    pub text_primary: Seq<char>,
    pub text_secondary: Seq<char>,
    pub accent: Seq<char>,
    pub border: Seq<char>,
    pub running_app: Seq<char>,
    pub running_app_text: Seq<char>,
}

impl View for ThemeColors {
    type V = ThemeView;

    open spec fn view(&self) -> ThemeView {
        ThemeView {
            background: self.background@,
            surface: self.surface@,
            interactive: self.interactive@,
            interactive_pressed: self.interactive_pressed@,
            text_primary: self.text_primary@,
            text_secondary: self.text_secondary@,
            accent: self.accent@,
            border: self.border@,
            running_app: self.running_app@,
            running_app_text: self.running_app_text@,
        }
    }
}

/// The built-in theme.
pub open spec fn default_theme() -> ThemeView {
    ThemeView {
        background: "#1a1a2e"@,
        surface: "#16213e"@,
        interactive: "#0f3460"@,
        interactive_pressed: "#1a5276"@,
        text_primary: "#e0e0f0"@,
        text_secondary: "#a0a0b8"@,
        accent: "#e94560"@,
        border: "#2a2a4a"@,
        running_app: "#1a3a1a"@,
        running_app_text: "#90ee90"@,
    }
}

impl Default for ThemeColors {
    /// The built-in theme.
    fn default() -> (theme: ThemeColors)
        ensures
            theme@ == default_theme(),
            theme.background@ == "#1a1a2e"@,
            theme.surface@ == "#16213e"@,
            theme.interactive@ == "#0f3460"@,
            theme.interactive_pressed@ == "#1a5276"@,
            theme.text_primary@ == "#e0e0f0"@,
            theme.text_secondary@ == "#a0a0b8"@,
            theme.accent@ == "#e94560"@,
            theme.border@ == "#2a2a4a"@,
            theme.running_app@ == "#1a3a1a"@,
            theme.running_app_text@ == "#90ee90"@,
    {
        ThemeColors {
            background: crate::defaults::background(),
            surface: crate::defaults::surface(),
            interactive: crate::defaults::interactive(),
            interactive_pressed: crate::defaults::interactive_pressed(),
            text_primary: crate::defaults::text_primary(),
            text_secondary: crate::defaults::text_secondary(),
            accent: crate::defaults::accent(),
            border: crate::defaults::border(),
            running_app: crate::defaults::running_app(),
            running_app_text: crate::defaults::running_app_text(),
        }
    }
}

/// The colours that a theme file gives; what it leaves out is `None`.
#[derive(Clone, Debug)]
pub struct ThemeEntries {
    pub background: Option<String>,
    pub surface: Option<String>,
    pub interactive: Option<String>,
    pub interactive_pressed: Option<String>,
    pub text_primary: Option<String>,
    pub text_secondary: Option<String>,
    pub accent: Option<String>,
    pub border: Option<String>,
    pub running_app: Option<String>,
    pub running_app_text: Option<String>,
}

/// The text that is given, or `default` where none is.
pub open spec fn given_or(given: Option<String>, default: Seq<char>) -> Seq<char> {
    match given {
        Some(text) => text@,
        None => default,
    }
}

/// The theme of a file: each colour that it leaves out is that of the built-in
/// theme.
pub open spec fn completed(entries: ThemeEntries) -> ThemeView {
    let built_in = default_theme();
    ThemeView {
        background: given_or(entries.background, built_in.background),
        surface: given_or(entries.surface, built_in.surface),
        interactive: given_or(entries.interactive, built_in.interactive),
        interactive_pressed: given_or(entries.interactive_pressed, built_in.interactive_pressed),
        text_primary: given_or(entries.text_primary, built_in.text_primary),
        text_secondary: given_or(entries.text_secondary, built_in.text_secondary),
        accent: given_or(entries.accent, built_in.accent),
        border: given_or(entries.border, built_in.border),
        running_app: given_or(entries.running_app, built_in.running_app),
        running_app_text: given_or(entries.running_app_text, built_in.running_app_text),
    }
}

fn text_or(given: Option<String>, default: String) -> (text: String)
    ensures
        text@ == given_or(given, default@),
{
    match given {
        Some(text) => text,
        None => default,
    }
}

impl ThemeEntries {
    /// Completes what a theme file gives by the built-in theme.
    pub fn complete(self) -> (theme: ThemeColors)
        ensures
            theme@ == completed(self),
    {
        ThemeColors {
            background: text_or(self.background, crate::defaults::background()),
            surface: text_or(self.surface, crate::defaults::surface()),
            interactive: text_or(self.interactive, crate::defaults::interactive()),
            interactive_pressed: text_or(
                self.interactive_pressed,
                crate::defaults::interactive_pressed(),
            ),
            text_primary: text_or(self.text_primary, crate::defaults::text_primary()),
            text_secondary: text_or(self.text_secondary, crate::defaults::text_secondary()),
            accent: text_or(self.accent, crate::defaults::accent()),
            border: text_or(self.border, crate::defaults::border()),
            running_app: text_or(self.running_app, crate::defaults::running_app()),
            running_app_text: text_or(self.running_app_text, crate::defaults::running_app_text()),
        }
    }
}

/// `s` without the hash signs that it begins with.
pub open spec fn unhashed(s: Seq<char>) -> Seq<char>
    decreases s.len(),
{
    if s.len() > 0 && s[0] == '#' {
        unhashed(s.skip(1))
    } else {
        s
    }
}

/// The number that a theme text writes: the hexadecimal one that follows its
/// hash signs, 0 (black) where there is none. Its lower 24 bits are the colour;
/// a text of more than six digits sets higher ones too.
pub open spec fn rgb_of(s: Seq<char>) -> u32 {
    match crate::text::number(unhashed(s), 16) {
        Some(rgb) => rgb,
        None => 0,
    }
}

/// The colour of a theme text as `0xAARRGGBB`, with full alpha.
pub open spec fn argb_of(s: Seq<char>) -> u32 {
    0xFF00_0000u32 | rgb_of(s)
}

/// Reads a `#rrggbb` text as `0xAARRGGBB` with full alpha. A text that is no
/// hexadecimal number reads as black.
pub fn parse_hex(s: &str) -> (argb: u32)
    ensures
        argb == argb_of(s@),
{
    let n: usize = s.unicode_len();
    let mut from: usize = 0;
    proof {
        assert(s@.skip(0) == s@);
    }
    while from < n && s.get_char(from) == '#'
        invariant
            from <= n,
            n == s@.len(),
            unhashed(s@.skip(from as int)) == unhashed(s@),
        decreases n - from,
    {
        proof {
            assert(s@.skip(from as int)[0] == s@[from as int]);
            assert(s@.skip(from as int).skip(1) == s@.skip(from + 1));
        }
        from += 1;
    }
    proof {
        if from < n {
            assert(s@.skip(from as int)[0] == s@[from as int]);
        }
        assert(s@.subrange(from as int, n as int) == s@.skip(from as int));
    }
    let rgb: u32 = match parse_number(s.substring_char(from, n), 16) {
        Some(rgb) => rgb,
        None => 0,
    };
    0xFF00_0000 | rgb
}

/// A colour by its four channels.
#[derive(Clone, Copy, Debug, PartialEq, Eq, Structural)]
pub struct Argb {
    pub alpha: u8,
    pub red: u8,
    pub green: u8,
    pub blue: u8,
}

/// The channels of a colour encoded as `0xAARRGGBB`.
pub open spec fn channels(encoded: u32) -> Argb {
    Argb {
        alpha: (encoded / 0x100_0000) as u8,
        red: (encoded / 0x1_0000 % 0x100) as u8,
        green: (encoded / 0x100 % 0x100) as u8,
        blue: (encoded % 0x100) as u8,
    }
}

/// Calls `slint::Color::from_argb_encoded`. Claimed of it: the colour that it
/// makes has the four bytes of `encoded` as its alpha, red, green and blue
/// channel, from the highest byte to the lowest.
#[verifier::external_body]
fn decode_color(encoded: u32) -> (color: Argb)
    ensures
        color == channels(encoded),
{
    let color = slint::Color::from_argb_encoded(encoded);
    Argb { alpha: color.alpha(), red: color.red(), green: color.green(), blue: color.blue() }
}

/// The colours that the UI is painted in.
#[derive(Clone, Copy, Debug, PartialEq, Eq, Structural)]
pub struct Palette {
    pub background: Argb,
    pub surface: Argb,
    pub interactive: Argb,
    pub interactive_pressed: Argb,
    pub text_primary: Argb,
    pub text_secondary: Argb,
    pub accent: Argb,
    pub border: Argb,
    pub running_app: Argb,
    pub running_app_text: Argb,
}

/// The palette of a theme: each text read as a colour.
pub open spec fn palette_of(theme: ThemeView) -> Palette {
    Palette {
        background: channels(argb_of(theme.background)),
        surface: channels(argb_of(theme.surface)),
        interactive: channels(argb_of(theme.interactive)),
        interactive_pressed: channels(argb_of(theme.interactive_pressed)),
        text_primary: channels(argb_of(theme.text_primary)),
        text_secondary: channels(argb_of(theme.text_secondary)),
        accent: channels(argb_of(theme.accent)),
        border: channels(argb_of(theme.border)),
        running_app: channels(argb_of(theme.running_app)),
        running_app_text: channels(argb_of(theme.running_app_text)),
    }
}

/// Reads the colours of a theme.
pub fn apply_theme(theme: &ThemeColors) -> (palette: Palette)
    ensures
        palette == palette_of(theme@),
{
    Palette {
        background: decode_color(parse_hex(theme.background.as_str())),
        surface: decode_color(parse_hex(theme.surface.as_str())),
        interactive: decode_color(parse_hex(theme.interactive.as_str())),
        interactive_pressed: decode_color(parse_hex(theme.interactive_pressed.as_str())),
        text_primary: decode_color(parse_hex(theme.text_primary.as_str())),
        text_secondary: decode_color(parse_hex(theme.text_secondary.as_str())),
        accent: decode_color(parse_hex(theme.accent.as_str())),
        border: decode_color(parse_hex(theme.border.as_str())),
        running_app: decode_color(parse_hex(theme.running_app.as_str())),
        running_app_text: decode_color(parse_hex(theme.running_app_text.as_str())),
    }
}

/// Every colour of every theme is opaque.
pub proof fn every_colour_is_opaque(s: Seq<char>)
    ensures
        channels(argb_of(s)).alpha == 0xFF,
{
    let rgb = rgb_of(s);
    assert((0xFF00_0000u32 | rgb) / 0x100_0000u32 == 0xFFu32) by (bit_vector);
}

/// Leading hash signs do not change the colour.
pub proof fn hash_signs_do_not_matter(s: Seq<char>)
    ensures
        argb_of(seq!['#'] + s) == argb_of(s),
{
    assert((seq!['#'] + s).skip(1) == s);
}

/// Whether `c` is a hexadecimal digit.
pub open spec fn is_hex_digit(c: char) -> bool {
    crate::text::digit_value(c) < 16
}

/// What two hexadecimal digits write.
pub open spec fn hex_byte(high: char, low: char) -> int {
    crate::text::digit_value(high) * 16 + crate::text::digit_value(low)
}

/// A text `#rrggbb` reads as the colour with exactly those channels.
pub proof fn six_digits_give_the_three_channels(s: Seq<char>)
    requires
        s.len() == 7,
        s[0] == '#',
        forall|i: int| 1 <= i < 7 ==> is_hex_digit(#[trigger] s[i]),
    ensures
        channels(argb_of(s)).red == hex_byte(s[1], s[2]),
        channels(argb_of(s)).green == hex_byte(s[3], s[4]),
        channels(argb_of(s)).blue == hex_byte(s[5], s[6]),
{
    let d = s.skip(1);
    assert(is_hex_digit(s[1]) && is_hex_digit(s[2]) && is_hex_digit(s[3]) && is_hex_digit(s[4])
        && is_hex_digit(s[5]) && is_hex_digit(s[6]));
    assert(d[0] == s[1]);
    assert(unhashed(d) == d);
    assert(unhashed(s) == d);
    assert(crate::text::unsigned_part(d) == d);
    assert forall|i: int| 0 <= i < d.len() implies crate::text::digit_value(#[trigger] d[i])
        < 16 by {
        assert(d[i] == s[i + 1]);
    }
    lemma_six_digits(d);
    assert(d[1] == s[2] && d[2] == s[3] && d[3] == s[4] && d[4] == s[5] && d[5] == s[6]);
    lemma_channels(rgb_of(s), hex_byte(s[1], s[2]), hex_byte(s[3], s[4]), hex_byte(s[5], s[6]));
}

proof fn lemma_channels(rgb: u32, red: int, green: int, blue: int)
    requires
        0 <= red < 0x100,
        0 <= green < 0x100,
        0 <= blue < 0x100,
        rgb == red * 0x1_0000 + green * 0x100 + blue,
    ensures
        channels(0xFF00_0000u32 | rgb).red == red,
        channels(0xFF00_0000u32 | rgb).green == green,
        channels(0xFF00_0000u32 | rgb).blue == blue,
{
    assert((0xFF00_0000u32 | rgb) == 0xFF00_0000u32 + rgb) by (bit_vector)
        requires
            rgb < 0x100_0000u32,
    ;
    let e = 0xFF00_0000 + rgb;
    vstd::arithmetic::div_mod::lemma_fundamental_div_mod_converse(
        e,
        0x1_0000,
        0xFF00 + red,
        green * 0x100 + blue,
    );
    vstd::arithmetic::div_mod::lemma_fundamental_div_mod_converse(
        e,
        0x100,
        0xFF_0000 + red * 0x100 + green,
        blue,
    );
    vstd::arithmetic::div_mod::lemma_fundamental_div_mod_converse(0xFF00 + red, 0x100, 0xFF, red);
    vstd::arithmetic::div_mod::lemma_fundamental_div_mod_converse(
        0xFF_0000 + red * 0x100 + green,
        0x100,
        0xFF00 + red,
        green,
    );
}

proof fn lemma_six_digits(d: Seq<char>)
    requires
        d.len() == 6,
        forall|i: int| 0 <= i < 6 ==> is_hex_digit(#[trigger] d[i]),
    ensures
        crate::text::digits_value(d, 16) == hex_byte(d[0], d[1]) * 0x1_0000 + hex_byte(d[2], d[3])
            * 0x100 + hex_byte(d[4], d[5]),
{
    reveal_with_fuel(crate::text::digits_value, 7);
    assert(d.drop_last().last() == d[4]);
    assert(d.drop_last().drop_last().last() == d[3]);
    assert(d.drop_last().drop_last().drop_last().last() == d[2]);
    assert(d.drop_last().drop_last().drop_last().drop_last().last() == d[1]);
    assert(d.drop_last().drop_last().drop_last().drop_last().drop_last().last() == d[0]);
}

/// For each of the ten colours: where the file gives it, the theme has exactly
/// the text given for it, and where not, the built-in text of the same colour.
pub proof fn file_overrides_colour_by_colour(entries: ThemeEntries)
    ensures
        entries.background matches Some(t) ==> completed(entries).background == t@,
        entries.background is None ==> completed(entries).background == "#1a1a2e"@,
        entries.surface matches Some(t) ==> completed(entries).surface == t@,
        entries.surface is None ==> completed(entries).surface == "#16213e"@,
        entries.interactive matches Some(t) ==> completed(entries).interactive == t@,
        entries.interactive is None ==> completed(entries).interactive == "#0f3460"@,
        entries.interactive_pressed matches Some(t) ==> completed(entries).interactive_pressed
            == t@,
        entries.interactive_pressed is None ==> completed(entries).interactive_pressed
            == "#1a5276"@,
        entries.text_primary matches Some(t) ==> completed(entries).text_primary == t@,
        entries.text_primary is None ==> completed(entries).text_primary == "#e0e0f0"@,
        entries.text_secondary matches Some(t) ==> completed(entries).text_secondary == t@,
        entries.text_secondary is None ==> completed(entries).text_secondary == "#a0a0b8"@,
        entries.accent matches Some(t) ==> completed(entries).accent == t@,
        entries.accent is None ==> completed(entries).accent == "#e94560"@,
        entries.border matches Some(t) ==> completed(entries).border == t@,
        entries.border is None ==> completed(entries).border == "#2a2a4a"@,
        entries.running_app matches Some(t) ==> completed(entries).running_app == t@,
        entries.running_app is None ==> completed(entries).running_app == "#1a3a1a"@,
        entries.running_app_text matches Some(t) ==> completed(entries).running_app_text == t@,
        entries.running_app_text is None ==> completed(entries).running_app_text == "#90ee90"@,
{
}

/// A file that gives every colour is kept unchanged, and one that gives none is
/// the built-in theme.
pub proof fn full_file_is_kept_and_empty_file_is_built_in(
    theme: ThemeColors,
    full: ThemeEntries,
    empty: ThemeEntries,
)
    requires
        full == (ThemeEntries {
            background: Some(theme.background),
            surface: Some(theme.surface),
            interactive: Some(theme.interactive),
            interactive_pressed: Some(theme.interactive_pressed),
            text_primary: Some(theme.text_primary),
            text_secondary: Some(theme.text_secondary),
            accent: Some(theme.accent),
            border: Some(theme.border),
            running_app: Some(theme.running_app),
            running_app_text: Some(theme.running_app_text),
        }),
        empty == (ThemeEntries {
            background: None,
            surface: None,
            interactive: None,
            interactive_pressed: None,
            text_primary: None,
            text_secondary: None,
            accent: None,
            border: None,
            running_app: None,
            running_app_text: None,
        }),
    ensures
        completed(full) == theme@,
        completed(empty) == default_theme(),
{
}

/// Each colour of the palette is read from the theme's text for that colour.
pub proof fn palette_paints_each_part_in_its_own_colour(theme: ThemeColors)
    ensures
        palette_of(theme@).background == channels(argb_of(theme.background@)),
        palette_of(theme@).surface == channels(argb_of(theme.surface@)),
        palette_of(theme@).interactive == channels(argb_of(theme.interactive@)),
        palette_of(theme@).interactive_pressed == channels(argb_of(theme.interactive_pressed@)),
        palette_of(theme@).text_primary == channels(argb_of(theme.text_primary@)),
        palette_of(theme@).text_secondary == channels(argb_of(theme.text_secondary@)),
        palette_of(theme@).accent == channels(argb_of(theme.accent@)),
        palette_of(theme@).border == channels(argb_of(theme.border@)),
        palette_of(theme@).running_app == channels(argb_of(theme.running_app@)),
        palette_of(theme@).running_app_text == channels(argb_of(theme.running_app_text@)),
{
}

/// The four channels are the four bytes of the encoded colour, from alpha down
/// to blue.
pub proof fn channels_are_the_bytes(encoded: u32)
    ensures
        channels(encoded).alpha * 0x100_0000 + channels(encoded).red * 0x1_0000 + channels(
            encoded,
        ).green * 0x100 + channels(encoded).blue == encoded,
{
    let e = encoded as int;
    assert(e / 0x1_0000 == e / 0x100_0000 * 0x100 + e / 0x1_0000 % 0x100);
    assert(e / 0x100 == e / 0x1_0000 * 0x100 + e / 0x100 % 0x100);
    assert(e == e / 0x100 * 0x100 + e % 0x100);
}

/// A text without a leading hash sign is read as a hexadecimal number, whose
/// lower three bytes are the colour; a text that is no such number is black. The
/// alpha is full either way.
pub proof fn text_reads_as_its_hexadecimal_number(s: Seq<char>)
    requires
        s.len() == 0 || s[0] != '#',
    ensures
        crate::text::number(s, 16) matches Some(v) ==> {
            &&& argb_of(s) % 0x100_0000 == v % 0x100_0000
            &&& argb_of(s) / 0x100_0000 == 0xFF
        },
        crate::text::number(s, 16) is None ==> argb_of(s) == 0xFF00_0000,
{
    let v = rgb_of(s);
    assert((0xFF00_0000u32 | v) % 0x100_0000u32 == v % 0x100_0000u32) by (bit_vector);
    assert((0xFF00_0000u32 | v) / 0x100_0000u32 == 0xFFu32) by (bit_vector);
    assert((0xFF00_0000u32 | 0u32) == 0xFF00_0000u32) by (bit_vector);
}

/// The view of a theme shows each colour's text as it is.
pub proof fn theme_view_shows_each_colour(theme: ThemeColors)
    ensures
        theme@.background == theme.background@,
        theme@.surface == theme.surface@,
        theme@.interactive == theme.interactive@,
        theme@.interactive_pressed == theme.interactive_pressed@,
        theme@.text_primary == theme.text_primary@,
        theme@.text_secondary == theme.text_secondary@,
        theme@.accent == theme.accent@,
        theme@.border == theme.border@,
        theme@.running_app == theme.running_app@,
        theme@.running_app_text == theme.running_app_text@,
{
}

} // verus!
