//! How burnt-in subtitles look: the style that a caller asks for, the
//! style clause that the subtitle filter takes, and the escaping that
//! embeds paths and values in a filter graph.

use crate::text::{
    escape, escaped, from_chars, push_chars, push_str, text_view, to_chars, trim, trimmed,
};
use vstd::prelude::*;

verus! {

/// How a number relates to zero.
#[derive(Debug, Clone, Copy, PartialEq, Eq, Structural)]
pub enum Sign {
    Negative,
    Zero,
    Positive,
    /// Not a number: neither below, nor at, nor above zero.
    Unordered,
}

/// A number that a caller measured or chose, such as a frame rate or a
/// font size: how it relates to zero, and how it is written.
#[derive(Debug, Clone)]
pub struct Quantity {
    pub sign: Sign,
    pub text: String,
}

/// A quantity as plain mathematical values.
pub struct QuantityModel {
    pub sign: Sign,
    pub text: Seq<char>,
}

impl View for Quantity {
    type V = QuantityModel;

    open spec fn view(&self) -> QuantityModel {
        QuantityModel { sign: self.sign, text: self.text@ }
    }
}

impl QuantityModel {
    /// Above zero.
    pub open spec fn is_positive(self) -> bool {
        self.sign == Sign::Positive
    }

    /// At zero or above.
    pub open spec fn is_at_least_zero(self) -> bool {
        self.sign == Sign::Zero || self.sign == Sign::Positive
    }

    /// At zero or below.
    pub open spec fn is_at_most_zero(self) -> bool {
        self.sign == Sign::Zero || self.sign == Sign::Negative
    }

    /// Anything but zero; what is not a number is not zero.
    pub open spec fn is_not_zero(self) -> bool {
        self.sign != Sign::Zero
    }
}

/// How subtitles that are burnt into the picture look. What is left out
/// is left to the subtitle filter.
#[derive(Debug, Clone)]
pub struct SubtitleBurnStyle {
    pub font_name: Option<String>,
    pub font_size: Option<Quantity>,
    pub primary_color: Option<String>,
    pub outline_color: Option<String>,
    pub outline_width: Option<Quantity>,
    pub letter_spacing: Option<Quantity>,
}

/// A burn style as plain mathematical values.
pub struct StyleModel {
    pub font_name: Option<Seq<char>>,
    pub font_size: Option<QuantityModel>,
    pub primary_color: Option<Seq<char>>,
    pub outline_color: Option<Seq<char>>,
    pub outline_width: Option<QuantityModel>,
    pub letter_spacing: Option<QuantityModel>,
}

/// The view of a quantity that may be absent.
pub open spec fn quantity_view(quantity: Option<Quantity>) -> Option<QuantityModel> {
    match quantity {
        Some(q) => Some(q@),
        None => None,
    }
}

impl View for SubtitleBurnStyle {
    type V = StyleModel;

    open spec fn view(&self) -> StyleModel {
        StyleModel {
            font_name: text_view(self.font_name),
            font_size: quantity_view(self.font_size),
            primary_color: text_view(self.primary_color),
            outline_color: text_view(self.outline_color),
            outline_width: quantity_view(self.outline_width),
            letter_spacing: quantity_view(self.letter_spacing),
        }
    }
}

/// The characters that are escaped in the path of a subtitle file:
/// backslash, colon, double quote, single quote and comma.
pub open spec fn path_specials() -> Seq<char> {
    seq!['\\', ':', '"', '\'', ',']
}

/// The characters that are escaped in a value of a style clause: the same
/// five as in a path.
pub open spec fn value_specials() -> Seq<char> {
    path_specials()
}

/// The characters that are escaped in a style clause as a whole.
pub open spec fn clause_specials() -> Seq<char> {
    seq!['\\', '\'', ':']
}

/// A text between single quotes.
pub open spec fn quoted(text: Seq<char>) -> Seq<char> {
    seq!['\''] + text + seq!['\'']
}

/// A subtitle path as the subtitle filter takes it: escaped, in quotes.
pub open spec fn escaped_subtitle_path(path: Seq<char>) -> Seq<char> {
    quoted(escaped(path, path_specials()))
}

/// A style clause as the subtitle filter takes it: escaped, in quotes.
pub open spec fn escaped_force_style(clause: Seq<char>) -> Seq<char> {
    quoted(escaped(clause, clause_specials()))
}

/// A value of a style clause, escaped.
pub open spec fn escaped_force_style_value(value: Seq<char>) -> Seq<char> {
    escaped(value, value_specials())
}

/// Puts a text between single quotes.
fn quote(text: &Vec<char>) -> (out: String)
    ensures
        out@ == quoted(text@),
{
    let mut out: Vec<char> = Vec::new();
    out.push('\'');
    push_chars(&mut out, text);
    out.push('\'');
    assert(out@ =~= quoted(text@));
    from_chars(&out)
}

/// Escapes the path of a subtitle file for the subtitle filter.
pub fn escape_subtitle_path(path: &str) -> (out: String)
    ensures
        out@ == escaped_subtitle_path(path@),
{
    let specials: Vec<char> = vec!['\\', ':', '"', '\'', ','];
    assert(specials@ =~= path_specials());
    quote(&escape(&to_chars(path), &specials))
}

/// Escapes a whole style clause for the subtitle filter.
pub fn escape_force_style(value: &str) -> (out: String)
    ensures
        out@ == escaped_force_style(value@),
{
    let specials: Vec<char> = vec!['\\', '\'', ':'];
    assert(specials@ =~= clause_specials());
    quote(&escape(&to_chars(value), &specials))
}

/// Escapes the characters of one value of a style clause.
fn escape_value(value: &Vec<char>) -> (out: Vec<char>)
    ensures
        out@ == escaped_force_style_value(value@),
{
    let specials: Vec<char> = vec!['\\', ':', '"', '\'', ','];
    assert(specials@ =~= value_specials());
    escape(value, &specials)
}

/// Escapes one value of a style clause.
pub fn escape_force_style_value(value: &str) -> (out: String)
    ensures
        out@ == escaped_force_style_value(value@),
{
    from_chars(&escape_value(&to_chars(value)))
}

/// The value of a hexadecimal digit, in either case of letters.
pub open spec fn hex_value(c: char) -> Option<nat> {
    if '0' <= c <= '9' {
        Some((c as u32 - '0' as u32) as nat)
    } else if 'a' <= c <= 'f' {
        Some((c as u32 - 'a' as u32 + 10) as nat)
    } else if 'A' <= c <= 'F' {
        Some((c as u32 - 'A' as u32 + 10) as nat)
    } else {
        None
    }
}

/// The byte that two hexadecimal digits write.
pub open spec fn hex_pair_value(high: char, low: char) -> Option<nat> {
    match (hex_value(high), hex_value(low)) {
        (Some(h), Some(l)) => Some(h * 16 + l),
        _ => None,
    }
}

/// The capital hexadecimal digit for a value below sixteen.
pub open spec fn hex_digit(value: nat) -> char
    recommends
        value < 16,
{
    if value < 10 {
        (value + 48) as char
    } else {
        (value + 55) as char
    }
}

/// A byte as two capital hexadecimal digits.
pub open spec fn hex_byte(value: nat) -> Seq<char>
    recommends
        value < 256,
{
    seq![hex_digit(value / 16), hex_digit(value % 16)]
}

/// A text without the `#` signs at its start.
pub open spec fn without_leading_hashes(s: Seq<char>) -> Seq<char>
    decreases s.len(),
{
    if s.len() > 0 && s[0] == '#' {
        without_leading_hashes(s.drop_first())
    } else {
        s
    }
}

/// A colour `#RRGGBB` as a subtitle style writes it, `&H00BBGGRR&`: blue
/// first, red last. The `#` may be left out or repeated. There is no colour
/// where what follows is not six hexadecimal digits.
pub open spec fn colour_of(text: Seq<char>) -> Option<Seq<char>> {
    let digits = without_leading_hashes(text);
    if digits.len() != 6 {
        None
    } else {
        match (
            hex_pair_value(digits[0], digits[1]),
            hex_pair_value(digits[2], digits[3]),
            hex_pair_value(digits[4], digits[5]),
        ) {
            (Some(red), Some(green), Some(blue)) => Some(
                "&H00"@ + hex_byte(blue) + hex_byte(green) + hex_byte(red) + "&"@,
            ),
            _ => None,
        }
    }
}

/// The colour that an input names, whatever whitespace stands around it.
pub open spec fn ass_colour(input: Seq<char>) -> Option<Seq<char>> {
    colour_of(trimmed(input))
}

/// Reads one hexadecimal digit.
fn read_hex_digit(c: char) -> (value: Option<u8>)
    ensures
        match value {
            Some(v) => hex_value(c) == Some(v as nat) && v < 16,
            None => hex_value(c) is None,
        },
{
    if c >= '0' && c <= '9' {
        Some((c as u32 - '0' as u32) as u8)
    } else if c >= 'a' && c <= 'f' {
        Some((c as u32 - 'a' as u32 + 10) as u8)
    } else if c >= 'A' && c <= 'F' {
        Some((c as u32 - 'A' as u32 + 10) as u8)
    } else {
        None
    }
}

/// Reads the byte that two characters write in base sixteen.
fn read_hex_pair(high: char, low: char) -> (value: Option<u8>)
    ensures
        match value {
            Some(v) => hex_pair_value(high, low) == Some(v as nat),
            None => hex_pair_value(high, low) is None,
        },
{
    match (read_hex_digit(high), read_hex_digit(low)) {
        (Some(h), Some(l)) => Some(h * 16 + l),
        _ => None,
    }
}

/// Appends a byte as two capital hexadecimal digits.
fn push_hex_byte(out: &mut Vec<char>, value: u8)
    ensures
        final(out)@ == old(out)@ + hex_byte(value as nat),
{
    let high: u8 = value / 16;
    let low: u8 = value % 16;
    let first = if high < 10 {
        (high + 48) as char
    } else {
        (high + 55) as char
    };
    let second = if low < 10 {
        (low + 48) as char
    } else {
        (low + 55) as char
    };
    out.push(first);
    out.push(second);
    assert(out@ =~= old(out)@ + hex_byte(value as nat));
}

/// Converts a colour `#RRGGBB` to the form `&H00BBGGRR&` of subtitle
/// styles. Whitespace around the input does not count.
pub fn ass_color_from_hex(input: &str) -> (colour: Option<String>)
    ensures
        match colour {
            Some(c) => ass_colour(input@) == Some(c@),
            None => ass_colour(input@) is None,
        },
{
    let text = trim(&to_chars(input));
    read_colour(&text)
}

/// Converts a colour `#RRGGBB`, without whitespace around it, to the form
/// `&H00BBGGRR&` of subtitle styles.
pub fn read_colour(text: &Vec<char>) -> (colour: Option<String>)
    ensures
        match colour {
            Some(c) => colour_of(text@) == Some(c@),
            None => colour_of(text@) is None,
        },
{
    let n: usize = text.len();
    let mut from: usize = 0;
    assert(text@.subrange(0, n as int) =~= text@);
    while from < n && text[from] == '#'
        invariant
            from <= n,
            n == text@.len(),
            without_leading_hashes(text@) == without_leading_hashes(
                text@.subrange(from as int, n as int),
            ),
        decreases n - from,
    {
        assert(text@.subrange(from as int, n as int).drop_first() =~= text@.subrange(
            from + 1,
            n as int,
        ));
        from += 1;
    }
    let ghost digits = text@.subrange(from as int, n as int);
    assert(without_leading_hashes(text@) == digits);
    if n - from != 6 {
        return None;
    }
    let red = read_hex_pair(text[from], text[from + 1]);
    let green = read_hex_pair(text[from + 2], text[from + 3]);
    let blue = read_hex_pair(text[from + 4], text[from + 5]);
    match (red, green, blue) {
        (Some(r), Some(g), Some(b)) => {
            let mut out: Vec<char> = to_chars("&H00");
            push_hex_byte(&mut out, b);
            push_hex_byte(&mut out, g);
            push_hex_byte(&mut out, r);
            push_str(&mut out, "&");
            Some(from_chars(&out))
        },
        _ => None,
    }
}

/// The font entry of a style clause: the name without the whitespace
/// around it, escaped. None for a name that is left out or blank.
pub open spec fn font_entry(font_name: Option<Seq<char>>) -> Option<Seq<char>> {
    match font_name {
        Some(name) => if trimmed(name).len() > 0 {
            Some("FontName="@ + escaped_force_style_value(trimmed(name)))
        } else {
            None
        },
        None => None,
    }
}

/// A colour entry of a style clause. None for a colour that is left out
/// or cannot be read.
pub open spec fn colour_entry(key: Seq<char>, colour: Option<Seq<char>>) -> Option<Seq<char>> {
    match colour {
        Some(hex) => match ass_colour(hex) {
            Some(written) => Some(key + written),
            None => None,
        },
        None => None,
    }
}

/// A number entry of a style clause. None for a number that is left out.
pub open spec fn number_entry(key: Seq<char>, number: Option<QuantityModel>) -> Option<Seq<char>> {
    match number {
        Some(q) => Some(key + q.text),
        None => None,
    }
}

/// The font size, where it is set and above zero.
pub open spec fn wanted_font_size(style: StyleModel) -> Option<QuantityModel> {
    match style.font_size {
        Some(q) => if q.is_positive() {
            Some(q)
        } else {
            None
        },
        None => None,
    }
}

/// The outline width, where it is set and not below zero.
pub open spec fn wanted_outline_width(style: StyleModel) -> Option<QuantityModel> {
    match style.outline_width {
        Some(q) => if q.is_at_least_zero() {
            Some(q)
        } else {
            None
        },
        None => None,
    }
}

/// The letter spacing, where it is set and not zero.
pub open spec fn wanted_letter_spacing(style: StyleModel) -> Option<QuantityModel> {
    match style.letter_spacing {
        Some(q) => if q.is_not_zero() {
            Some(q)
        } else {
            None
        },
        None => None,
    }
}

/// The entries of the style clause, in their fixed order: font name, font
/// size where it is above zero, primary colour, outline colour, outline
/// width where it is not below zero, letter spacing where it is not zero.
pub open spec fn style_entries(style: StyleModel) -> Seq<Option<Seq<char>>> {
    seq![
        font_entry(style.font_name),
        number_entry("FontSize="@, wanted_font_size(style)),
        colour_entry("PrimaryColour="@, style.primary_color),
        colour_entry("OutlineColour="@, style.outline_color),
        number_entry("Outline="@, wanted_outline_width(style)),
        number_entry("Spacing="@, wanted_letter_spacing(style)),
    ]
}

/// The entries that are present, joined by commas. None where none is
/// present.
pub open spec fn joined_entries(entries: Seq<Option<Seq<char>>>) -> Option<Seq<char>>
    decreases entries.len(),
{
    if entries.len() == 0 {
        None
    } else {
        match (joined_entries(entries.drop_last()), entries.last()) {
            (None, None) => None,
            (None, Some(entry)) => Some(entry),
            (Some(head), None) => Some(head),
            (Some(head), Some(entry)) => Some(head + seq![','] + entry),
        }
    }
}

/// The style clause for a burn style: its entries, `KEY=VALUE`, joined by
/// commas. None where the style sets nothing.
pub open spec fn force_style(style: StyleModel) -> Option<Seq<char>> {
    joined_entries(style_entries(style))
}

/// Collects the entries of a style clause and joins them.
struct ClauseBuilder {
    text: Vec<char>,
    any: bool,
    seen: Ghost<Seq<Option<Seq<char>>>>,
}

impl ClauseBuilder {
    #[verifier::opaque]
    spec fn holds(self) -> bool {
        match joined_entries(self.seen@) {
            Some(joined) => self.any && self.text@ == joined,
            None => !self.any && self.text@.len() == 0,
        }
    }

    fn new() -> (builder: ClauseBuilder)
        ensures
            builder.holds(),
            builder.seen@ == Seq::<Option<Seq<char>>>::empty(),
    {
        reveal(ClauseBuilder::holds);
        ClauseBuilder { text: Vec::new(), any: false, seen: Ghost(Seq::empty()) }
    }

    fn add(&mut self, key: &str, value: &Vec<char>)
        requires
            old(self).holds(),
        ensures
            final(self).holds(),
            final(self).seen@ == old(self).seen@.push(Some(key@ + value@)),
    {
        reveal(ClauseBuilder::holds);
        let ghost before = self.seen@;
        if self.any {
            self.text.push(',');
        }
        push_str(&mut self.text, key);
        push_chars(&mut self.text, value);
        self.any = true;
        proof {
            self.seen@ = before.push(Some(key@ + value@));
            assert(self.seen@.drop_last() =~= before);
            match joined_entries(before) {
                Some(head) => {
                    assert(self.text@ =~= head + seq![','] + (key@ + value@));
                },
                None => {
                    assert(self.text@ =~= key@ + value@);
                },
            }
        }
    }

    fn skip(&mut self)
        requires
            old(self).holds(),
        ensures
            final(self).holds(),
            final(self).seen@ == old(self).seen@.push(None),
    {
        reveal(ClauseBuilder::holds);
        let ghost before = self.seen@;
        proof {
            self.seen@ = before.push(None);
            assert(self.seen@.drop_last() =~= before);
        }
    }

    fn add_colour(&mut self, key: &str, colour: &Option<String>)
        requires
            old(self).holds(),
        ensures
            final(self).holds(),
            final(self).seen@ == old(self).seen@.push(colour_entry(key@, text_view(*colour))),
    {
        match colour {
            Some(hex) => match ass_color_from_hex(hex.as_str()) {
                Some(written) => self.add(key, &to_chars(written.as_str())),
                None => self.skip(),
            },
            None => self.skip(),
        }
    }

    fn add_number(&mut self, key: &str, number: Option<&Quantity>)
        requires
            old(self).holds(),
        ensures
            final(self).holds(),
            final(self).seen@ == old(self).seen@.push(
                number_entry(
                    key@,
                    match number {
                        Some(q) => Some(q@),
                        None => None,
                    },
                ),
            ),
    {
        match number {
            Some(q) => self.add(key, &to_chars(q.text.as_str())),
            None => self.skip(),
        }
    }

    fn add_font(&mut self, font_name: &Option<String>)
        requires
            old(self).holds(),
        ensures
            final(self).holds(),
            final(self).seen@ == old(self).seen@.push(font_entry(text_view(*font_name))),
    {
        match font_name {
            Some(name) => {
                let font = trim(&to_chars(name.as_str()));
                if font.len() > 0 {
                    self.add("FontName=", &escape_value(&font));
                } else {
                    self.skip();
                }
            },
            None => self.skip(),
        }
    }
}

/// The font size of a style, where it is set and above zero.
fn font_size_of(style: &SubtitleBurnStyle) -> (size: Option<&Quantity>)
    ensures
        wanted_font_size(style@) == match size {
            Some(q) => Some(q@),
            None => None,
        },
{
    match &style.font_size {
        Some(q) => if q.sign == Sign::Positive {
            Some(q)
        } else {
            None
        },
        None => None,
    }
}

/// The outline width of a style, where it is set and not below zero.
fn outline_width_of(style: &SubtitleBurnStyle) -> (width: Option<&Quantity>)
    ensures
        wanted_outline_width(style@) == match width {
            Some(q) => Some(q@),
            None => None,
        },
{
    match &style.outline_width {
        Some(q) => if q.sign == Sign::Zero || q.sign == Sign::Positive {
            Some(q)
        } else {
            None
        },
        None => None,
    }
}

/// The letter spacing of a style, where it is set and not zero.
fn letter_spacing_of(style: &SubtitleBurnStyle) -> (spacing: Option<&Quantity>)
    ensures
        wanted_letter_spacing(style@) == match spacing {
            Some(q) => Some(q@),
            None => None,
        },
{
    match &style.letter_spacing {
        Some(q) => if q.sign != Sign::Zero {
            Some(q)
        } else {
            None
        },
        None => None,
    }
}

/// The style clause for a burn style, or none where the style sets nothing.
pub fn build_force_style(style: &SubtitleBurnStyle) -> (clause: Option<String>)
    ensures
        match clause {
            Some(c) => force_style(style@) == Some(c@),
            None => force_style(style@) is None,
        },
{
    let mut builder = ClauseBuilder::new();
    builder.add_font(&style.font_name);
    builder.add_number("FontSize=", font_size_of(style));
    builder.add_colour("PrimaryColour=", &style.primary_color);
    builder.add_colour("OutlineColour=", &style.outline_color);
    builder.add_number("Outline=", outline_width_of(style));
    builder.add_number("Spacing=", letter_spacing_of(style));
    assert(builder.seen@ =~= style_entries(style@));
    reveal(ClauseBuilder::holds);
    if builder.any {
        Some(from_chars(&builder.text))
    } else {
        None
    }
}

} // verus!
