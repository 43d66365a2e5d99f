//! The palette: sixteen colours, a background and a foreground, under a name;
//! and the validation that makes one from a document.
//!
//! A document is taken in this order. It must be an object that holds the fields
//! `theme`, `color`, `background` and `foreground`, the second an array of
//! strings and the others strings. Then the colour list must hold sixteen
//! entries and the name at least one character. Then every colour must be `#`
//! and six hexadecimal digits: colours are checked here, so that no writer ever
//! meets one that it cannot reformat.

use vstd::prelude::*;
use crate::errors::{ColorSlot, Field, MalformedCause, Position, ValidationError};
use crate::json::{decode, json_document, Json};
use crate::text::{chars_of, texts};

verus! {

/// Whether `c` is a hexadecimal digit, in either case.
pub open spec fn is_hex_digit(c: char) -> bool {
    ||| '0' <= c <= '9'
    ||| 'a' <= c <= 'f'
    ||| 'A' <= c <= 'F'
}

/// Whether `s` is a colour: `#` and exactly six hexadecimal digits.
pub open spec fn is_color(s: Seq<char>) -> bool {
    &&& s.len() == 7
    &&& s[0] == '#'
    &&& forall|i: int| 1 <= i < 7 ==> is_hex_digit(#[trigger] s[i])
}

/// What a palette holds.
pub struct PaletteView {
    pub scheme_name: Seq<char>,
    pub colors: Seq<Seq<char>>,
    pub background: Seq<char>,
    pub foreground: Seq<char>,
}

/// What holds of every palette: a name, sixteen colours, and every colour well
/// formed.
pub open spec fn is_palette(p: PaletteView) -> bool {
    &&& p.scheme_name.len() > 0
    &&& p.colors.len() == 16
    &&& forall|i: int| 0 <= i < 16 ==> is_color(#[trigger] p.colors[i])
    &&& is_color(p.background)
    &&& is_color(p.foreground)
}

/// The index of the first entry at or after `from` that is no colour; the number
/// of entries if there is none.
pub open spec fn first_bad_color(colors: Seq<Seq<char>>, from: int) -> int
    decreases colors.len() - from,
{
    if from < 0 || from >= colors.len() {
        colors.len() as int
    } else if !is_color(colors[from]) {
        from
    } else {
        first_bad_color(colors, from + 1)
    }
}

/// What the four parts of a scheme make: a palette, or the first fault in the
/// order length, name, colours, background, foreground.
pub open spec fn checked(
    scheme_name: Seq<char>,
    colors: Seq<Seq<char>>,
    background: Seq<char>,
    foreground: Seq<char>,
) -> Result<PaletteView, ValidationError> {
    if colors.len() != 16 {
        Err(ValidationError::BadPaletteLength(colors.len() as usize))
    } else if scheme_name.len() == 0 {
        Err(ValidationError::Malformed(MalformedCause::EmptyName))
    } else if first_bad_color(colors, 0) < 16 {
        Err(
            ValidationError::BadColorFormat(
                ColorSlot::Indexed(first_bad_color(colors, 0) as usize),
            ),
        )
    } else if !is_color(background) {
        Err(ValidationError::BadColorFormat(ColorSlot::Background))
    } else if !is_color(foreground) {
        Err(ValidationError::BadColorFormat(ColorSlot::Foreground))
    } else {
        Ok(PaletteView { scheme_name, colors, background, foreground })
    }
}

/// The string under `field`, or why there is none.
pub open spec fn text_member(doc: Json, field: Field) -> Result<Seq<char>, ValidationError> {
    match doc.get(field.key()) {
        None => Err(ValidationError::Malformed(MalformedCause::MissingField(field))),
        Some(value) => match value.text() {
            Some(t) => Ok(t),
            None => Err(ValidationError::Malformed(MalformedCause::WrongType(field))),
        },
    }
}

/// Whether every item is a string.
pub open spec fn all_text(items: Seq<Json>) -> bool {
    forall|i: int| 0 <= i < items.len() ==> (#[trigger] items[i]).text() is Some
}

/// The strings that the items are.
pub open spec fn text_items(items: Seq<Json>) -> Seq<Seq<char>> {
    Seq::new(items.len(), |i: int| items[i].text().unwrap())
}

/// The strings of the colour list, or why there is none.
pub open spec fn colors_member(doc: Json) -> Result<Seq<Seq<char>>, ValidationError> {
    match doc.get(Field::Color.key()) {
        None => Err(ValidationError::Malformed(MalformedCause::MissingField(Field::Color))),
        Some(value) => match value.items() {
            Some(items) if all_text(items) => Ok(text_items(items)),
            _ => Err(ValidationError::Malformed(MalformedCause::WrongType(Field::Color))),
        },
    }
}

/// What a document makes: the palette that it describes, or the first fault.
/// The shape is judged first, field by field in the order `theme`, `color`,
/// `background`, `foreground`; then the contents, as `checked` says.
pub open spec fn validated(doc: Json) -> Result<PaletteView, ValidationError> {
    if !(doc is Object) {
        Err(ValidationError::Malformed(MalformedCause::NotAnObject))
    } else {
        match text_member(doc, Field::Theme) {
            Err(e) => Err(e),
            Ok(scheme_name) => match colors_member(doc) {
                Err(e) => Err(e),
                Ok(colors) => match text_member(doc, Field::Background) {
                    Err(e) => Err(e),
                    Ok(background) => match text_member(doc, Field::Foreground) {
                        Err(e) => Err(e),
                        Ok(foreground) => checked(scheme_name, colors, background, foreground),
                    },
                },
            },
        }
    }
}

/// A validated colour scheme. Its parts cannot be changed once it is made.
#[derive(Debug, PartialEq)]
pub struct Palette {
    scheme_name: String,
    colors: Vec<String>,
    background: String,
    foreground: String,
}

impl View for Palette {
    type V = PaletteView;

    closed spec fn view(&self) -> PaletteView {
        PaletteView {
            scheme_name: self.scheme_name@,
            colors: texts(self.colors@),
            background: self.background@,
            foreground: self.foreground@,
        }
    }
}

/// The result of a validation, with the palette's view in place of the palette.
pub open spec fn outcome(r: Result<Palette, ValidationError>) -> Result<
    PaletteView,
    ValidationError,
> {
    match r {
        Ok(p) => Ok(p@),
        Err(e) => Err(e),
    }
}

/// Whether `c` is a hexadecimal digit.
pub fn is_hex_digit_char(c: char) -> (b: bool)
    ensures
        b == is_hex_digit(c),
{
    ('0' <= c && c <= '9') || ('a' <= c && c <= 'f') || ('A' <= c && c <= 'F')
}

/// Whether `s` is `#` and six hexadecimal digits.
pub fn is_color_text(s: &str) -> (b: bool)
    ensures
        b == is_color(s@),
{
    let chars = chars_of(s);
    if chars.len() != 7 || chars[0] != '#' {
        return false;
    }
    let mut i: usize = 1;
    while i < 7
        invariant
            1 <= i <= 7,
            chars@ == s@,
            chars.len() == 7,
            forall|j: int| 1 <= j < i ==> is_hex_digit(#[trigger] s@[j]),
        decreases 7 - i,
    {
        if !is_hex_digit_char(chars[i]) {
            return false;
        }
        i += 1;
    }
    true
}

impl Clone for Palette {
    /// A second palette with the same parts.
    fn clone(&self) -> (copy: Palette)
        ensures
            copy@ == self@,
    {
        proof {
            use_type_invariant(self);
        }
        let mut colors: Vec<String> = Vec::new();
        let mut i: usize = 0;
        while i < self.colors.len()
            invariant
                i <= self.colors.len(),
                colors.len() == i,
                forall|j: int| 0 <= j < i ==> (#[trigger] colors@[j])@ == self.colors@[j]@,
            decreases self.colors.len() - i,
        {
            colors.push(self.colors[i].clone());
            i += 1;
        }
        assert(texts(colors@) =~= texts(self.colors@));
        Palette {
            scheme_name: self.scheme_name.clone(),
            colors,
            background: self.background.clone(),
            foreground: self.foreground.clone(),
        }
    }
}

impl Palette {
    #[verifier::type_invariant]
    closed spec fn well_formed(&self) -> bool {
        is_palette(self@)
    }

    /// Makes a palette of its four parts, or says what is wrong with them.
    pub fn new(
        scheme_name: String,
        colors: Vec<String>,
        background: String,
        foreground: String,
    ) -> (r: Result<Palette, ValidationError>)
        ensures
            outcome(r) == checked(scheme_name@, texts(colors@), background@, foreground@),
            r matches Ok(p) ==> is_palette(p@),
    {
        if colors.len() != 16 {
            return Err(ValidationError::BadPaletteLength(colors.len()));
        }
        if scheme_name.as_str().unicode_len() == 0 {
            return Err(ValidationError::Malformed(MalformedCause::EmptyName));
        }
        let mut i: usize = 0;
        while i < 16
            invariant
                i <= 16,
                colors.len() == 16,
                scheme_name@.len() > 0,
                first_bad_color(texts(colors@), 0) == first_bad_color(texts(colors@), i as int),
            decreases 16 - i,
        {
            if !is_color_text(colors[i].as_str()) {
                return Err(ValidationError::BadColorFormat(ColorSlot::Indexed(i)));
            }
            i += 1;
        }
        if !is_color_text(background.as_str()) {
            return Err(ValidationError::BadColorFormat(ColorSlot::Background));
        }
        if !is_color_text(foreground.as_str()) {
            return Err(ValidationError::BadColorFormat(ColorSlot::Foreground));
        }
        proof {
            lemma_no_bad_color(texts(colors@), 0);
        }
        Ok(Palette { scheme_name, colors, background, foreground })
    }

    /// The scheme's name.
    pub fn scheme_name(&self) -> (name: &str)
        ensures
            name@ == self@.scheme_name,
            is_palette(self@),
    {
        proof {
            use_type_invariant(self);
        }
        self.scheme_name.as_str()
    }

    /// The sixteen colours: the eight normal ones, then the eight bright ones.
    pub fn colors(&self) -> (colors: &Vec<String>)
        ensures
            texts(colors@) == self@.colors,
            is_palette(self@),
    {
        proof {
            use_type_invariant(self);
        }
        &self.colors
    }

    /// The colour at `index`, for an index below sixteen.
    pub fn color(&self, index: usize) -> (color: Option<&str>)
        ensures
            is_palette(self@),
            match color {
                Some(c) => index < 16 && c@ == self@.colors[index as int],
                None => index >= 16,
            },
    {
        proof {
            use_type_invariant(self);
        }
        if index < self.colors.len() {
            Some(self.colors[index].as_str())
        } else {
            None
        }
    }

    /// The background colour.
    pub fn background(&self) -> (color: &str)
        ensures
            color@ == self@.background,
            is_palette(self@),
    {
        proof {
            use_type_invariant(self);
        }
        self.background.as_str()
    }

    /// The foreground colour.
    pub fn foreground(&self) -> (color: &str)
        ensures
            color@ == self@.foreground,
            is_palette(self@),
    {
        proof {
            use_type_invariant(self);
        }
        self.foreground.as_str()
    }
}

/// Reads the string under `field`.
fn read_text(doc: &Json, field: Field) -> (r: Result<String, ValidationError>)
    ensures
        match r {
            Ok(t) => text_member(*doc, field) == Ok::<Seq<char>, ValidationError>(t@),
            Err(e) => text_member(*doc, field) == Err::<Seq<char>, ValidationError>(e),
        },
{
    match doc.member(field.name()) {
        None => Err(ValidationError::Malformed(MalformedCause::MissingField(field))),
        Some(value) => match value.as_text() {
            Some(t) => Ok(t.clone()),
            None => Err(ValidationError::Malformed(MalformedCause::WrongType(field))),
        },
    }
}

/// The strings that the items are, if all of them are strings.
fn read_strings(items: &Vec<Json>) -> (r: Option<Vec<String>>)
    ensures
        match r {
            Some(v) => all_text(items@) && texts(v@) == text_items(items@),
            None => !all_text(items@),
        },
{
    let mut strings: Vec<String> = Vec::new();
    let mut i: usize = 0;
    while i < items.len()
        invariant
            i <= items.len(),
            strings.len() == i,
            forall|j: int| 0 <= j < i ==> (#[trigger] items@[j]).text() == Some(strings@[j]@),
        decreases items.len() - i,
    {
        match items[i].as_text() {
            None => {
                return None;
            },
            Some(t) => {
                strings.push(t.clone());
            },
        }
        i += 1;
    }
    Some(strings)
}

/// Reads the colour list.
fn read_colors(doc: &Json) -> (r: Result<Vec<String>, ValidationError>)
    ensures
        match r {
            Ok(v) => colors_member(*doc) == Ok::<Seq<Seq<char>>, ValidationError>(texts(v@)),
            Err(e) => colors_member(*doc) == Err::<Seq<Seq<char>>, ValidationError>(e),
        },
{
    let wrong = ValidationError::Malformed(MalformedCause::WrongType(Field::Color));
    match doc.member(Field::Color.name()) {
        None => Err(ValidationError::Malformed(MalformedCause::MissingField(Field::Color))),
        Some(value) => match value.as_array() {
            None => Err(wrong),
            Some(items) => match read_strings(items) {
                None => Err(wrong),
                Some(colors) => Ok(colors),
            },
        },
    }
}

/// Validates a document that has been decoded.
pub fn palette_from_json(doc: &Json) -> (r: Result<Palette, ValidationError>)
    ensures
        outcome(r) == validated(*doc),
        r matches Ok(p) ==> is_palette(p@),
{
    if !doc.is_object() {
        return Err(ValidationError::Malformed(MalformedCause::NotAnObject));
    }
    let scheme_name = match read_text(doc, Field::Theme) {
        Ok(t) => t,
        Err(e) => {
            return Err(e);
        },
    };
    let colors = match read_colors(doc) {
        Ok(v) => v,
        Err(e) => {
            return Err(e);
        },
    };
    let background = match read_text(doc, Field::Background) {
        Ok(t) => t,
        Err(e) => {
            return Err(e);
        },
    };
    let foreground = match read_text(doc, Field::Foreground) {
        Ok(t) => t,
        Err(e) => {
            return Err(e);
        },
    };
    Palette::new(scheme_name, colors, background, foreground)
}

/// What the decoder's verdict on some bytes makes: the validation of the
/// document that it read, or a syntax fault at the place where it gave up.
pub open spec fn parsed(decoded: Result<Json, Position>) -> Result<PaletteView, ValidationError> {
    match decoded {
        Ok(doc) => validated(doc),
        Err(at) => Err(ValidationError::Malformed(MalformedCause::Syntax(at))),
    }
}

/// Validates what the decoder made of some bytes.
pub fn palette_from_decoded(decoded: Result<Json, Position>) -> (r: Result<
    Palette,
    ValidationError,
>)
    ensures
        outcome(r) == parsed(decoded),
        r matches Ok(p) ==> is_palette(p@),
{
    match decoded {
        Ok(doc) => palette_from_json(&doc),
        Err(at) => Err(ValidationError::Malformed(MalformedCause::Syntax(at))),
    }
}

/// Parses and validates a scheme document. The bytes are decoded as JSON; the
/// document that they spell is validated as `validated` says. Bytes that are no
/// JSON document are malformed, with the place at which the decoder gave up.
pub fn parse(raw: &[u8]) -> (r: Result<Palette, ValidationError>)
    ensures
        outcome(r) == parsed(json_document(raw@)),
        r matches Ok(p) ==> is_palette(p@),
{
    palette_from_decoded(decode(raw))
}

/// Where no entry at or after `from` is a bad colour, all of them are colours.
pub proof fn lemma_no_bad_color(colors: Seq<Seq<char>>, from: int)
    requires
        0 <= from <= colors.len(),
        first_bad_color(colors, from) >= colors.len(),
    ensures
        forall|i: int| from <= i < colors.len() ==> is_color(#[trigger] colors[i]),
    decreases colors.len() - from,
{
    if from < colors.len() {
        lemma_no_bad_color(colors, from + 1);
    }
}

/// A document that passes validation makes a palette.
pub proof fn lemma_validated_is_palette(doc: Json)
    ensures
        validated(doc) matches Ok(p) ==> is_palette(p),
{
    if let Ok(p) = validated(doc) {
        lemma_no_bad_color(p.colors, 0);
    }
}

/// Where every entry from `from` on is a colour, none of them is a bad one.
pub proof fn lemma_all_colors(colors: Seq<Seq<char>>, from: int)
    requires
        0 <= from <= colors.len(),
        forall|i: int| from <= i < colors.len() ==> is_color(#[trigger] colors[i]),
    ensures
        first_bad_color(colors, from) == colors.len(),
    decreases colors.len() - from,
{
    if from < colors.len() {
        assert(is_color(colors[from]));
        lemma_all_colors(colors, from + 1);
    }
}

/// The parts of a palette check again as the palette that they are.
pub proof fn lemma_palette_checks_again(p: PaletteView)
    requires
        is_palette(p),
    ensures
        checked(p.scheme_name, p.colors, p.background, p.foreground) == Ok::<
            PaletteView,
            ValidationError,
        >(p),
{
    lemma_all_colors(p.colors, 0);
}

/// A colour list of another length than sixteen is never taken, whatever else
/// the parts hold; the error carries the length.
pub proof fn lemma_wrong_length_rejected(
    scheme_name: Seq<char>,
    colors: Seq<Seq<char>>,
    background: Seq<char>,
    foreground: Seq<char>,
)
    requires
        colors.len() != 16,
    ensures
        checked(scheme_name, colors, background, foreground) == Err::<
            PaletteView,
            ValidationError,
        >(ValidationError::BadPaletteLength(colors.len() as usize)),
{
}

/// A document whose `color` is an array of another length than sixteen is never
/// a palette. Where the document has the shape of a scheme, the error is the bad
/// length; where it has not, the shape's fault comes first.
pub proof fn lemma_document_with_wrong_length_rejected(doc: Json, items: Seq<Json>)
    requires
        doc.get(Field::Color.key()) matches Some(list) && list.items() == Some(items),
        items.len() != 16,
    ensures
        validated(doc) is Err,
        text_member(doc, Field::Theme) is Ok && all_text(items) && text_member(
            doc,
            Field::Background,
        ) is Ok && text_member(doc, Field::Foreground) is Ok ==> validated(doc) == Err::<
            PaletteView,
            ValidationError,
        >(ValidationError::BadPaletteLength(items.len() as usize)),
{
}

} // verus!
