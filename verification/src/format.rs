//! Output formats of pictures and how they are written as text.

use crate::text::{
    all_but, all_digits, chars_of, decimal_number, decimal_value, is_digit, lemma_run_unique, only,
    parse_decimal, run_end, run_len,
};
use vstd::prelude::*;
use vstd::string::StringExecFns;

verus! {

/// A format in which pictures are written.
#[derive(Debug, Clone, Copy, PartialEq, Eq, Structural)]
pub enum OutputFormat {
    Jpeg,
    Png,
    Webp,
}

/// The lowercase form of a text as `str::to_lowercase` gives it.
pub uninterp spec fn lowercase_of(text: Seq<char>) -> Seq<char>;

/// Lowercases a text with `str::to_lowercase`.
#[verifier::external_body]
fn to_lowercase(text: &str) -> (lower: String)
    ensures
        lower@ == lowercase_of(text@),
{
    text.to_lowercase()
}

/// Whether two texts are the same.
fn same_text(a: &str, b: &str) -> (same: bool)
    ensures
        same == (a@ == b@),
{
    let left: String = a.to_owned();
    let right: String = b.to_owned();
    left == right
}

/// The format that a lowercase name stands for.
pub open spec fn format_of_lowercase(lower: Seq<char>) -> Option<OutputFormat> {
    if lower == "jpeg"@ || lower == "jpg"@ {
        Some(OutputFormat::Jpeg)
    } else if lower == "png"@ {
        Some(OutputFormat::Png)
    } else if lower == "webp"@ {
        Some(OutputFormat::Webp)
    } else {
        None
    }
}

/// The format that a name stands for, whatever the case of its letters.
pub open spec fn format_of_name(name: Seq<char>) -> Option<OutputFormat> {
    format_of_lowercase(lowercase_of(name))
}

/// What is said of a name that stands for no format.
pub open spec fn unknown_format_message(name: Seq<char>) -> Seq<char> {
    "Unknown or unsupported output format "@ + name
}

impl OutputFormat {
    /// The format that a lowercase name stands for: `jpeg` and `jpg` for
    /// JPEG, `png` for PNG, `webp` for WebP, and no other name for any.
    pub fn from_lowercase(lower: &str) -> (format: Option<Self>)
        ensures
            format == format_of_lowercase(lower@),
    {
        if same_text(lower, "jpeg") || same_text(lower, "jpg") {
            Some(OutputFormat::Jpeg)
        } else if same_text(lower, "png") {
            Some(OutputFormat::Png)
        } else if same_text(lower, "webp") {
            Some(OutputFormat::Webp)
        } else {
            None
        }
    }
}

impl core::str::FromStr for OutputFormat {
    type Err = String;

    /// Reads a format off its name, whatever the case of its letters.
    fn from_str(s: &str) -> (result: Result<Self, String>)
        ensures
            match format_of_name(s@) {
                Some(format) => result == Ok::<Self, String>(format),
                None => result matches Err(message) && message@ == unknown_format_message(s@),
            },
    {
        let lower: String = to_lowercase(s);
        match OutputFormat::from_lowercase(lower.as_str()) {
            Some(format) => Ok(format),
            None => Err("Unknown or unsupported output format ".to_owned().concat(s)),
        }
    }
}

impl Default for OutputFormat {
    fn default() -> (format: Self)
        ensures
            format == OutputFormat::Jpeg,
    {
        OutputFormat::Jpeg
    }
}

/// The words of a text as `str::split_whitespace` gives them.
pub uninterp spec fn whitespace_words(text: Seq<char>) -> Seq<Seq<char>>;

/// Splits a text into its words with `str::split_whitespace`.
#[verifier::external_body]
fn split_whitespace(text: &str) -> (words: Vec<String>)
    ensures
        word_views(words@) == whitespace_words(text@),
{
    text.split_whitespace().map(String::from).collect()
}

/// The words of a list as sequences of characters.
pub open spec fn word_views(words: Seq<String>) -> Seq<Seq<char>> {
    words.map_values(|word: String| word@)
}

/// The formats that the words of a list stand for, in the order of the
/// words; words that stand for no format are passed over.
pub open spec fn formats_of_words(words: Seq<Seq<char>>) -> Seq<OutputFormat>
    decreases words.len(),
{
    if words.len() == 0 {
        seq![]
    } else {
        match format_of_name(words.last()) {
            Some(format) => formats_of_words(words.drop_last()).push(format),
            None => formats_of_words(words.drop_last()),
        }
    }
}

/// What is said of each word of a list that stands for no format, in the
/// order of the words.
pub open spec fn complaints_of_words(words: Seq<Seq<char>>) -> Seq<Seq<char>>
    decreases words.len(),
{
    if words.len() == 0 {
        seq![]
    } else {
        match format_of_name(words.last()) {
            Some(format) => complaints_of_words(words.drop_last()),
            None => complaints_of_words(words.drop_last()).push(
                unknown_format_message(words.last()),
            ),
        }
    }
}

/// The parts of a list one after another, with `separator` between each
/// two.
pub open spec fn joined(parts: Seq<Seq<char>>, separator: Seq<char>) -> Seq<char>
    decreases parts.len(),
{
    if parts.len() == 0 {
        seq![]
    } else if parts.len() == 1 {
        parts[0]
    } else {
        joined(parts.drop_last(), separator) + separator + parts.last()
    }
}

/// The list of formats that the words of a list stand for, one format for
/// each word. Where some words stand for no format, what is said of each of
/// them takes the list's place, joined by a comma and a space.
pub open spec fn list_of_words(words: Seq<Seq<char>>) -> Result<Seq<OutputFormat>, Seq<char>> {
    if complaints_of_words(words).len() == 0 {
        Ok(formats_of_words(words))
    } else {
        Err(joined(complaints_of_words(words), ", "@))
    }
}

/// Puts the parts of a list one after another, with `separator` between
/// each two.
fn join(parts: &Vec<String>, separator: &str) -> (text: String)
    ensures
        text@ == joined(word_views(parts@), separator@),
{
    let ghost views = word_views(parts@);
    let mut text: String = String::new();
    let mut i: usize = 0;
    while i < parts.len()
        invariant
            i <= parts@.len(),
            views == word_views(parts@),
            text@ == joined(views.take(i as int), separator@),
        decreases parts@.len() - i,
    {
        let ghost longer = views.take(i + 1);
        proof {
            assert(longer.drop_last() =~= views.take(i as int));
        }
        if i > 0 {
            text.append(separator);
        }
        text.append(parts[i].as_str());
        i += 1;
    }
    assert(views.take(parts@.len() as int) =~= views);
    text
}

/// A list of output formats.
#[derive(Debug)]
pub struct OutputFormats(pub Vec<OutputFormat>);

impl Clone for OutputFormats {
    fn clone(&self) -> (copy: Self)
        ensures
            copy.0@ == self.0@,
    {
        OutputFormats(self.0.clone())
    }
}

impl Default for OutputFormats {
    fn default() -> (formats: Self)
        ensures
            formats.0@ == seq![OutputFormat::Jpeg, OutputFormat::Webp],
    {
        let list: Vec<OutputFormat> = vec![OutputFormat::Jpeg, OutputFormat::Webp];
        OutputFormats(list)
    }
}

impl OutputFormats {
    /// Reads a list of formats off the names given, one format for each
    /// name. Where some names stand for no format, what is said of each of
    /// them is returned instead, joined by a comma and a space.
    pub fn from_words(words: &Vec<String>) -> (result: Result<Self, String>)
        ensures
            match result {
                Ok(formats) => list_of_words(word_views(words@)) == Ok::<
                    Seq<OutputFormat>,
                    Seq<char>,
                >(formats.0@),
                Err(message) => list_of_words(word_views(words@)) == Err::<
                    Seq<OutputFormat>,
                    Seq<char>,
                >(message@),
            },
    {
        let ghost views = word_views(words@);
        let mut formats: Vec<OutputFormat> = Vec::new();
        let mut invalids: Vec<String> = Vec::new();
        let mut i: usize = 0;
        while i < words.len()
            invariant
                i <= words@.len(),
                views == word_views(words@),
                formats@ == formats_of_words(views.take(i as int)),
                word_views(invalids@) == complaints_of_words(views.take(i as int)),
            decreases words@.len() - i,
        {
            let ghost longer = views.take(i + 1);
            let ghost before = invalids@;
            proof {
                assert(longer.drop_last() =~= views.take(i as int));
            }
            match <OutputFormat as core::str::FromStr>::from_str(words[i].as_str()) {
                Ok(format) => {
                    formats.push(format);
                },
                Err(message) => {
                    invalids.push(message);
                },
            }
            i += 1;
        }
        assert(views.take(words@.len() as int) =~= views);
        if invalids.len() == 0 {
            Ok(OutputFormats(formats))
        } else {
            Err(join(&invalids, ", "))
        }
    }
}

impl core::str::FromStr for OutputFormats {
    type Err = String;

    /// Reads a list of formats off their names, which whitespace separates.
    fn from_str(s: &str) -> (result: Result<Self, String>)
        ensures
            match result {
                Ok(formats) => list_of_words(whitespace_words(s@)) == Ok::<
                    Seq<OutputFormat>,
                    Seq<char>,
                >(formats.0@),
                Err(message) => list_of_words(whitespace_words(s@)) == Err::<
                    Seq<OutputFormat>,
                    Seq<char>,
                >(message@),
            },
    {
        let words: Vec<String> = split_whitespace(s);
        OutputFormats::from_words(&words)
    }
}

/// A width and a height in pixels.
#[derive(Debug, Clone, Copy, PartialEq, Eq, Structural)]
pub struct Resolution {
    pub width: u32,
    pub height: u32,
}

/// The digit that writes `d`, for `d` below ten.
pub open spec fn digit_char(d: nat) -> char {
    (('0' as u8) + d) as u8 as char
}

/// The decimal digits that write `n`, without leading zeros.
pub open spec fn decimal_text(n: nat) -> Seq<char>
    decreases n,
{
    if n < 10 {
        seq![digit_char(n)]
    } else {
        decimal_text(n / 10).push(digit_char(n % 10))
    }
}

/// Writes a number with the `Display` of `u32`, which gives its decimal
/// digits without a sign and without leading zeros.
#[verifier::external_body]
fn decimal(n: u32) -> (text: String)
    ensures
        text@ == decimal_text(n as nat),
{
    format!("{}", n)
}

/// The number that a text writes: decimal digits, which a plus sign may
/// precede, writing a number that fits 32 bits.
pub open spec fn u32_of_text(text: Seq<char>) -> Option<u32> {
    let digits = if text.len() > 0 && text[0] == '+' {
        text.skip(1)
    } else {
        text
    };
    match decimal_number(digits, u32::MAX as u64) {
        Some(number) => Some(number as u32),
        None => None,
    }
}

/// The resolution that a text writes: a width, the letter `x` once or more
/// often, and a height.
pub open spec fn resolution_of_text(input: Seq<char>) -> Option<Resolution> {
    let cut = run_len(input, all_but('x')) as int;
    let rest = input.skip(cut);
    let height_text = rest.skip(run_len(rest, only('x')) as int);
    if cut >= input.len() {
        None
    } else {
        match (u32_of_text(input.take(cut)), u32_of_text(height_text)) {
            (Some(width), Some(height)) => Some(Resolution { width, height }),
            _ => None,
        }
    }
}

/// How a resolution is written: width, the letter `x`, height.
pub open spec fn resolution_text(resolution: Resolution) -> Seq<char> {
    decimal_text(resolution.width as nat) + "x"@ + decimal_text(resolution.height as nat)
}

/// The decimal digits that write a number are digits, at least one, and
/// write that number.
pub proof fn lemma_decimal_text(n: nat)
    ensures
        decimal_text(n).len() > 0,
        all_digits(decimal_text(n)),
        decimal_value(decimal_text(n)) == n,
    decreases n,
{
    let text = decimal_text(n);
    if n < 10 {
        assert(decimal_value(text.drop_last()) == 0);
    } else {
        lemma_decimal_text(n / 10);
        assert(text.drop_last() =~= decimal_text(n / 10));
        assert(text.last() == digit_char(n % 10));
        assert(all_digits(text));
    }
}

/// A resolution that is written and read again is the same resolution.
pub proof fn lemma_resolution_round_trip(resolution: Resolution)
    ensures
        resolution_of_text(resolution_text(resolution)) == Some(resolution),
{
    let width_text = decimal_text(resolution.width as nat);
    let height_text = decimal_text(resolution.height as nat);
    let input = resolution_text(resolution);
    lemma_decimal_text(resolution.width as nat);
    lemma_decimal_text(resolution.height as nat);
    reveal_strlit("x");
    // The width is written in digits, and the letter follows it.
    let cut = width_text.len() as int;
    assert(input[cut] == 'x');
    lemma_run_unique(input, all_but('x'), cut);
    assert(input.take(cut) =~= width_text);
    // The letter stands once, and the digits of the height follow it.
    let rest = input.skip(cut);
    assert(rest[1] == height_text[0]);
    lemma_run_unique(rest, only('x'), 1);
    assert(rest.skip(1) =~= height_text);
}

/// A size that is written and read again is the same size.
pub proof fn lemma_size_round_trip(size: OutputSize)
    ensures
        size_of_text(size_text(size)) == Some(size),
{
    match size {
        OutputSize::Px(resolution) => {
            // A resolution starts with a digit, the word with a letter.
            lemma_resolution_round_trip(resolution);
            lemma_decimal_text(resolution.width as nat);
            reveal_strlit("full");
            assert(is_digit(resolution_text(resolution)[0]));
            assert("full"@[0] == 'f');
        },
        OutputSize::Full => {},
    }
}

/// Reads the number that the characters from `from` up to `to` write.
fn parse_u32(chars: &Vec<char>, from: usize, to: usize) -> (number: Option<u32>)
    requires
        from <= to <= chars@.len(),
    ensures
        number == u32_of_text(chars@.subrange(from as int, to as int)),
{
    let ghost text = chars@.subrange(from as int, to as int);
    let start: usize = if from < to && chars[from] == '+' {
        from + 1
    } else {
        from
    };
    proof {
        if start > from {
            assert(chars@.subrange(start as int, to as int) =~= text.skip(1));
        }
    }
    match parse_decimal(chars, start, to, u32::MAX as u64) {
        Some(number) => Some(number as u32),
        None => None,
    }
}

impl Resolution {
    pub fn new(width: u32, height: u32) -> (resolution: Self)
        ensures
            resolution == (Resolution { width, height }),
    {
        Resolution { width, height }
    }

    /// Writes the resolution as width, the letter `x`, height.
    pub fn to_string(&self) -> (text: String)
        ensures
            text@ == resolution_text(*self),
    {
        decimal(self.width).concat("x").concat(decimal(self.height).as_str())
    }
}

impl core::str::FromStr for Resolution {
    type Err = String;

    /// Reads a resolution written as width, the letter `x`, height.
    fn from_str(input: &str) -> (result: Result<Self, String>)
        ensures
            match resolution_of_text(input@) {
                Some(resolution) => result == Ok::<Self, String>(resolution),
                None => result matches Err(message) && message@ == "invalid"@,
            },
    {
        let chars: Vec<char> = chars_of(input);
        let cut: usize = run_end(&chars, 0, 'x', false);
        assert(chars@.skip(0) =~= chars@);
        if cut >= chars.len() {
            return Err("invalid".to_owned());
        }
        let start: usize = run_end(&chars, cut, 'x', true);
        proof {
            assert(chars@.subrange(start as int, chars@.len() as int) =~= chars@.skip(
                cut as int,
            ).skip(start - cut));
        }
        let width: Option<u32> = parse_u32(&chars, 0, cut);
        let height: Option<u32> = parse_u32(&chars, start, chars.len());
        match (width, height) {
            (Some(width), Some(height)) => Ok(Resolution { width, height }),
            _ => Err("invalid".to_owned()),
        }
    }
}

/// The size of the pictures that are written.
#[derive(Debug, Clone, Copy, PartialEq, Eq, Structural)]
pub enum OutputSize {
    /// The resolution given, in pixels.
    Px(Resolution),
    /// The resolution of the source.
    Full,
}

/// How a size is written: the word `full`, or the resolution.
pub open spec fn size_text(size: OutputSize) -> Seq<char> {
    match size {
        OutputSize::Px(resolution) => resolution_text(resolution),
        OutputSize::Full => "full"@,
    }
}

/// The size that a text writes: the word `full`, or a resolution.
pub open spec fn size_of_text(text: Seq<char>) -> Option<OutputSize> {
    if text == "full"@ {
        Some(OutputSize::Full)
    } else {
        match resolution_of_text(text) {
            Some(resolution) => Some(OutputSize::Px(resolution)),
            None => None,
        }
    }
}

impl OutputSize {
    /// Writes the size: the word `full`, or the resolution.
    pub fn to_string(&self) -> (text: String)
        ensures
            text@ == size_text(*self),
    {
        match self {
            OutputSize::Px(resolution) => resolution.to_string(),
            OutputSize::Full => "full".to_owned(),
        }
    }
}

impl core::str::FromStr for OutputSize {
    type Err = String;

    /// Reads a size: the word `full`, or a resolution.
    fn from_str(s: &str) -> (result: Result<Self, String>)
        ensures
            match size_of_text(s@) {
                Some(size) => result == Ok::<Self, String>(size),
                None => result matches Err(message) && message@ == "invalid"@,
            },
    {
        if same_text(s, "full") {
            Ok(OutputSize::Full)
        } else {
            match <Resolution as core::str::FromStr>::from_str(s) {
                Ok(resolution) => Ok(OutputSize::Px(resolution)),
                Err(message) => Err(message),
            }
        }
    }
}

impl Default for OutputSize {
    fn default() -> (size: Self)
        ensures
            size == OutputSize::Full,
    {
        OutputSize::Full
    }
}

} // verus!
