//! Texture atlases: the lines of an `.atlas` file and the textures they describe.

use vstd::prelude::*;
use vstd::string::StrSliceExecFns;

verus! {

/// White space as `char::is_whitespace` has it: the code points with the
/// Unicode property `White_Space`.
pub open spec fn spec_is_whitespace(c: char) -> bool {
    let u = c as u32;
    ||| 0x09 <= u <= 0x0d
    ||| u == 0x20
    ||| u == 0x85
    ||| u == 0xa0
    ||| u == 0x1680
    ||| 0x2000 <= u <= 0x200a
    ||| u == 0x2028
    ||| u == 0x2029
    ||| u == 0x202f
    ||| u == 0x205f
    ||| u == 0x3000
}

/// Whether the character is white space.
pub fn is_whitespace(c: char) -> (r: bool)
    ensures
        r == spec_is_whitespace(c),
{
    let u = c as u32;
    (0x09 <= u && u <= 0x0d) || u == 0x20 || u == 0x85 || u == 0xa0 || u == 0x1680 || (0x2000 <= u
        && u <= 0x200a) || u == 0x2028 || u == 0x2029 || u == 0x202f || u == 0x205f || u == 0x3000
}

/// The index of the first character from `from` on that is no white space;
/// the length of the text where there is none.
pub open spec fn spec_skip_whitespace(text: Seq<char>, from: int) -> int
    decreases text.len() - from,
{
    if from < 0 || from >= text.len() || !spec_is_whitespace(text[from]) {
        from
    } else {
        spec_skip_whitespace(text, from + 1)
    }
}

/// The end of the text before `to` without the white space that it ends in.
pub open spec fn spec_drop_whitespace(text: Seq<char>, to: int) -> int
    decreases to,
{
    if to <= 0 || to > text.len() || !spec_is_whitespace(text[to - 1]) {
        to
    } else {
        spec_drop_whitespace(text, to - 1)
    }
}

/// The text without the white space that it starts with.
pub open spec fn spec_trim_left(text: Seq<char>) -> Seq<char> {
    text.subrange(spec_skip_whitespace(text, 0), text.len() as int)
}

/// The text without the white space that it starts with and ends in.
pub open spec fn spec_trim(text: Seq<char>) -> Seq<char> {
    let start = spec_skip_whitespace(text, 0);
    let end = spec_drop_whitespace(text, text.len() as int);
    if start >= end {
        Seq::empty()
    } else {
        text.subrange(start, end)
    }
}

fn skip_whitespace(s: &str, len: usize) -> (r: usize)
    requires
        len == s@.len(),
    ensures
        r == spec_skip_whitespace(s@, 0),
        r <= len,
{
    let mut i: usize = 0;
    while i < len && is_whitespace(s.get_char(i))
        invariant
            i <= len,
            len == s@.len(),
            spec_skip_whitespace(s@, i as int) == spec_skip_whitespace(s@, 0),
        decreases len - i,
    {
        i += 1;
    }
    i
}

fn drop_whitespace(s: &str, len: usize) -> (r: usize)
    requires
        len == s@.len(),
    ensures
        r == spec_drop_whitespace(s@, len as int),
        r <= len,
{
    let mut i: usize = len;
    while i > 0 && is_whitespace(s.get_char(i - 1))
        invariant
            i <= len,
            len == s@.len(),
            spec_drop_whitespace(s@, i as int) == spec_drop_whitespace(s@, len as int),
        decreases i,
    {
        i -= 1;
    }
    i
}

/// Takes the white space off the start of a text.
pub fn trim_left(s: &str) -> (r: &str)
    ensures
        r@ == spec_trim_left(s@),
{
    let len = s.unicode_len();
    let start = skip_whitespace(s, len);
    s.substring_char(start, len)
}

/// Takes the white space off both ends of a text.
pub fn trim(s: &str) -> (r: &str)
    ensures
        r@ == spec_trim(s@),
{
    let len = s.unicode_len();
    let start = skip_whitespace(s, len);
    let end = drop_whitespace(s, len);
    if start >= end {
        let empty = s.substring_char(0, 0);
        assert(empty@ =~= Seq::<char>::empty());
        empty
    } else {
        s.substring_char(start, end)
    }
}

/// The text after its first `skip` characters, trimmed; `None` where the
/// text is shorter than that.
pub open spec fn spec_value(text: Seq<char>, skip: int) -> Option<Seq<char>> {
    if 0 <= skip <= text.len() {
        Some(spec_trim(text.subrange(skip, text.len() as int)))
    } else {
        None
    }
}

/// Takes `skip` characters off the start of a text and trims what is left.
pub fn value(s: &str, skip: usize) -> (r: Option<&str>)
    ensures
        match r {
            Some(v) => spec_value(s@, skip as int) == Some(v@),
            None => spec_value(s@, skip as int) is None,
        },
{
    let len = s.unicode_len();
    if skip <= len {
        Some(trim(s.substring_char(skip, len)))
    } else {
        None
    }
}

/// Why a text is no number.
#[derive(Debug, Clone, Copy, PartialEq, Eq, Structural)]
pub enum ParseIntError {
    /// The text is empty.
    Empty,
    /// A character is no digit, or a sign stands alone.
    InvalidDigit,
    /// The number is too large.
    PosOverflow,
    /// The number is too small.
    NegOverflow,
}

/// The value of a decimal digit.
pub open spec fn spec_digit(c: char) -> Option<int> {
    if '0' <= c <= '9' {
        Some(c as int - '0' as int)
    } else {
        None
    }
}

/// The number that the digits write, read from the left: the first
/// character that is no digit, or that takes the number past `limit`, is the error.
pub open spec fn spec_digits(text: Seq<char>, limit: int) -> Result<int, ParseIntError>
    decreases text.len(),
{
    if text.len() == 0 {
        Ok(0)
    } else {
        match spec_digits(text.drop_last(), limit) {
            Err(e) => Err(e),
            Ok(v) => match spec_digit(text.last()) {
                None => Err(ParseIntError::InvalidDigit),
                Some(d) => if 10 * v + d > limit {
                    Err(ParseIntError::PosOverflow)
                } else {
                    Ok(10 * v + d)
                },
            },
        }
    }
}

/// The number that a text writes in decimal digits, with `+` allowed before them.
pub open spec fn spec_parse_u16(text: Seq<char>) -> Result<u16, ParseIntError> {
    if text.len() == 0 {
        Err(ParseIntError::Empty)
    } else {
        let digits = if text[0] == '+' {
            text.subrange(1, text.len() as int)
        } else {
            text
        };
        if digits.len() == 0 {
            Err(ParseIntError::InvalidDigit)
        } else {
            match spec_digits(digits, 65535) {
                Ok(v) => Ok(v as u16),
                Err(e) => Err(e),
            }
        }
    }
}

/// The number that a text writes in decimal digits, with `+` or `-` allowed before them.
pub open spec fn spec_parse_i16(text: Seq<char>) -> Result<i16, ParseIntError> {
    if text.len() == 0 {
        Err(ParseIntError::Empty)
    } else if text[0] == '-' {
        if text.len() == 1 {
            Err(ParseIntError::InvalidDigit)
        } else {
            match spec_digits(text.subrange(1, text.len() as int), 32768) {
                Ok(v) => Ok((-v) as i16),
                Err(ParseIntError::PosOverflow) => Err(ParseIntError::NegOverflow),
                Err(e) => Err(e),
            }
        }
    } else {
        let digits = if text[0] == '+' {
            text.subrange(1, text.len() as int)
        } else {
            text
        };
        if digits.len() == 0 {
            Err(ParseIntError::InvalidDigit)
        } else {
            match spec_digits(digits, 32767) {
                Ok(v) => Ok(v as i16),
                Err(e) => Err(e),
            }
        }
    }
}

proof fn lemma_digits_error(text: Seq<char>, limit: int, k: int)
    requires
        0 <= k <= text.len(),
        spec_digits(text.take(k), limit) is Err,
    ensures
        spec_digits(text, limit) == spec_digits(text.take(k), limit),
    decreases text.len() - k,
{
    if k < text.len() {
        assert(text.take(k + 1).drop_last() =~= text.take(k));
        lemma_digits_error(text, limit, k + 1);
    } else {
        assert(text.take(k) =~= text);
    }
}

/// Reads the digits of `s` from the character `from` on.
fn digits(s: &str, from: usize, len: usize, limit: u32) -> (r: Result<u32, ParseIntError>)
    requires
        from <= len,
        len == s@.len(),
        limit <= 65535,
    ensures
        match r {
            Ok(v) => spec_digits(s@.subrange(from as int, len as int), limit as int) == Ok::<
                int,
                ParseIntError,
            >(v as int),
            Err(e) => spec_digits(s@.subrange(from as int, len as int), limit as int) == Err::<
                int,
                ParseIntError,
            >(e),
        },
{
    let ghost text = s@.subrange(from as int, len as int);
    let mut value: u32 = 0;
    let mut i: usize = from;
    assert(text.take(0) =~= Seq::<char>::empty());
    while i < len
        invariant
            from <= i <= len,
            len == s@.len(),
            limit <= 65535,
            text == s@.subrange(from as int, len as int),
            value <= limit,
            spec_digits(text.take(i - from), limit as int) == Ok::<int, ParseIntError>(value as int),
        decreases len - i,
    {
        let c = s.get_char(i);
        proof {
            assert(text.take(i - from + 1).drop_last() =~= text.take(i - from));
            assert(text.take(i - from + 1).last() == c);
        }
        if !('0' <= c && c <= '9') {
            proof {
                lemma_digits_error(text, limit as int, i - from + 1);
            }
            return Err(ParseIntError::InvalidDigit);
        }
        let d: u32 = c as u32 - '0' as u32;
        if 10 * value + d > limit {
            proof {
                lemma_digits_error(text, limit as int, i - from + 1);
            }
            return Err(ParseIntError::PosOverflow);
        }
        value = 10 * value + d;
        i += 1;
    }
    assert(text.take(i - from) =~= text);
    Ok(value)
}

/// Reads a number between 0 and 65535.
pub fn parse_u16(s: &str) -> (r: Result<u16, ParseIntError>)
    ensures
        r == spec_parse_u16(s@),
{
    let len = s.unicode_len();
    if len == 0 {
        return Err(ParseIntError::Empty);
    }
    let from: usize = if s.get_char(0) == '+' {
        1
    } else {
        0
    };
    if from == len {
        return Err(ParseIntError::InvalidDigit);
    }
    assert(s@.subrange(0, len as int) =~= s@);
    match digits(s, from, len, 65535) {
        Ok(v) => Ok(v as u16),
        Err(e) => Err(e),
    }
}

/// Reads a number between -32768 and 32767.
pub fn parse_i16(s: &str) -> (r: Result<i16, ParseIntError>)
    ensures
        r == spec_parse_i16(s@),
{
    let len = s.unicode_len();
    if len == 0 {
        return Err(ParseIntError::Empty);
    }
    let first = s.get_char(0);
    if first == '-' {
        if len == 1 {
            return Err(ParseIntError::InvalidDigit);
        }
        match digits(s, 1, len, 32768) {
            Ok(v) => Ok((-(v as i32)) as i16),
            Err(ParseIntError::PosOverflow) => Err(ParseIntError::NegOverflow),
            Err(e) => Err(e),
        }
    } else {
        let from: usize = if first == '+' {
            1
        } else {
            0
        };
        if from == len {
            return Err(ParseIntError::InvalidDigit);
        }
        assert(s@.subrange(0, len as int) =~= s@);
        match digits(s, from, len, 32767) {
            Ok(v) => Ok(v as i16),
            Err(e) => Err(e),
        }
    }
}

/// Atlas errors.
#[derive(Debug, Clone)]
pub enum AtlasError {
    /// Unexpected error, with a description.
    Unexpected(&'static str),
    /// Error when parsing a number.
    ParseIntError(ParseIntError),
    /// Error when parsing `true` or `false`.
    ParseBoolError,
}

/// An [`AtlasError`] with its description as text.
pub enum AtlasErrorView {
    Unexpected(Seq<char>),
    ParseIntError(ParseIntError),
    ParseBoolError,
}

impl View for AtlasError {
    type V = AtlasErrorView;

    open spec fn view(&self) -> AtlasErrorView {
        match *self {
            AtlasError::Unexpected(what) => AtlasErrorView::Unexpected(what@),
            AtlasError::ParseIntError(e) => AtlasErrorView::ParseIntError(e),
            AtlasError::ParseBoolError => AtlasErrorView::ParseBoolError,
        }
    }
}

impl AtlasError {
    /// What kind of error this is, in a few words.
    pub fn description(&self) -> (r: &'static str)
        ensures
            r@ == match *self {
                AtlasError::ParseIntError(_) => "error parsing integer"@,
                AtlasError::ParseBoolError => "error parsing boolean"@,
                AtlasError::Unexpected(_) => "unexpected error"@,
            },
    {
        match self {
            AtlasError::ParseIntError(_) => "error parsing integer",
            AtlasError::ParseBoolError => "error parsing boolean",
            AtlasError::Unexpected(_) => "unexpected error",
        }
    }
}

/// `true` or `false`, as a text writes it.
pub open spec fn spec_parse_bool(text: Seq<char>) -> Result<bool, AtlasErrorView> {
    if text == "true"@ {
        Ok(true)
    } else if text == "false"@ {
        Ok(false)
    } else {
        Err(AtlasErrorView::ParseBoolError)
    }
}

/// Reads `true` or `false`.
pub fn parse_bool(s: &str) -> (r: Result<bool, AtlasError>)
    ensures
        match r {
            Ok(b) => spec_parse_bool(s@) == Ok::<bool, AtlasErrorView>(b),
            Err(e) => spec_parse_bool(s@) == Err::<bool, AtlasErrorView>(e@),
        },
{
    if crate::text::str_eq(s, "true") {
        Ok(true)
    } else if crate::text::str_eq(s, "false") {
        Ok(false)
    } else {
        Err(AtlasError::ParseBoolError)
    }
}

/// Where the first comma of a text stands from `from` on; the length of
/// the text where there is none.
pub open spec fn spec_comma(text: Seq<char>, from: int) -> int
    decreases text.len() - from,
{
    if from < 0 || from >= text.len() || text[from] == ',' {
        from
    } else {
        spec_comma(text, from + 1)
    }
}

fn comma(s: &str, from: usize, len: usize) -> (r: usize)
    requires
        from <= len,
        len == s@.len(),
    ensures
        r == spec_comma(s@, from as int),
        from <= r <= len,
{
    let mut i: usize = from;
    while i < len && s.get_char(i) != ','
        invariant
            from <= i <= len,
            len == s@.len(),
            spec_comma(s@, i as int) == spec_comma(s@, from as int),
        decreases len - i,
    {
        i += 1;
    }
    i
}

/// The pair of numbers that a line holds after its first `skip` characters,
/// white space at its start apart: two numbers with a comma between them.
/// What follows a second comma is not read.
pub open spec fn spec_tuple(line: Seq<char>, skip: int) -> Result<(u16, u16), AtlasErrorView> {
    let text = spec_trim_left(line);
    if !(0 <= skip <= text.len()) {
        Err(AtlasErrorView::Unexpected("tuple"@))
    } else {
        let rest = text.subrange(skip, text.len() as int);
        let first = spec_comma(rest, 0);
        match spec_parse_u16(spec_trim(rest.subrange(0, first))) {
            Err(e) => Err(AtlasErrorView::ParseIntError(e)),
            Ok(a) => if first >= rest.len() {
                Err(AtlasErrorView::Unexpected("tuple"@))
            } else {
                let second = spec_comma(rest, first + 1);
                match spec_parse_u16(spec_trim(rest.subrange(first + 1, second))) {
                    Err(e) => Err(AtlasErrorView::ParseIntError(e)),
                    Ok(b) => Ok((a, b)),
                }
            },
        }
    }
}

fn tuple(line: &str, skip: usize) -> (r: Result<(u16, u16), AtlasError>)
    ensures
        match r {
            Ok(pair) => spec_tuple(line@, skip as int) == Ok::<(u16, u16), AtlasErrorView>(pair),
            Err(e) => spec_tuple(line@, skip as int) == Err::<(u16, u16), AtlasErrorView>(e@),
        },
{
    let text = trim_left(line);
    let len = text.unicode_len();
    if skip > len {
        return Err(AtlasError::Unexpected("tuple"));
    }
    let rest = text.substring_char(skip, len);
    let n = rest.unicode_len();
    let first = comma(rest, 0, n);
    let a = match parse_u16(trim(rest.substring_char(0, first))) {
        Ok(a) => a,
        Err(e) => {
            return Err(AtlasError::ParseIntError(e));
        },
    };
    if first >= n {
        return Err(AtlasError::Unexpected("tuple"));
    }
    let second = comma(rest, first + 1, n);
    let b = match parse_u16(trim(rest.substring_char(first + 1, second))) {
        Ok(b) => b,
        Err(e) => {
            return Err(AtlasError::ParseIntError(e));
        },
    };
    Ok((a, b))
}

/// A texture of an atlas: a rectangle of the image of the atlas.
#[derive(Debug)]
pub struct Texture {
    /// The name.
    pub name: String,
    /// Whether the texture lies turned by a quarter in the image.
    pub rotate: bool,
    /// The position in the image.
    pub xy: (u16, u16),
    /// The size in the image.
    pub size: (u16, u16),
    /// The size before white borders were taken off.
    pub orig: (u16, u16),
    /// How much was taken off at the left and at the bottom.
    pub offset: (u16, u16),
    /// The index among textures of one name, or -1.
    pub index: i16,
}

/// A [`Texture`] with its name as text.
pub struct TextureView {
    pub name: Seq<char>,
    pub rotate: bool,
    pub xy: (u16, u16),
    pub size: (u16, u16),
    pub orig: (u16, u16),
    pub offset: (u16, u16),
    pub index: i16,
}

impl View for Texture {
    type V = TextureView;

    open spec fn view(&self) -> TextureView {
        TextureView {
            name: self.name@,
            rotate: self.rotate,
            xy: self.xy,
            size: self.size,
            orig: self.orig,
            offset: self.offset,
            index: self.index,
        }
    }
}

/// The lines of a file, and how many of them have been read.
#[derive(Debug, Clone)]
pub struct Lines {
    /// The lines, without their line ends.
    pub lines: Vec<String>,
    /// The number of lines that have been read.
    pub next: usize,
}

/// Reads the next line; past the last line it fails and reads nothing.
pub fn next_line(lines: &mut Lines) -> (r: Result<String, AtlasError>)
    ensures
        final(lines).lines == old(lines).lines,
        match r {
            Ok(line) => old(lines).next < old(lines).lines@.len() && line == old(
                lines,
            ).lines@[old(lines).next as int] && final(lines).next == old(lines).next + 1,
            Err(e) => old(lines).next >= old(lines).lines@.len() && final(lines).next == old(
                lines,
            ).next && e@ == AtlasErrorView::Unexpected("EOF"@),
        },
{
    if lines.next < lines.lines.len() {
        let line = lines.lines[lines.next].clone();
        lines.next = lines.next + 1;
        Ok(line)
    } else {
        Err(AtlasError::Unexpected("EOF"))
    }
}

/// What a line that starts with a key of `skip` characters holds after the
/// key, white space apart; an error where the line is shorter than the key.
pub open spec fn spec_field(line: Seq<char>, skip: int) -> Result<Seq<char>, AtlasErrorView> {
    match spec_value(spec_trim_left(line), skip) {
        Some(v) => Ok(v),
        None => Err(AtlasErrorView::Unexpected("value"@)),
    }
}

fn field(line: &str, skip: usize) -> (r: Result<&str, AtlasError>)
    ensures
        match r {
            Ok(v) => spec_field(line@, skip as int) == Ok::<Seq<char>, AtlasErrorView>(v@),
            Err(e) => spec_field(line@, skip as int) == Err::<Seq<char>, AtlasErrorView>(e@),
        },
{
    match value(trim_left(line), skip) {
        Some(v) => Ok(v),
        None => Err(AtlasError::Unexpected("value")),
    }
}

/// The line that is read next, or the error of reading past the last line.
pub open spec fn spec_line(lines: Seq<String>, next: int) -> Result<Seq<char>, AtlasErrorView> {
    if 0 <= next < lines.len() {
        Ok(lines[next]@)
    } else {
        Err(AtlasErrorView::Unexpected("EOF"@))
    }
}

/// How many lines have been read after one more line was asked for.
pub open spec fn spec_after(lines: Seq<String>, next: int) -> int {
    if 0 <= next < lines.len() {
        next + 1
    } else {
        next
    }
}

/// The pair of numbers of the line that is read next.
pub open spec fn spec_parse_tuple(lines: Seq<String>, next: int, skip: int) -> Result<
    (u16, u16),
    AtlasErrorView,
> {
    match spec_line(lines, next) {
        Err(e) => Err(e),
        Ok(line) => spec_tuple(line, skip),
    }
}

/// Whether the texture is turned, from the line `rotate: ..` that is read next.
pub open spec fn spec_rotate(lines: Seq<String>, next: int) -> Result<bool, AtlasErrorView> {
    match spec_line(lines, next) {
        Err(e) => Err(e),
        Ok(line) => match spec_field(line, 7) {
            Err(e) => Err(e),
            Ok(v) => spec_parse_bool(v),
        },
    }
}

/// The index of the texture, from the line `index: ..` that is read next.
pub open spec fn spec_texture_index(lines: Seq<String>, next: int) -> Result<i16, AtlasErrorView> {
    match spec_line(lines, next) {
        Err(e) => Err(e),
        Ok(line) => match spec_field(line, 6) {
            Err(e) => Err(e),
            Ok(v) => match spec_parse_i16(v) {
                Ok(i) => Ok(i),
                Err(e) => Err(AtlasErrorView::ParseIntError(e)),
            },
        },
    }
}

/// The texture that the six lines from `next` on describe: `rotate`, `xy`,
/// `size`, `orig`, `offset` and `index`, in that order. The first line that
/// fails is the error.
pub open spec fn spec_read_texture(name: Seq<char>, lines: Seq<String>, next: int) -> Result<
    TextureView,
    AtlasErrorView,
> {
    match spec_rotate(lines, next) {
        Err(e) => Err(e),
        Ok(rotate) => match spec_parse_tuple(lines, next + 1, 3) {
            Err(e) => Err(e),
            Ok(xy) => match spec_parse_tuple(lines, next + 2, 5) {
                Err(e) => Err(e),
                Ok(size) => match spec_parse_tuple(lines, next + 3, 5) {
                    Err(e) => Err(e),
                    Ok(orig) => match spec_parse_tuple(lines, next + 4, 7) {
                        Err(e) => Err(e),
                        Ok(offset) => match spec_texture_index(lines, next + 5) {
                            Err(e) => Err(e),
                            Ok(index) => Ok(
                                TextureView { name, rotate, xy, size, orig, offset, index },
                            ),
                        },
                    },
                },
            },
        }
    }
}

/// How many lines have been read after a texture was read from `next` on:
/// the six lines of the texture, or the lines up to the one that failed.
pub open spec fn spec_read_ends(lines: Seq<String>, next: int) -> int {
    if spec_rotate(lines, next) is Err {
        spec_after(lines, next)
    } else if spec_parse_tuple(lines, next + 1, 3) is Err {
        spec_after(lines, next + 1)
    } else if spec_parse_tuple(lines, next + 2, 5) is Err {
        spec_after(lines, next + 2)
    } else if spec_parse_tuple(lines, next + 3, 5) is Err {
        spec_after(lines, next + 3)
    } else if spec_parse_tuple(lines, next + 4, 7) is Err {
        spec_after(lines, next + 4)
    } else {
        spec_after(lines, next + 5)
    }
}

/// An atlas: the head of an `.atlas` file and the lines that describe its textures.
#[derive(Debug, Clone)]
pub struct Atlas {
    /// The name of the image file.
    pub file: String,
    /// The pixel format of the image.
    pub format: String,
    /// How the image is filtered.
    pub filter: String,
    /// How the image repeats.
    pub repeat: String,
    /// The lines of the file.
    pub lines: Lines,
}

/// The index of the first line from `from` on that is not blank; the
/// number of lines where there is none.
pub open spec fn spec_skip_blank(lines: Seq<String>, from: int) -> int
    decreases lines.len() - from,
{
    if from < 0 || from >= lines.len() || spec_trim(lines[from]@).len() > 0 {
        from
    } else {
        spec_skip_blank(lines, from + 1)
    }
}

/// What stands after the key of a line of the head: the line without its
/// first seven characters, trimmed.
pub open spec fn spec_head(lines: Seq<String>, at: int) -> Result<Seq<char>, AtlasErrorView> {
    match spec_line(lines, at) {
        Err(e) => Err(e),
        Ok(line) => match spec_value(line, 7) {
            Some(v) => Ok(v),
            None => Err(AtlasErrorView::Unexpected("value"@)),
        },
    }
}

fn head(lines: &mut Lines) -> (r: Result<String, AtlasError>)
    ensures
        final(lines).lines == old(lines).lines,
        final(lines).next == spec_after(old(lines).lines@, old(lines).next as int),
        match r {
            Ok(v) => spec_head(old(lines).lines@, old(lines).next as int) == Ok::<
                Seq<char>,
                AtlasErrorView,
            >(v@),
            Err(e) => spec_head(old(lines).lines@, old(lines).next as int) == Err::<
                Seq<char>,
                AtlasErrorView,
            >(e@),
        },
{
    let line = match next_line(lines) {
        Ok(line) => line,
        Err(e) => {
            return Err(e);
        },
    };
    match value(line.as_str(), 7) {
        Some(v) => Ok(v.to_owned()),
        None => Err(AtlasError::Unexpected("value")),
    }
}

impl Atlas {
    /// Reads the head of an atlas from the lines of a file: the first line
    /// that is not blank names the image, and the three lines after it hold
    /// the format, the filter and the repeat of the image.
    pub fn from_lines(lines: Vec<String>) -> (r: Result<Atlas, AtlasError>)
        ensures
            ({
                let start = spec_skip_blank(lines@, 0);
                match r {
                    Ok(atlas) => start < lines@.len() && atlas.file == lines@[start]
                        && spec_head(lines@, start + 1) == Ok::<Seq<char>, AtlasErrorView>(
                        atlas.format@,
                    ) && spec_head(lines@, start + 2) == Ok::<Seq<char>, AtlasErrorView>(
                        atlas.filter@,
                    ) && spec_head(lines@, start + 3) == Ok::<Seq<char>, AtlasErrorView>(
                        atlas.repeat@,
                    ) && atlas.lines.lines == lines && atlas.lines.next == start + 4,
                    Err(e) => if start >= lines@.len() {
                        e@ == AtlasErrorView::Unexpected("cannot parse headers"@)
                    } else if spec_head(lines@, start + 1) is Err {
                        spec_head(lines@, start + 1) == Err::<Seq<char>, AtlasErrorView>(e@)
                    } else if spec_head(lines@, start + 2) is Err {
                        spec_head(lines@, start + 2) == Err::<Seq<char>, AtlasErrorView>(e@)
                    } else {
                        spec_head(lines@, start + 3) == Err::<Seq<char>, AtlasErrorView>(e@)
                    },
                }
            }),
    {
        let mut cursor = Lines { lines, next: 0 };
        let ghost all = cursor.lines@;
        loop
            invariant
                cursor.lines@ == all,
                cursor.lines == lines,
                cursor.next <= all.len(),
                spec_skip_blank(all, cursor.next as int) == spec_skip_blank(all, 0),
            decreases all.len() - cursor.next,
        {
            let line = match next_line(&mut cursor) {
                Ok(line) => line,
                Err(_) => {
                    return Err(AtlasError::Unexpected("cannot parse headers"));
                },
            };
            if trim(line.as_str()).unicode_len() > 0 {
                let file = line;
                let format = match head(&mut cursor) {
                    Ok(v) => v,
                    Err(e) => {
                        return Err(e);
                    },
                };
                let filter = match head(&mut cursor) {
                    Ok(v) => v,
                    Err(e) => {
                        return Err(e);
                    },
                };
                let repeat = match head(&mut cursor) {
                    Ok(v) => v,
                    Err(e) => {
                        return Err(e);
                    },
                };
                return Ok(Atlas { file, format, filter, repeat, lines: cursor });
            }
        }
    }

    /// Reads the six lines that describe a texture of that name.
    pub fn read_texture(&mut self, name: &str) -> (r: Result<Texture, AtlasError>)
        ensures
            final(self).file == old(self).file,
            final(self).format == old(self).format,
            final(self).filter == old(self).filter,
            final(self).repeat == old(self).repeat,
            final(self).lines.lines == old(self).lines.lines,
            final(self).lines.next == spec_read_ends(
                old(self).lines.lines@,
                old(self).lines.next as int,
            ),
            match r {
                Ok(texture) => spec_read_texture(
                    name@,
                    old(self).lines.lines@,
                    old(self).lines.next as int,
                ) == Ok::<TextureView, AtlasErrorView>(texture@),
                Err(e) => spec_read_texture(
                    name@,
                    old(self).lines.lines@,
                    old(self).lines.next as int,
                ) == Err::<TextureView, AtlasErrorView>(e@),
            },
    {
        let rotate = {
            let line = match next_line(&mut self.lines) {
                Ok(line) => line,
                Err(e) => {
                    return Err(e);
                },
            };
            let text = match field(line.as_str(), 7) {
                Ok(v) => v,
                Err(e) => {
                    return Err(e);
                },
            };
            match parse_bool(text) {
                Ok(b) => b,
                Err(e) => {
                    return Err(e);
                },
            }
        };
        let xy = match self.parse_tuple(3) {
            Ok(pair) => pair,
            Err(e) => {
                return Err(e);
            },
        };
        let size = match self.parse_tuple(5) {
            Ok(pair) => pair,
            Err(e) => {
                return Err(e);
            },
        };
        let orig = match self.parse_tuple(5) {
            Ok(pair) => pair,
            Err(e) => {
                return Err(e);
            },
        };
        let offset = match self.parse_tuple(7) {
            Ok(pair) => pair,
            Err(e) => {
                return Err(e);
            },
        };
        let index = {
            let line = match next_line(&mut self.lines) {
                Ok(line) => line,
                Err(e) => {
                    return Err(e);
                },
            };
            let text = match field(line.as_str(), 6) {
                Ok(v) => v,
                Err(e) => {
                    return Err(e);
                },
            };
            match parse_i16(text) {
                Ok(i) => i,
                Err(e) => {
                    return Err(AtlasError::ParseIntError(e));
                },
            }
        };
        Ok(Texture { name: name.to_owned(), rotate, xy, size, orig, offset, index })
    }

    /// Reads the next line as a pair of numbers after a key of `offset` characters.
    pub fn parse_tuple(&mut self, offset: usize) -> (r: Result<(u16, u16), AtlasError>)
        ensures
            final(self).file == old(self).file,
            final(self).format == old(self).format,
            final(self).filter == old(self).filter,
            final(self).repeat == old(self).repeat,
            final(self).lines.lines == old(self).lines.lines,
            final(self).lines.next == spec_after(
                old(self).lines.lines@,
                old(self).lines.next as int,
            ),
            match r {
                Ok(pair) => spec_parse_tuple(
                    old(self).lines.lines@,
                    old(self).lines.next as int,
                    offset as int,
                ) == Ok::<(u16, u16), AtlasErrorView>(pair),
                Err(e) => spec_parse_tuple(
                    old(self).lines.lines@,
                    old(self).lines.next as int,
                    offset as int,
                ) == Err::<(u16, u16), AtlasErrorView>(e@),
            },
    {
        let line = match next_line(&mut self.lines) {
            Ok(line) => line,
            Err(e) => {
                return Err(e);
            },
        };
        tuple(line.as_str(), offset)
    }

    /// Reads the next texture: the next line that is not blank is its name,
    /// and the six lines after it describe it. `None` where only blank lines
    /// are left.
    pub fn next(&mut self) -> (r: Option<Result<Texture, AtlasError>>)
        ensures
            final(self).file == old(self).file,
            final(self).format == old(self).format,
            final(self).filter == old(self).filter,
            final(self).repeat == old(self).repeat,
            final(self).lines.lines == old(self).lines.lines,
            ({
                let lines = old(self).lines.lines@;
                let at = spec_skip_blank(lines, old(self).lines.next as int);
                if old(self).lines.next >= lines.len() || at >= lines.len() {
                    r is None
                } else {
                    &&& final(self).lines.next == spec_read_ends(lines, at + 1)
                    &&& match r {
                        Some(Ok(texture)) => spec_read_texture(
                            spec_trim(lines[at]@),
                            lines,
                            at + 1,
                        ) == Ok::<TextureView, AtlasErrorView>(texture@),
                        Some(Err(e)) => spec_read_texture(spec_trim(lines[at]@), lines, at + 1)
                            == Err::<TextureView, AtlasErrorView>(e@),
                        None => false,
                    }
                }
            }),
    {
        let ghost lines = self.lines.lines@;
        let ghost start = self.lines.next;
        loop
            invariant
                self.file == old(self).file,
                self.format == old(self).format,
                self.filter == old(self).filter,
                self.repeat == old(self).repeat,
                self.lines.lines == old(self).lines.lines,
                lines == old(self).lines.lines@,
                start == old(self).lines.next,
                start <= self.lines.next,
                start < lines.len() ==> self.lines.next <= lines.len(),
                start < lines.len() ==> spec_skip_blank(lines, self.lines.next as int)
                    == spec_skip_blank(lines, start as int),
            decreases lines.len() - self.lines.next,
        {
            let line = match next_line(&mut self.lines) {
                Ok(line) => line,
                Err(_) => {
                    return None;
                },
            };
            let name = trim(line.as_str());
            if name.unicode_len() > 0 {
                return Some(self.read_texture(name));
            }
        }
    }
}

} // verus!
