//! The front-matter parser: metadata lines, a blank line, the `# Title`
//! line, and the offset where body content begins.

use vstd::prelude::*;

verus! {

use crate::parser::{
    all_digits, digits_value, first_occurrence, trim_back, DIGIT_ZERO, SPACE,
};
use vstd::utf8::{decode_utf8, valid_utf8};

/// The ASCII line-feed byte.
pub const NEWLINE: u8 = 10;
/// The ASCII hyphen byte, the separator of date fields.
pub const HYPHEN: u8 = 45;
/// The ASCII colon byte, the separator of metadata keys and values.
pub const COLON: u8 = 58;
/// The ASCII comma byte, the separator of list items.
pub const COMMA: u8 = 44;
/// The ASCII hash byte that opens the title line.
pub const HASH: u8 = 35;

/// The first position at or after `from` whose byte is not a space,
/// capped at the end of the buffer.
pub open spec fn ws_end(s: Seq<u8>, from: int) -> int
    decreases s.len() - from,
{
    if from < 0 || from >= s.len() || s[from] != SPACE {
        from
    } else {
        ws_end(s, from + 1)
    }
}

/// The first position at or after `from` whose byte is not a line feed,
/// capped at the end of the buffer.
pub open spec fn nl_end(s: Seq<u8>, from: int) -> int
    decreases s.len() - from,
{
    if from < 0 || from >= s.len() || s[from] != NEWLINE {
        from
    } else {
        nl_end(s, from + 1)
    }
}

/// The first position at or after `from` whose byte is not an ASCII
/// digit, capped at the end of the buffer.
pub open spec fn digit_end(s: Seq<u8>, from: int) -> int
    decreases s.len() - from,
{
    if from < 0 || from >= s.len() || !(48 <= s[from] <= 57) {
        from
    } else {
        digit_end(s, from + 1)
    }
}

/// Where the line that starts at `from` stops: the position of the next
/// line feed, or the end of the buffer if there is trailing text, or
/// nothing when `from` is already past the end.
pub open spec fn find_stop(s: Seq<u8>, from: int) -> Option<int> {
    if from >= s.len() {
        None
    } else {
        Some(from + first_occurrence(s.subrange(from, s.len() as int), NEWLINE))
    }
}

/// The number of line feeds strictly before position `c`, capped at the
/// end of the buffer.
pub open spec fn newlines_before(s: Seq<u8>, c: int) -> nat
    decreases c,
{
    if c <= 0 {
        0
    } else if c > s.len() {
        newlines_before(s, s.len() as int)
    } else if s[c - 1] == NEWLINE {
        newlines_before(s, c - 1) + 1
    } else {
        newlines_before(s, c - 1)
    }
}

/// The one-based line number of position `c`, capped at the largest
/// machine integer.
pub open spec fn line_of(s: Seq<u8>, c: int) -> nat {
    if newlines_before(s, c) + 1 > usize::MAX as nat {
        usize::MAX as nat
    } else {
        newlines_before(s, c) + 1
    }
}

/// What went wrong while parsing a document's metadata.
#[derive(Clone, Copy, Debug, PartialEq, Eq, Structural)]
pub enum ParseFault {
    /// A metadata line has no colon.
    MissingColon,
    /// A metadata key is not one of the known keys.
    InvalidKey,
    /// The value of `date` is not a valid `DD-MM-YYYY` date.
    InvalidDate,
    /// The value of `startpage` is neither `true` nor `false`.
    InvalidBool,
    /// The value of `mirror` is not UTF-8.
    InvalidMirror,
    /// A category list item is empty.
    EmptyListItem,
    /// A category list item is not UTF-8.
    InvalidListItem,
    /// The title line does not start with a hash.
    NoTitleHash,
    /// The title hash is not followed by a space.
    NoTitleSpace,
    /// The title line has no content.
    NoTitleContent,
    /// The title is not UTF-8.
    InvalidTitle,
    /// No categories were given.
    NoCategories,
    /// The document has no content and no mirror.
    NoContent,
    /// No date was given.
    NoDate,
}

/// A parsing error: the fault and the line it was found on.
#[derive(Clone, Copy, Debug, PartialEq, Eq, Structural)]
pub struct ParsingError {
    /// The one-based line the fault was found on.
    pub line: usize,
    /// Which fault was found.
    pub fault: ParseFault,
}

impl ParsingError {
    /// The one-based line the error was found on.
    pub fn line(&self) -> (r: usize)
        ensures
            r == self.line,
    {
        self.line
    }

    /// Which fault was found.
    pub fn fault(&self) -> (r: ParseFault)
        ensures
            r == self.fault,
    {
        self.fault
    }

    /// A human-readable description of the error: the line it was
    /// found on and the fault's text.
    pub fn message(&self) -> (r: String)
        ensures
            r@ == parsing_error_message(*self),
    {
        let text = match self.fault {
            ParseFault::MissingColon => "Invalid metadata line: Missing colon",
            ParseFault::InvalidKey => "Invalid metadata key",
            ParseFault::InvalidDate => "Invalid date format",
            ParseFault::InvalidBool => "Invalid boolean value",
            ParseFault::InvalidMirror => "Invalid mirror URL",
            ParseFault::EmptyListItem => "Empty author name",
            ParseFault::InvalidListItem => "List item contains invalid characters",
            ParseFault::NoTitleHash => "Expected title (h1) after metadata lines",
            ParseFault::NoTitleSpace => "Expected whitespace after hash",
            ParseFault::NoTitleContent => "No title content given",
            ParseFault::InvalidTitle => "Title contains invalid characters",
            ParseFault::NoCategories => "No categories were specified in post",
            ParseFault::NoContent => "No content in post",
            ParseFault::NoDate => "Post date was not set",
        };
        proof {
            assert(text@ == fault_text(self.fault));
        }
        let mut out: Vec<char> = Vec::new();
        crate::text::push_str(&mut out, "Parsing Error in line ");
        crate::text::push_number(&mut out, self.line as u64);
        crate::text::push_str(&mut out, ": ");
        crate::text::push_str(&mut out, text);
        proof {
            assert(out@ =~= parsing_error_message(*self));
        }
        crate::ext::chars_to_string(&out)
    }
}

/// The text that describes a parse fault.
pub open spec fn fault_text(f: ParseFault) -> Seq<char> {
    match f {
        ParseFault::MissingColon => "Invalid metadata line: Missing colon"@,
        ParseFault::InvalidKey => "Invalid metadata key"@,
        ParseFault::InvalidDate => "Invalid date format"@,
        ParseFault::InvalidBool => "Invalid boolean value"@,
        ParseFault::InvalidMirror => "Invalid mirror URL"@,
        ParseFault::EmptyListItem => "Empty author name"@,
        ParseFault::InvalidListItem => "List item contains invalid characters"@,
        ParseFault::NoTitleHash => "Expected title (h1) after metadata lines"@,
        ParseFault::NoTitleSpace => "Expected whitespace after hash"@,
        ParseFault::NoTitleContent => "No title content given"@,
        ParseFault::InvalidTitle => "Title contains invalid characters"@,
        ParseFault::NoCategories => "No categories were specified in post"@,
        ParseFault::NoContent => "No content in post"@,
        ParseFault::NoDate => "Post date was not set"@,
    }
}

/// The text a parsing error describes itself with.
pub open spec fn parsing_error_message(e: ParsingError) -> Seq<char> {
    "Parsing Error in line "@ + crate::text::dec_rep(e.line as nat) + ": "@ + fault_text(e.fault)
}

/// A validated document date.
#[derive(Clone, Copy, Debug, PartialEq, Eq, PartialOrd, Ord, Hash, Structural)]
pub struct PostDate {
    /// The year, 1970 to 9999 when parsed.
    pub year: u16,
    /// The month, 1 to 12 when parsed.
    pub month: u8,
    /// The day of the month, 1 to 31 when parsed.
    pub day: u8,
}

/// Whether `a` is strictly before `b`, comparing year, then month, then
/// day.
pub open spec fn date_before(a: PostDate, b: PostDate) -> bool {
    a.year < b.year || (a.year == b.year && (a.month < b.month || (a.month == b.month
        && a.day < b.day)))
}

/// The value of the digit run beginning at `from`, capped at one hundred
/// thousand so that the range checks below stay exact.
pub open spec fn capped_run_value(s: Seq<u8>, from: int, to: int) -> nat {
    let v = digits_value(s.subrange(from, to));
    if v > 100000 {
        100000
    } else {
        v
    }
}

/// The parse of a `DD-MM-YYYY` date: three runs of digits separated by
/// single hyphens, nothing after them, the day within 1..=31 and small
/// enough for its machine type, the month within 1..=12, the year within
/// 1970..=9999.
pub open spec fn date_spec(s: Seq<u8>) -> Option<PostDate> {
    let e1 = digit_end(s, 0);
    let day = capped_run_value(s, 0, e1);
    if e1 == 0 || day > 255 || day == 0 || day > 31 {
        None
    } else if e1 >= s.len() || s[e1] != HYPHEN {
        None
    } else {
        let e2 = digit_end(s, e1 + 1);
        let month = capped_run_value(s, e1 + 1, e2);
        if e2 == e1 + 1 || month > 255 || month == 0 || month > 12 {
            None
        } else if e2 >= s.len() || s[e2] != HYPHEN {
            None
        } else {
            let e3 = digit_end(s, e2 + 1);
            let year = capped_run_value(s, e2 + 1, e3);
            if e3 == e2 + 1 || year > 65535 || !(1970 <= year <= 9999) {
                None
            } else if e3 < s.len() {
                None
            } else {
                Some(
                    PostDate {
                        year: year as u16,
                        month: month as u8,
                        day: day as u8,
                    },
                )
            }
        }
    }
}

/// The position right after the run of ASCII digits starting at `from`.
fn digit_run_end(data: &[u8], from: usize) -> (r: usize)
    requires
        from <= data@.len(),
    ensures
        r == digit_end(data@, from as int),
        from <= r <= data@.len(),
{
    let mut cursor = from;

    while cursor < data.len() && 48 <= data[cursor] && data[cursor] <= 57
        invariant
            from <= cursor <= data@.len(),
            digit_end(data@, from as int) == digit_end(data@, cursor as int),
        decreases data.len() - cursor,
    {
        cursor += 1;
    }

    cursor
}

/// The value of the digit run in `data[from..to]`, capped at one hundred
/// thousand.
fn capped_number(data: &[u8], from: usize, to: usize) -> (r: u32)
    requires
        from <= to <= data@.len(),
        all_digits(data@.subrange(from as int, to as int)),
    ensures
        r == capped_run_value(data@, from as int, to as int),
{
    let ghost whole = data@.subrange(from as int, to as int);
    let mut v: u32 = 0;
    let mut i = from;

    proof {
        assert(data@.subrange(from as int, from as int) =~= Seq::<u8>::empty());
    }

    while i < to
        invariant
            from <= i <= to <= data@.len(),
            all_digits(whole),
            whole == data@.subrange(from as int, to as int),
            v == capped_run_value(data@, from as int, i as int),
            v <= 100000,
        decreases to - i,
    {
        proof {
            assert(data@.subrange(from as int, i + 1).drop_last() =~= data@.subrange(
                from as int,
                i as int,
            ));
            assert(whole[i - from] == data@[i as int]);
        }
        let d = (data[i] - DIGIT_ZERO) as u32;
        if v >= 100000 {
            v = 100000;
        } else {
            let t = v * 10 + d;
            if t > 100000 {
                v = 100000;
            } else {
                v = t;
            }
        }
        i += 1;
    }

    v
}

impl PostDate {
    /// Parses a `DD-MM-YYYY` date.
    pub fn parse(data: &[u8]) -> (r: Option<PostDate>)
        ensures
            r == date_spec(data@),
    {
        proof {
            lemma_digit_end_digits(data@, 0);
        }
        let e1 = digit_run_end(data, 0);
        let day = capped_number(data, 0, e1);

        if e1 == 0 || day > 255 || day == 0 || day > 31 {
            return None;
        }
        if e1 >= data.len() || data[e1] != HYPHEN {
            return None;
        }

        proof {
            lemma_digit_end_digits(data@, e1 + 1);
        }
        let e2 = digit_run_end(data, e1 + 1);
        let month = capped_number(data, e1 + 1, e2);

        if e2 == e1 + 1 || month > 255 || month == 0 || month > 12 {
            return None;
        }
        if e2 >= data.len() || data[e2] != HYPHEN {
            return None;
        }

        proof {
            lemma_digit_end_digits(data@, e2 + 1);
        }
        let e3 = digit_run_end(data, e2 + 1);
        let year = capped_number(data, e2 + 1, e3);

        if e3 == e2 + 1 || year > 65535 || year < 1970 || year > 9999 {
            return None;
        }
        if e3 < data.len() {
            return None;
        }

        Some(
            PostDate {
                year: year as u16,
                month: month as u8,
                day: day as u8,
            },
        )
    }

    /// The day of the month.
    pub fn day(&self) -> (r: u8)
        ensures
            r == self.day,
    {
        self.day
    }

    /// The year.
    pub fn year(&self) -> (r: u16)
        ensures
            r == self.year,
    {
        self.year
    }

    /// The month, one-based.
    pub fn month(&self) -> (r: u8)
        ensures
            r == self.month,
    {
        self.month
    }

    /// Whether `self` is strictly before `other`.
    pub fn before(&self, other: &PostDate) -> (r: bool)
        ensures
            r == date_before(*self, *other),
    {
        self.year < other.year || (self.year == other.year && (self.month < other.month || (
        self.month == other.month && self.day < other.day)))
    }

    /// The abbreviated name of the month.
    pub fn month_name(&self) -> (r: &'static str)
        requires
            1 <= self.month <= 12,
        ensures
            r@ == month_name_spec(self.month),
    {
        match self.month {
            1 => "jan.",
            2 => "feb.",
            3 => "mar.",
            4 => "apr.",
            5 => "may",
            6 => "jun.",
            7 => "jul.",
            8 => "aug.",
            9 => "sep.",
            10 => "oct.",
            11 => "nov.",
            _ => "dec.",
        }
    }
}

/// The abbreviated month name shown in rendered output.
pub open spec fn month_name_spec(month: u8) -> Seq<char> {
    if month == 1 {
        "jan."@
    } else if month == 2 {
        "feb."@
    } else if month == 3 {
        "mar."@
    } else if month == 4 {
        "apr."@
    } else if month == 5 {
        "may"@
    } else if month == 6 {
        "jun."@
    } else if month == 7 {
        "jul."@
    } else if month == 8 {
        "aug."@
    } else if month == 9 {
        "sep."@
    } else if month == 10 {
        "oct."@
    } else if month == 11 {
        "nov."@
    } else {
        "dec."@
    }
}

/// Every byte of a digit run is a digit.
proof fn lemma_digit_end_digits(s: Seq<u8>, from: int)
    requires
        0 <= from <= s.len(),
    ensures
        from <= digit_end(s, from) <= s.len(),
        all_digits(s.subrange(from, digit_end(s, from))),
    decreases s.len() - from,
{
    if from < s.len() && 48 <= s[from] <= 57 {
        lemma_digit_end_digits(s, from + 1);
        let e = digit_end(s, from);
        assert forall|i: int| 0 <= i < e - from implies 48 <= #[trigger] s.subrange(from, e)[i]
            <= 57 by {
            assert(s.subrange(from, e)[i] == s[from + i]);
            if i > 0 {
                assert(s.subrange(from + 1, e)[i - 1] == s[from + i]);
                assert(48 <= s.subrange(from + 1, e)[i - 1] <= 57);
            }
        }
    } else {
        assert(s.subrange(from, from) =~= Seq::<u8>::empty());
    }
}

/// The next cursor position after `c`, never moving past `len`.
pub open spec fn step_to(c: int, len: int) -> int {
    if c + 1 <= len {
        c + 1
    } else {
        len
    }
}

/// The bytes of the metadata key `date`.
pub open spec fn key_date() -> Seq<u8> {
    seq![100u8, 97u8, 116u8, 101u8]
}

/// The bytes of the metadata key `categories`.
pub open spec fn key_categories() -> Seq<u8> {
    seq![99u8, 97u8, 116u8, 101u8, 103u8, 111u8, 114u8, 105u8, 101u8, 115u8]
}

/// The bytes of the metadata key `mirror`.
pub open spec fn key_mirror() -> Seq<u8> {
    seq![109u8, 105u8, 114u8, 114u8, 111u8, 114u8]
}

/// The bytes of the metadata key `startpage`.
pub open spec fn key_startpage() -> Seq<u8> {
    seq![115u8, 116u8, 97u8, 114u8, 116u8, 112u8, 97u8, 103u8, 101u8]
}

/// The bytes of the word `true`.
pub open spec fn word_true() -> Seq<u8> {
    seq![116u8, 114u8, 117u8, 101u8]
}

/// The bytes of the word `false`.
pub open spec fn word_false() -> Seq<u8> {
    seq![102u8, 97u8, 108u8, 115u8, 101u8]
}

/// A parsing error at cursor position `c`.
pub open spec fn meta_err(s: Seq<u8>, c: int, fault: ParseFault) -> ParsingError {
    ParsingError { line: line_of(s, c) as usize, fault }
}

/// The first position in `[from, end)` whose byte is not a space, capped
/// at `end`.
pub open spec fn ws_end_before(s: Seq<u8>, from: int, end: int) -> int
    decreases end - from,
{
    if from < 0 || from >= end || from >= s.len() || s[from] != SPACE {
        from
    } else {
        ws_end_before(s, from + 1, end)
    }
}

/// Where a line stops lies between its start and the end of the buffer.
pub proof fn lemma_find_stop_bounds(s: Seq<u8>, from: int)
    requires
        0 <= from,
    ensures
        find_stop(s, from) matches Some(lb) ==> from <= lb <= s.len(),
{
    if from < s.len() {
        lemma_first_occurrence_bounds(s.subrange(from, s.len() as int), NEWLINE);
    }
}

/// The parser state while metadata lines are consumed.
pub ghost struct MetaState {
    /// The current position in the document.
    pub cursor: int,
    /// The date, once a `date` line was seen.
    pub date: Option<PostDate>,
    /// The mirror URL, once a `mirror` line was seen.
    pub mirror: Option<Seq<char>>,
    /// The category list of the last `categories` line.
    pub categories: Seq<Seq<char>>,
    /// The value of the last `startpage` line.
    pub startpage: bool,
}

/// The position where space-skipping stops never precedes its start
/// and never passes `end`.
pub proof fn lemma_ws_end_before_bounds(s: Seq<u8>, from: int, end: int)
    requires
        from <= end,
    ensures
        from <= ws_end_before(s, from, end) <= end,
    decreases end - from,
{
    if !(from < 0 || from >= end || from >= s.len() || s[from] != SPACE) {
        lemma_ws_end_before_bounds(s, from + 1, end);
    }
}

/// The first occurrence of a byte lies within the sequence, or right
/// past it when the byte does not occur.
pub proof fn lemma_first_occurrence_bounds(s: Seq<u8>, d: u8)
    ensures
        0 <= first_occurrence(s, d) <= s.len(),
    decreases s.len(),
{
    if s.len() > 0 && s[0] != d {
        lemma_first_occurrence_bounds(s.drop_first(), d);
    }
}

/// The parse of the comma-separated category list in `s[cursor..end)`:
/// items are trimmed of surrounding spaces, none may be empty, and each
/// must be UTF-8. Errors are reported at `err_cursor`.
pub open spec fn list_items(
    s: Seq<u8>,
    cursor: int,
    end: int,
    err_cursor: int,
    acc: Seq<Seq<char>>,
) -> Result<Seq<Seq<char>>, ParsingError>
    decreases end + 1 - cursor,
{
    if cursor >= end {
        Ok(acc)
    } else {
        let a = ws_end_before(s, cursor, end);
        let b = a + first_occurrence(s.subrange(a, end), COMMA);
        // The clamp changes nothing: the comma search stays within the
        // value, so `b` already lies between `cursor` and `end`.
        let next = if b < cursor {
            cursor + 1
        } else if b > end {
            end + 1
        } else {
            b + 1
        };
        let item = trim_back(s.subrange(a, b));
        if item.len() == 0 {
            Err(meta_err(s, err_cursor, ParseFault::EmptyListItem))
        } else if !valid_utf8(item) {
            Err(meta_err(s, err_cursor, ParseFault::InvalidListItem))
        } else {
            list_items(s, next, end, err_cursor, acc.push(decode_utf8(item)))
        }
    }
}

/// The parse of one metadata line occupying `s[st.cursor..end)`: leading
/// spaces, a key up to a colon, spaces, and the key's value.
pub open spec fn line_spec(s: Seq<u8>, st: MetaState, end: int) -> Result<
    MetaState,
    ParsingError,
> {
    let c1 = ws_end(s, st.cursor);
    let colon = c1 + first_occurrence(s.subrange(c1, end), COLON);
    if colon == end {
        Err(meta_err(s, c1, ParseFault::MissingColon))
    } else {
        let c2 = ws_end(s, colon + 1);
        let key = s.subrange(c1, colon);
        if key == key_date() {
            match date_spec(s.subrange(c2, end)) {
                Some(d) => Ok(MetaState { cursor: c2, date: Some(d), ..st }),
                None => Err(meta_err(s, c2, ParseFault::InvalidDate)),
            }
        } else if key == key_categories() {
            match list_items(s, c2, end, c2, Seq::empty()) {
                Ok(items) => Ok(MetaState { cursor: c2, categories: items, ..st }),
                Err(e) => Err(e),
            }
        } else if key == key_mirror() {
            let url = s.subrange(c2, end);
            if valid_utf8(url) {
                Ok(MetaState { cursor: c2, mirror: Some(decode_utf8(url)), ..st })
            } else {
                Err(meta_err(s, c2, ParseFault::InvalidMirror))
            }
        } else if key == key_startpage() {
            let v = s.subrange(c2, end);
            if v == word_false() {
                Ok(MetaState { cursor: c2, startpage: false, ..st })
            } else if v == word_true() {
                Ok(MetaState { cursor: c2, startpage: true, ..st })
            } else {
                Err(meta_err(s, c2, ParseFault::InvalidBool))
            }
        } else {
            Err(meta_err(s, c2, ParseFault::InvalidKey))
        }
    }
}

/// The parse of the metadata lines: one line after another until an
/// empty line or the end of the document.
pub open spec fn lines_spec(s: Seq<u8>, st: MetaState) -> Result<MetaState, ParsingError>
    decreases s.len() + 1 - st.cursor,
{
    match find_stop(s, st.cursor) {
        None => Ok(st),
        Some(lb) => {
            if lb == st.cursor {
                Ok(st)
            } else if lb < st.cursor {
                // Unreachable: the stop of a line never precedes its start.
                Ok(st)
            } else {
                match line_spec(s, st, lb) {
                    Err(e) => Err(e),
                    Ok(st2) => lines_spec(
                        s,
                        MetaState { cursor: step_to(lb, s.len() as int), ..st2 },
                    ),
                }
            }
        },
    }
}

/// The parse of the `# Title` line at cursor `c`: a hash, a space, more
/// optional spaces, and the title text up to the end of the line.
pub open spec fn title_spec(s: Seq<u8>, c: int) -> Result<(Seq<char>, int), ParsingError> {
    if !(0 <= c < s.len() && s[c] == HASH) {
        Err(meta_err(s, c, ParseFault::NoTitleHash))
    } else if !(c + 1 < s.len() && s[c + 1] == SPACE) {
        Err(meta_err(s, c + 1, ParseFault::NoTitleSpace))
    } else {
        let c3 = ws_end(s, c + 1);
        match find_stop(s, c3) {
            None => Err(meta_err(s, c3, ParseFault::NoTitleContent)),
            Some(end) => {
                let t = s.subrange(c3, end);
                if valid_utf8(t) {
                    Ok((decode_utf8(t), step_to(end, s.len() as int)))
                } else {
                    Err(meta_err(s, c3, ParseFault::InvalidTitle))
                }
            },
        }
    }
}

/// A successfully parsed document head.
pub ghost struct MetaOk {
    /// The title text.
    pub title: Seq<char>,
    /// The document date.
    pub date: PostDate,
    /// The non-empty category list.
    pub categories: Seq<Seq<char>>,
    /// The mirror URL, if the document is headless.
    pub mirror: Option<Seq<char>>,
    /// Whether the document was marked for the start page.
    pub startpage: bool,
    /// The offset at which body content begins.
    pub start_content: int,
}

/// The parse of a whole document head: metadata lines, an empty line,
/// the title line, then line feeds up to the content. A date and a
/// non-empty category list are required, and content is required unless
/// a mirror URL was given.
pub open spec fn metadata_spec(s: Seq<u8>) -> Result<MetaOk, ParsingError> {
    let st0 = MetaState {
        cursor: 0,
        date: None,
        mirror: None,
        categories: Seq::empty(),
        startpage: false,
    };
    match lines_spec(s, st0) {
        Err(e) => Err(e),
        Ok(st) => match title_spec(s, step_to(st.cursor, s.len() as int)) {
            Err(e) => Err(e),
            Ok((title, c)) => {
                let c4 = nl_end(s, c);
                if st.categories.len() == 0 {
                    Err(meta_err(s, c4, ParseFault::NoCategories))
                } else if st.mirror is None && c4 >= s.len() {
                    Err(meta_err(s, c4, ParseFault::NoContent))
                } else if st.date is None {
                    Err(meta_err(s, c4, ParseFault::NoDate))
                } else {
                    Ok(
                        MetaOk {
                            title,
                            date: st.date.unwrap(),
                            categories: st.categories,
                            mirror: st.mirror,
                            startpage: st.startpage,
                            start_content: c4,
                        },
                    )
                }
            },
        },
    }
}

/// The metadata of one document.
#[derive(Debug)]
pub struct PostMetadata {
    /// The title text.
    pub title: String,
    /// The document date.
    pub date: PostDate,
    /// The non-empty category list.
    pub categories: Vec<String>,
    /// The mirror URL, if the document is headless.
    pub mirror: Option<String>,
    /// Whether the document was marked for the start page.
    pub startpage: bool,
    /// The offset at which body content begins.
    pub start_content: usize,
}

/// The mathematical value of a `PostMetadata`.
pub open spec fn meta_view(m: PostMetadata) -> MetaOk {
    MetaOk {
        title: m.title@,
        date: m.date,
        categories: m.categories@.map_values(|c: String| c@),
        mirror: match m.mirror {
            Some(u) => Some(u@),
            None => None,
        },
        startpage: m.startpage,
        start_content: m.start_content as int,
    }
}

impl PostMetadata {
    /// The title text.
    pub fn title(&self) -> (r: &str)
        ensures
            r@ == self.title@,
    {
        self.title.as_str()
    }

    /// The document date.
    pub fn date(&self) -> (r: &PostDate)
        ensures
            r == self.date,
    {
        &self.date
    }

    /// The category list.
    pub fn categories(&self) -> (r: &Vec<String>)
        ensures
            r == self.categories,
    {
        &self.categories
    }

    /// The offset at which body content begins.
    pub fn start_content(&self) -> (r: usize)
        ensures
            r == self.start_content,
    {
        self.start_content
    }

    /// The mirror URL, if the document is headless.
    pub fn mirror(&self) -> (r: Option<&String>)
        ensures
            match r {
                Some(u) => self.mirror matches Some(m) && u@ == m@,
                None => self.mirror is None,
            },
    {
        self.mirror.as_ref()
    }

    /// Whether the document was marked for the start page.
    pub fn startpage(&self) -> (r: bool)
        ensures
            r == self.startpage,
    {
        self.startpage
    }
}

impl Clone for PostMetadata {
    /// An equal copy of the metadata.
    fn clone(&self) -> (r: Self)
        ensures
            meta_view(r) == meta_view(*self),
    {
        let mut categories: Vec<String> = Vec::new();
        let mut i: usize = 0;

        while i < self.categories.len()
            invariant
                i <= self.categories.len(),
                categories@.len() == i,
                forall|j: int| 0 <= j < i ==> #[trigger] categories@[j]@ == self.categories@[j]@,
            decreases self.categories.len() - i,
        {
            categories.push(self.categories[i].clone());
            i += 1;
        }

        proof {
            assert(categories@.map_values(|c: String| c@) =~= self.categories@.map_values(
                |c: String| c@,
            ));
        }

        let r = PostMetadata {
            title: self.title.clone(),
            date: self.date,
            categories,
            mirror: match &self.mirror {
                Some(u) => Some(u.clone()),
                None => None,
            },
            startpage: self.startpage,
            start_content: self.start_content,
        };
        proof {
            assert(meta_view(r) == meta_view(*self));
        }
        r
    }
}

/// The option's characters, for contracts over optional strings.
pub open spec fn opt_str_view(m: Option<String>) -> Option<Seq<char>> {
    match m {
        Some(u) => Some(u@),
        None => None,
    }
}

/// The character sequences of a vector of strings.
pub open spec fn cats_view(c: Vec<String>) -> Seq<Seq<char>> {
    c@.map_values(|x: String| x@)
}

spec fn mk_state(
    cursor: int,
    date: Option<PostDate>,
    mirror: Option<String>,
    categories: Vec<String>,
    startpage: bool,
) -> MetaState {
    MetaState {
        cursor,
        date,
        mirror: opt_str_view(mirror),
        categories: cats_view(categories),
        startpage,
    }
}

/// Space-skipping stays within a line: it cannot pass a position that
/// holds something other than a space.
proof fn lemma_ws_end_le(s: Seq<u8>, from: int, end: int)
    requires
        0 <= from <= end <= s.len(),
        end == s.len() || s[end] != SPACE,
    ensures
        ws_end(s, from) <= end,
    decreases end - from,
{
    if from < s.len() && s[from] == SPACE {
        if from == end {
        } else {
            lemma_ws_end_le(s, from + 1, end);
        }
    }
}

/// The position right after the run of spaces starting at `from`.
fn skip_ws(data: &[u8], from: usize) -> (r: usize)
    requires
        from <= data@.len(),
    ensures
        r == ws_end(data@, from as int),
        from <= r <= data@.len(),
{
    let mut cursor = from;

    while cursor < data.len() && data[cursor] == SPACE
        invariant
            from <= cursor <= data@.len(),
            ws_end(data@, from as int) == ws_end(data@, cursor as int),
        decreases data.len() - cursor,
    {
        cursor += 1;
    }

    cursor
}

/// The position right after the run of line feeds starting at `from`.
fn skip_nl(data: &[u8], from: usize) -> (r: usize)
    requires
        from <= data@.len(),
    ensures
        r == nl_end(data@, from as int),
        from <= r <= data@.len(),
{
    let mut cursor = from;

    while cursor < data.len() && data[cursor] == NEWLINE
        invariant
            from <= cursor <= data@.len(),
            nl_end(data@, from as int) == nl_end(data@, cursor as int),
        decreases data.len() - cursor,
    {
        cursor += 1;
    }

    cursor
}

/// The position right after the run of spaces starting at `from`, never
/// passing `end`.
fn skip_ws_bounded(data: &[u8], from: usize, end: usize) -> (r: usize)
    requires
        from <= end <= data@.len(),
    ensures
        r == ws_end_before(data@, from as int, end as int),
        from <= r <= end,
{
    let mut cursor = from;

    while cursor < end && data[cursor] == SPACE
        invariant
            from <= cursor <= end <= data@.len(),
            ws_end_before(data@, from as int, end as int) == ws_end_before(
                data@,
                cursor as int,
                end as int,
            ),
        decreases end - cursor,
    {
        cursor += 1;
    }

    cursor
}

/// The position of the first `b` in `data[from..end)`, or `end` if it
/// does not occur there.
fn find_byte_before(data: &[u8], from: usize, end: usize, b: u8) -> (r: usize)
    requires
        from <= end <= data@.len(),
    ensures
        r == from + first_occurrence(data@.subrange(from as int, end as int), b),
        from <= r <= end,
        r < end ==> data@[r as int] == b,
        forall|j: int| from <= j < r ==> data@[j] != b,
{
    let ghost sub = data@.subrange(from as int, end as int);
    let mut cursor = from;

    while cursor < end && data[cursor] != b
        invariant
            from <= cursor <= end <= data@.len(),
            forall|j: int| from <= j < cursor ==> data@[j] != b,
        decreases end - cursor,
    {
        cursor += 1;
    }

    proof {
        assert(forall|j: int| 0 <= j < sub.len() ==> sub[j] == data@[from + j]);
        crate::parser::lemma_first_occurrence_at(sub, b, cursor - from);
    }
    cursor
}

/// Where the line that starts at `from` stops.
fn find_stop_at(data: &[u8], from: usize) -> (r: Option<usize>)
    ensures
        match r {
            None => find_stop(data@, from as int) is None,
            Some(lb) => find_stop(data@, from as int) == Some(lb as int) && from <= lb
                <= data@.len() && (lb == data@.len() || data@[lb as int] == NEWLINE),
        },
{
    if from >= data.len() {
        return None;
    }
    Some(find_byte_before(data, from, data.len(), NEWLINE))
}

/// The one-based line number of position `c`, capped at the largest
/// machine integer.
fn line_number(data: &[u8], c: usize) -> (r: usize)
    ensures
        r == line_of(data@, c as int),
{
    let stop = if c < data.len() {
        c
    } else {
        data.len()
    };
    let mut count: usize = 0;
    let mut i: usize = 0;

    proof {
        if c as int > data@.len() {
            lemma_newlines_cap(data@, c as int);
        }
    }

    while i < stop
        invariant
            i <= stop <= data@.len(),
            count == newlines_before(data@, i as int),
            count <= i,
        decreases stop - i,
    {
        if data[i] == NEWLINE {
            count += 1;
        }
        i += 1;
    }

    if count == usize::MAX {
        count
    } else {
        count + 1
    }
}

/// Past the end of the buffer no further line feeds are counted.
proof fn lemma_newlines_cap(s: Seq<u8>, c: int)
    requires
        c >= s.len(),
    ensures
        newlines_before(s, c) == newlines_before(s, s.len() as int),
    decreases c - s.len(),
{
    if c > s.len() {
        if c <= 0 {
        } else {
            lemma_newlines_cap(s, c - 1);
        }
    }
}

/// The bytes of the metadata key `date`, as a value.
fn key_date_bytes() -> (r: Vec<u8>)
    ensures
        r@ == key_date(),
{
    let mut v: Vec<u8> = Vec::new();
    v.push(100);
    v.push(97);
    v.push(116);
    v.push(101);
    proof {
        assert(v@ =~= key_date());
    }
    v
}

/// The bytes of the metadata key `categories`, as a value.
fn key_categories_bytes() -> (r: Vec<u8>)
    ensures
        r@ == key_categories(),
{
    let mut v: Vec<u8> = Vec::new();
    v.push(99);
    v.push(97);
    v.push(116);
    v.push(101);
    v.push(103);
    v.push(111);
    v.push(114);
    v.push(105);
    v.push(101);
    v.push(115);
    proof {
        assert(v@ =~= key_categories());
    }
    v
}

/// The bytes of the metadata key `mirror`, as a value.
fn key_mirror_bytes() -> (r: Vec<u8>)
    ensures
        r@ == key_mirror(),
{
    let mut v: Vec<u8> = Vec::new();
    v.push(109);
    v.push(105);
    v.push(114);
    v.push(114);
    v.push(111);
    v.push(114);
    proof {
        assert(v@ =~= key_mirror());
    }
    v
}

/// The bytes of the metadata key `startpage`, as a value.
fn key_startpage_bytes() -> (r: Vec<u8>)
    ensures
        r@ == key_startpage(),
{
    let mut v: Vec<u8> = Vec::new();
    v.push(115);
    v.push(116);
    v.push(97);
    v.push(114);
    v.push(116);
    v.push(112);
    v.push(97);
    v.push(103);
    v.push(101);
    proof {
        assert(v@ =~= key_startpage());
    }
    v
}

/// The bytes of the word `true`, as a value.
fn word_true_bytes() -> (r: Vec<u8>)
    ensures
        r@ == word_true(),
{
    let mut v: Vec<u8> = Vec::new();
    v.push(116);
    v.push(114);
    v.push(117);
    v.push(101);
    proof {
        assert(v@ =~= word_true());
    }
    v
}

/// The bytes of the word `false`, as a value.
fn word_false_bytes() -> (r: Vec<u8>)
    ensures
        r@ == word_false(),
{
    let mut v: Vec<u8> = Vec::new();
    v.push(102);
    v.push(97);
    v.push(108);
    v.push(115);
    v.push(101);
    proof {
        assert(v@ =~= word_false());
    }
    v
}

/// Parses the comma-separated category list in `data[cursor..end)`.
fn parse_list(data: &[u8], start: usize, end: usize) -> (r: Result<Vec<String>, ParsingError>)
    requires
        start <= end <= data@.len(),
    ensures
        match list_items(data@, start as int, end as int, start as int, Seq::empty()) {
            Ok(items) => r matches Ok(v) && cats_view(v) == items,
            Err(e) => r matches Err(pe) && pe == e,
        },
{
    let ghost s = data@;
    let mut ret: Vec<String> = Vec::new();
    let mut cursor = start;

    proof {
        assert(cats_view(ret) =~= Seq::<Seq<char>>::empty());
    }

    while cursor < end
        invariant
            start <= end <= s.len(),
            cursor <= end,
            s == data@,
            list_items(s, start as int, end as int, start as int, Seq::empty()) == list_items(
                s,
                cursor as int,
                end as int,
                start as int,
                cats_view(ret),
            ),
        decreases end - cursor,
    {
        let ghost old_cursor = cursor as int;
        let ghost old_acc = cats_view(ret);

        let a = skip_ws_bounded(data, cursor, end);
        let b = find_byte_before(data, a, end, COMMA);

        let mut e = b;
        while e > a && data[e - 1] == SPACE
            invariant
                a <= e <= b <= data@.len(),
                forall|i: int| e <= i < b ==> data@[i] == SPACE,
            decreases e,
        {
            e -= 1;
        }

        proof {
            let seg = s.subrange(a as int, b as int);
            assert(forall|i: int| 0 <= i < seg.len() ==> seg[i] == s[a + i]);
            crate::parser::lemma_trim_back_step(seg, e - a);
            assert(seg.subrange(0, e - a) =~= s.subrange(a as int, e as int));
        }

        if e == a {
            return Err(
                ParsingError {
                    line: line_number(data, start),
                    fault: ParseFault::EmptyListItem,
                },
            );
        }

        let item = vstd::slice::slice_subrange(data, a, e);

        match core::str::from_utf8(item) {
            Ok(text) => {
                ret.push(text.to_owned());
            },
            Err(_) => {
                return Err(
                    ParsingError {
                        line: line_number(data, start),
                        fault: ParseFault::InvalidListItem,
                    },
                );
            },
        }

        if b >= end {
            cursor = end;
        } else {
            cursor = b + 1;
        }

        proof {
            let chars = decode_utf8(s.subrange(a as int, e as int));
            assert(cats_view(ret) =~= old_acc.push(chars));
            assert(list_items(s, old_cursor, end as int, start as int, old_acc) == list_items(
                s,
                b + 1,
                end as int,
                start as int,
                old_acc.push(chars),
            ));
            if b == end {
                assert(list_items(s, b + 1, end as int, start as int, old_acc.push(chars))
                    == list_items(s, end as int, end as int, start as int, old_acc.push(chars)));
            }
        }
    }

    Ok(ret)
}

/// Parses one metadata line occupying `data[cursor..end)` and folds its
/// value into the parser state.
#[allow(clippy::too_many_arguments)]
fn parse_line(
    data: &[u8],
    cursor: usize,
    end: usize,
    date: &mut Option<PostDate>,
    mirror: &mut Option<String>,
    categories: &mut Vec<String>,
    startpage: &mut bool,
) -> (r: Result<(), ParsingError>)
    requires
        cursor <= end <= data@.len(),
        end == data@.len() || data@[end as int] == NEWLINE,
    ensures
        ({
            let st0 = mk_state(
                cursor as int,
                *old(date),
                *old(mirror),
                *old(categories),
                *old(startpage),
            );
            match line_spec(data@, st0, end as int) {
                Ok(st2) => r is Ok && *final(date) == st2.date && opt_str_view(*final(mirror))
                    == st2.mirror && cats_view(*final(categories)) == st2.categories
                    && *final(startpage) == st2.startpage,
                Err(e) => r matches Err(pe) && pe == e,
            }
        }),
{
    let ghost s = data@;
    proof {
        lemma_ws_end_le(s, cursor as int, end as int);
    }
    let c1 = skip_ws(data, cursor);
    let colon = find_byte_before(data, c1, end, COLON);

    if colon == end {
        return Err(
            ParsingError { line: line_number(data, c1), fault: ParseFault::MissingColon },
        );
    }

    proof {
        lemma_ws_end_le(s, colon + 1, end as int);
    }
    let c2 = skip_ws(data, colon + 1);
    let key = vstd::slice::slice_subrange(data, c1, colon);
    let value = vstd::slice::slice_subrange(data, c2, end);

    if crate::parser::bytes_equal(key, key_date_bytes().as_slice()) {
        match PostDate::parse(value) {
            Some(d) => {
                *date = Some(d);
                Ok(())
            },
            None => Err(
                ParsingError { line: line_number(data, c2), fault: ParseFault::InvalidDate },
            ),
        }
    } else if crate::parser::bytes_equal(key, key_categories_bytes().as_slice()) {
        match parse_list(data, c2, end) {
            Ok(items) => {
                *categories = items;
                Ok(())
            },
            Err(e) => Err(e),
        }
    } else if crate::parser::bytes_equal(key, key_mirror_bytes().as_slice()) {
        match core::str::from_utf8(value) {
            Ok(url) => {
                *mirror = Some(url.to_owned());
                Ok(())
            },
            Err(_) => Err(
                ParsingError { line: line_number(data, c2), fault: ParseFault::InvalidMirror },
            ),
        }
    } else if crate::parser::bytes_equal(key, key_startpage_bytes().as_slice()) {
        if crate::parser::bytes_equal(value, word_false_bytes().as_slice()) {
            *startpage = false;
            Ok(())
        } else if crate::parser::bytes_equal(value, word_true_bytes().as_slice()) {
            *startpage = true;
            Ok(())
        } else {
            Err(ParsingError { line: line_number(data, c2), fault: ParseFault::InvalidBool })
        }
    } else {
        Err(ParsingError { line: line_number(data, c2), fault: ParseFault::InvalidKey })
    }
}

/// Parses the `# Title` line at cursor `c`.
fn parse_title(data: &[u8], c: usize) -> (r: Result<(String, usize), ParsingError>)
    requires
        c <= data@.len(),
    ensures
        match title_spec(data@, c as int) {
            Ok((title, c2)) => r matches Ok(p) && p.0@ == title && p.1 == c2 && p.1
                <= data@.len(),
            Err(e) => r matches Err(pe) && pe == e,
        },
{
    if c >= data.len() || data[c] != HASH {
        return Err(
            ParsingError { line: line_number(data, c), fault: ParseFault::NoTitleHash },
        );
    }
    if c + 1 >= data.len() || data[c + 1] != SPACE {
        return Err(
            ParsingError { line: line_number(data, c + 1), fault: ParseFault::NoTitleSpace },
        );
    }

    let c3 = skip_ws(data, c + 1);

    match find_stop_at(data, c3) {
        None => Err(
            ParsingError { line: line_number(data, c3), fault: ParseFault::NoTitleContent },
        ),
        Some(end) => {
            let title = vstd::slice::slice_subrange(data, c3, end);
            match core::str::from_utf8(title) {
                Ok(text) => {
                    let next = if end < data.len() {
                        end + 1
                    } else {
                        data.len()
                    };
                    Ok((text.to_owned(), next))
                },
                Err(_) => Err(
                    ParsingError {
                        line: line_number(data, c3),
                        fault: ParseFault::InvalidTitle,
                    },
                ),
            }
        },
    }
}

/// The front-matter parser.
pub struct PostMetadataParser;

impl PostMetadataParser {
    /// Parses a whole document head: metadata lines, an empty line, the
    /// `# Title` line, and line feeds up to the body content.
    pub fn parse(data: &[u8]) -> (r: Result<PostMetadata, ParsingError>)
        ensures
            match metadata_spec(data@) {
                Ok(m) => r matches Ok(pm) && meta_view(pm) == m,
                Err(e) => r matches Err(pe) && pe == e,
            },
    {
        let ghost s = data@;
        let ghost st0 = MetaState {
            cursor: 0,
            date: None,
            mirror: None,
            categories: Seq::empty(),
            startpage: false,
        };

        let mut cursor: usize = 0;
        let mut date: Option<PostDate> = None;
        let mut mirror: Option<String> = None;
        let mut categories: Vec<String> = Vec::new();
        let mut startpage = false;

        proof {
            assert(cats_view(categories) =~= Seq::<Seq<char>>::empty());
            assert(mk_state(0, date, mirror, categories, startpage) == st0);
        }

        loop
            invariant
                s == data@,
                st0 == (MetaState {
                    cursor: 0,
                    date: None,
                    mirror: None,
                    categories: Seq::empty(),
                    startpage: false,
                }),
                cursor <= s.len(),
                lines_spec(s, st0) == lines_spec(
                    s,
                    mk_state(cursor as int, date, mirror, categories, startpage),
                ),
            ensures
                lines_spec(s, st0) == Ok::<MetaState, ParsingError>(
                    mk_state(cursor as int, date, mirror, categories, startpage),
                ),
                cursor <= s.len(),
            decreases s.len() - cursor,
        {
            match find_stop_at(data, cursor) {
                None => {
                    break;
                },
                Some(lb) => {
                    if lb == cursor {
                        break;
                    }
                    let ghost pre = mk_state(cursor as int, date, mirror, categories, startpage);
                    match parse_line(
                        data,
                        cursor,
                        lb,
                        &mut date,
                        &mut mirror,
                        &mut categories,
                        &mut startpage,
                    ) {
                        Ok(()) => {},
                        Err(e) => {
                            proof {
                                assert(lines_spec(s, pre) == Err::<MetaState, ParsingError>(e));
                                assert(lines_spec(s, st0) == Err::<MetaState, ParsingError>(e));
                                assert(metadata_spec(s) == Err::<MetaOk, ParsingError>(e));
                            }
                            return Err(e);
                        },
                    }
                    cursor = if lb < data.len() {
                        lb + 1
                    } else {
                        data.len()
                    };
                    proof {
                        let st2 = line_spec(s, pre, lb as int).unwrap();
                        let stepped = MetaState { cursor: step_to(lb as int, s.len() as int), ..st2 };
                        assert(mk_state(cursor as int, date, mirror, categories, startpage)
                            == stepped);
                        assert(lines_spec(s, pre) == lines_spec(s, stepped));
                    }
                },
            }
        }

        let c = if cursor < data.len() {
            cursor + 1
        } else {
            data.len()
        };

        let (title, c2) = match parse_title(data, c) {
            Ok(p) => p,
            Err(e) => {
                return Err(e);
            },
        };

        let c4 = skip_nl(data, c2);

        if categories.len() == 0 {
            return Err(
                ParsingError { line: line_number(data, c4), fault: ParseFault::NoCategories },
            );
        }
        if mirror.is_none() && c4 >= data.len() {
            return Err(
                ParsingError { line: line_number(data, c4), fault: ParseFault::NoContent },
            );
        }
        let d = match date {
            Some(d) => d,
            None => {
                return Err(
                    ParsingError { line: line_number(data, c4), fault: ParseFault::NoDate },
                );
            },
        };

        Ok(
            PostMetadata {
                title,
                date: d,
                categories,
                mirror,
                startpage,
                start_content: c4,
            },
        )
    }
}

} // verus!
