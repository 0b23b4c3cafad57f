use crate::text::chars_of;
use vstd::prelude::*;

verus! {

/// The classes of characters out of which the tokens of the expression
/// language are made.
#[derive(Debug, Clone, Copy, PartialEq, Eq, Structural)]
pub enum CharClass {
    /// `0` to `9`.
    Digit,
    /// A digit, `a` to `f` or `A` to `F`.
    Hex,
    /// `0` to `7`.
    Octal,
    /// A letter of ASCII, a digit or `_`.
    Ident,
    /// White space, as Unicode has it.
    Space,
    /// Anything but a line feed and a carriage return.
    LineRest,
    /// A line feed or a carriage return.
    LineEnd,
}

pub open spec fn is_digit(c: char) -> bool {
    '0' <= c && c <= '9'
}

pub open spec fn is_hex_digit(c: char) -> bool {
    is_digit(c) || ('a' <= c && c <= 'f') || ('A' <= c && c <= 'F')
}

pub open spec fn is_letter(c: char) -> bool {
    c == '_' || ('a' <= c && c <= 'z') || ('A' <= c && c <= 'Z')
}

/// The characters with the Unicode property `White_Space`.
pub open spec fn is_space(c: char) -> bool {
    ('\u{9}' <= c && c <= '\u{d}') || c == ' ' || c == '\u{85}' || c == '\u{a0}' || c
        == '\u{1680}' || ('\u{2000}' <= c && c <= '\u{200a}') || c == '\u{2028}' || c
        == '\u{2029}' || c == '\u{202f}' || c == '\u{205f}' || c == '\u{3000}'
}

pub open spec fn in_class(c: char, class: CharClass) -> bool {
    match class {
        CharClass::Digit => is_digit(c),
        CharClass::Hex => is_hex_digit(c),
        CharClass::Octal => '0' <= c && c <= '7',
        CharClass::Ident => is_letter(c) || is_digit(c),
        CharClass::Space => is_space(c),
        CharClass::LineRest => c != '\n' && c != '\r',
        CharClass::LineEnd => c == '\n' || c == '\r',
    }
}

/// The character at a place of the text, and a character of no token beyond
/// its end.
pub open spec fn at(text: Seq<char>, i: int) -> char {
    if 0 <= i < text.len() {
        text[i]
    } else {
        '\0'
    }
}

/// Where the run of characters of a class that starts at `from` ends.
pub open spec fn run_end(text: Seq<char>, from: int, class: CharClass) -> int
    decreases text.len() - from,
{
    if 0 <= from < text.len() && in_class(text[from], class) {
        run_end(text, from + 1, class)
    } else {
        from
    }
}

/// What a digit stands for, in any base up to 16.
pub open spec fn digit_of(c: char) -> int {
    if is_digit(c) {
        c as int - '0' as int
    } else if 'a' <= c && c <= 'f' {
        c as int - 'a' as int + 10
    } else {
        c as int - 'A' as int + 10
    }
}

/// The number that the digits from `from` up to `to` stand for in a base.
pub open spec fn number_of(text: Seq<char>, from: int, to: int, base: int) -> int
    decreases to - from,
{
    if from >= to {
        0
    } else {
        number_of(text, from, to - 1, base) * base + digit_of(at(text, to - 1))
    }
}

/// The largest number that an integer literal without a sign may stand for.
pub open spec fn largest_integer() -> int {
    0x7fff_ffff_ffff_ffff
}

/// A number that is a character: a Unicode scalar value.
pub open spec fn is_scalar(value: int) -> bool {
    0 <= value <= 0x10_ffff && !(0xd800 <= value <= 0xdfff)
}

/// The `count` characters from `from` read as a number in base 16 that is a
/// character: they are digits, or a `+` and digits.
pub open spec fn hex_escape_fits(text: Seq<char>, from: int, count: int) -> bool {
    if run_end(text, from, CharClass::Hex) >= from + count {
        is_scalar(number_of(text, from, from + count, 16))
    } else {
        &&& at(text, from) == '+'
        &&& run_end(text, from + 1, CharClass::Hex) >= from + count
        &&& is_scalar(number_of(text, from + 1, from + count, 16))
    }
}

/// The characters that stand for one character when a `\` is in front of them
/// in a string literal.
pub open spec fn is_simple_escape(c: char) -> bool {
    c == 'a' || c == 'b' || c == 'v' || c == 'f' || c == 'n' || c == 'r' || c == 't' || c == '\\'
        || c == '?' || c == '\'' || c == '"' || c == '`'
}

/// The length of the escape of a string literal that opens at `from`, `None`
/// where the characters there are no escape: a simple one, `\x`, `\u` and `\U`
/// with 2, 4 and 8 digits of base 16, or up to `\377` in base 8.
pub open spec fn quoted_escape(text: Seq<char>, from: int) -> Option<int> {
    let c = at(text, from + 1);
    if is_simple_escape(c) {
        Some(2)
    } else if c == 'x' && hex_escape_fits(text, from + 2, 2) {
        Some(4)
    } else if c == 'u' && hex_escape_fits(text, from + 2, 4) {
        Some(6)
    } else if c == 'U' && hex_escape_fits(text, from + 2, 8) {
        Some(10)
    } else if '0' <= c && c <= '3' && run_end(text, from + 2, CharClass::Octal) >= from + 4 {
        Some(4)
    } else {
        None
    }
}

/// Every escape of the string literal whose content runs from `from` to the
/// closing quote at `close` is one.
pub open spec fn quoted_fits(text: Seq<char>, from: int, close: int) -> bool
    decreases close - from,
{
    if from >= close {
        true
    } else if at(text, from) != '\\' {
        quoted_fits(text, from + 1, close)
    } else {
        match quoted_escape(text, from) {
            Some(length) => if 0 < length && from + length <= close {
                quoted_fits(text, from + length, close)
            } else {
                false
            },
            None => false,
        }
    }
}

/// Every escape of the bytes literal whose content runs from `from` to the
/// closing quote at `close` is one: `\x` with 2 digits of base 16, or a `+` and
/// one, or up to `\377` in base 8, all of it before the closing quote.
pub open spec fn bytes_fits(text: Seq<char>, from: int, close: int) -> bool
    decreases close - from,
{
    if from >= close {
        true
    } else if at(text, from) != '\\' {
        bytes_fits(text, from + 1, close)
    } else {
        let c = at(text, from + 1);
        let hex = c == 'x' && (run_end(text, from + 2, CharClass::Hex) >= from + 4 || (at(
            text,
            from + 2,
        ) == '+' && is_hex_digit(at(text, from + 3))));
        let octal = '0' <= c && c <= '3' && run_end(text, from + 2, CharClass::Octal) >= from + 4;
        from + 4 <= close && (hex || octal) && bytes_fits(text, from + 4, close)
    }
}

/// Where the string literal ends whose content starts at `from`: behind the
/// first `quote` that no `\` escapes. `None` where there is none, and where a
/// `\` stands before a line feed or at the end.
pub open spec fn string_end(text: Seq<char>, from: int, quote: char) -> Option<int>
    decreases text.len() - from,
{
    if from < 0 || from >= text.len() {
        None
    } else if text[from] == quote {
        Some(from + 1)
    } else if text[from] == '\\' {
        if from + 1 < text.len() && text[from + 1] != '\n' {
            string_end(text, from + 2, quote)
        } else {
            None
        }
    } else {
        string_end(text, from + 1, quote)
    }
}

/// Where the bytes literal ends whose content starts at `from`, each `\`
/// taken with the character behind it: behind the first `quote` that no `\`
/// escapes. `None` where a line feed or the end of the text comes first.
pub open spec fn bytes_end(text: Seq<char>, from: int, quote: char) -> Option<int>
    decreases text.len() - from,
{
    if from < 0 || from >= text.len() || text[from] == '\n' {
        None
    } else if text[from] == quote {
        Some(from + 1)
    } else if text[from] == '\\' && from + 1 < text.len() && text[from + 1] != '\n' {
        bytes_end(text, from + 2, quote)
    } else {
        bytes_end(text, from + 1, quote)
    }
}

/// A `quote` stands between `from` and the next line feed.
pub open spec fn line_has(text: Seq<char>, from: int, quote: char) -> bool
    decreases text.len() - from,
{
    if from < 0 || from >= text.len() || text[from] == '\n' {
        false
    } else if text[from] == quote {
        true
    } else {
        line_has(text, from + 1, quote)
    }
}

/// What the scanner of the expression language makes of the text at a place.
/// Where it makes a token, the place is that of the token's end.
pub enum Scan {
    /// No token starts here: the scanner reports an error and reads no more.
    Stop,
    /// A number, a string or bytes that the parser cannot turn into a value,
    /// with the place of its end where that is known.
    Hazard(Option<int>),
    /// White space or a comment.
    Skip(int),
    /// An identifier, a number, a string or bytes: what stands for a value.
    Operand(int),
    /// An operator that stands between two values and nowhere else.
    Binary(int),
    /// An operator that stands before a value and nowhere else.
    Unary(int),
    /// `)`, `]` or `}`, which ends what stands for a value.
    Close(int),
    /// `(`.
    Call(int),
    /// Any other token: after it a value may follow.
    Open(int),
}

/// The length of the exponent of a float that starts at `from`: `e` or `E`, a
/// sign or none, and digits. 0 where there is none.
pub open spec fn exponent_length(text: Seq<char>, from: int) -> int {
    let digits = if at(text, from + 1) == '+' || at(text, from + 1) == '-' {
        from + 2
    } else {
        from + 1
    };
    if (at(text, from) == 'e' || at(text, from) == 'E') && is_digit(at(text, digits)) {
        run_end(text, digits, CharClass::Digit) - from
    } else {
        0
    }
}

/// The length of the suffix of an unsigned literal at `from`: 2 for a space
/// and `u` or `U`, 0 where they do not stand there.
pub open spec fn unsigned_suffix(text: Seq<char>, from: int) -> int {
    if at(text, from) == ' ' && (at(text, from + 1) == 'u' || at(text, from + 1) == 'U') {
        2
    } else {
        0
    }
}

/// The number that starts at `from`, if one does: the longest of a float, a
/// hexadecimal literal, an unsigned literal and an integer. A float is taken
/// as it is. A hexadecimal and an unsigned literal are never turned into a
/// value, and an integer is not where it lies beyond the largest one.
pub open spec fn number_at(text: Seq<char>, from: int) -> Option<Scan> {
    let minus = at(text, from) == '-';
    let signed = minus || at(text, from) == '+';
    let start = if signed {
        from + 1
    } else {
        from
    };
    let digits = run_end(text, start, CharClass::Digit);
    if at(text, digits) == '.' && is_digit(at(text, digits + 1)) {
        let fraction = run_end(text, digits + 1, CharClass::Digit);
        Some(Scan::Operand(fraction + exponent_length(text, fraction)))
    } else if digits > start && exponent_length(text, digits) > 0 {
        Some(Scan::Operand(digits + exponent_length(text, digits)))
    } else if digits > start && (minus || !signed) {
        if at(text, start) == '0' && (at(text, start + 1) == 'x' || at(text, start + 1) == 'X')
            && is_hex_digit(at(text, start + 2)) {
            let hex = run_end(text, start + 2, CharClass::Hex);
            Some(Scan::Hazard(Some(hex + unsigned_suffix(text, hex))))
        } else if unsigned_suffix(text, digits) > 0 {
            Some(Scan::Hazard(Some(digits + unsigned_suffix(text, digits))))
        } else if number_of(text, start, digits, 10) > largest_integer() + (if minus {
            1int
        } else {
            0int
        }) {
            Some(Scan::Hazard(Some(digits)))
        } else {
            Some(Scan::Operand(digits))
        }
    } else {
        None
    }
}

/// The two characters are an operator that stands between two values.
pub open spec fn is_double_binary(first: char, second: char) -> bool {
    ||| first == '|' && second == '|'
    ||| first == '&' && second == '&'
    ||| first == '<' && second == '='
    ||| first == '>' && second == '='
    ||| first == '=' && second == '='
    ||| first == '!' && second == '='
}

/// The two characters are an operator that stands before a value.
pub open spec fn is_double_unary(first: char, second: char) -> bool {
    (first == '!' && second == '!') || (first == '-' && second == '-')
}

/// The character is an operator or a separator that stands between two
/// values.
pub open spec fn is_single_binary(c: char) -> bool {
    c == '+' || c == '*' || c == '/' || c == '%' || c == '<' || c == '>' || c == ',' || c == ':'
        || c == '?'
}

/// The character ends what stands for a value.
pub open spec fn is_closing(c: char) -> bool {
    c == ')' || c == ']' || c == '}'
}

/// The character is a token that stands before a value and behind one: `[`
/// and `{`, the `.`, and the `-`.
pub open spec fn is_opening(c: char) -> bool {
    c == '[' || c == '{' || c == '.' || c == '-'
}

/// The operator that starts at `from`, if one does.
pub open spec fn operator_at(text: Seq<char>, from: int) -> Scan {
    let c = at(text, from);
    let next = at(text, from + 1);
    if is_double_binary(c, next) {
        Scan::Binary(from + 2)
    } else if is_double_unary(c, next) {
        Scan::Unary(from + 2)
    } else if is_single_binary(c) {
        Scan::Binary(from + 1)
    } else if c == '!' {
        Scan::Unary(from + 1)
    } else if is_closing(c) {
        Scan::Close(from + 1)
    } else if c == '(' {
        Scan::Call(from + 1)
    } else if is_opening(c) {
        Scan::Open(from + 1)
    } else {
        Scan::Stop
    }
}

/// The word that starts at `from`: a raw string or a bytes literal where `r`
/// or `b` stands before a quote and the literal closes, the operator `in`,
/// else an identifier.
pub open spec fn word_at(text: Seq<char>, from: int) -> Scan {
    let c = at(text, from);
    let quote = at(text, from + 1);
    let quoted = quote == '"' || quote == '\'';
    let end = run_end(text, from, CharClass::Ident);
    if (c == 'r' || c == 'R') && quoted && string_end(text, from + 2, quote) is Some {
        Scan::Operand(string_end(text, from + 2, quote)->0)
    } else if (c == 'b' || c == 'B') && quoted && line_has(text, from + 2, quote) {
        match bytes_end(text, from + 2, quote) {
            Some(end) => if bytes_fits(text, from + 2, end - 1) {
                Scan::Operand(end)
            } else {
                Scan::Hazard(Some(end))
            },
            None => Scan::Hazard(None),
        }
    } else if c == 'i' && quote == 'n' && end == from + 2 {
        Scan::Binary(end)
    } else {
        Scan::Operand(end)
    }
}

/// What the scanner makes of the text at `from`, which lies in the text.
///
/// It takes the longest of what can start there: white space, a comment up
/// to the end of its line, a string, raw string or bytes literal up to its
/// closing quote, a number, a word, an operator.
pub open spec fn token_at(text: Seq<char>, from: int) -> Scan {
    let c = at(text, from);
    if is_space(c) {
        Scan::Skip(run_end(text, from, CharClass::Space))
    } else if c == '/' && at(text, from + 1) == '/' {
        Scan::Skip(
            run_end(text, run_end(text, from + 2, CharClass::LineRest), CharClass::LineEnd),
        )
    } else if c == '"' || c == '\'' {
        match string_end(text, from + 1, c) {
            Some(end) => if quoted_fits(text, from + 1, end - 1) {
                Scan::Operand(end)
            } else {
                Scan::Hazard(Some(end))
            },
            None => Scan::Stop,
        }
    } else if is_letter(c) {
        word_at(text, from)
    } else if number_at(text, from) is Some {
        number_at(text, from)->0
    } else {
        operator_at(text, from)
    }
}

/// What the parser has behind it, as far as it is followed here.
pub struct Reading {
    /// What stands for a value has just ended.
    pub after_operand: bool,
    /// The last token was a word: an identifier, `true`, `false` or `null`.
    pub after_word: bool,
    /// The brackets that are open, the innermost last: `[`, `{`, `(` for the
    /// bracket of a call, which stands behind a value, and `g` for the
    /// bracket of a group, which does not.
    pub open: Seq<char>,
    /// A `?` has been read.
    pub ternary: bool,
}

/// The closing bracket closes the open one.
pub open spec fn closes(close: char, open: char) -> bool {
    if close == ')' {
        open == '(' || open == 'g'
    } else if close == ']' {
        open == '['
    } else {
        open == '{'
    }
}

/// The token at `from` is a word: an identifier, `true`, `false` or `null`.
pub open spec fn is_word(text: Seq<char>, from: int) -> bool {
    is_letter(at(text, from)) && token_at(text, from) == Scan::Operand(
        run_end(text, from, CharClass::Ident),
    )
}

/// The innermost bracket that is open, and `g` where none is.
pub open spec fn innermost(open: Seq<char>) -> char {
    if open.len() > 0 {
        open.last()
    } else {
        'g'
    }
}

/// Where the token at `from` ends, and what the parser has behind it then.
/// `None` where the parser reads no further: where the scanner makes out no
/// token, and at a token that cannot stand where it does. That is a value
/// behind a value; an operator or a separator without a value before it; an
/// operator before a value behind a value; a `(` behind a value that is no
/// word; a closing bracket that does not close the innermost open one; a `,`
/// outside of every bracket or in a group; and a `:` that is not right inside
/// a `{` where no `?` has been read.
pub open spec fn step(text: Seq<char>, from: int, reading: Reading) -> Option<(int, Reading)> {
    let c = at(text, from);
    match token_at(text, from) {
        Scan::Stop => None,
        Scan::Hazard(_) => None,
        Scan::Skip(end) => Some((end, reading)),
        Scan::Operand(end) => if reading.after_operand {
            None
        } else {
            Some(
                (end, Reading { after_operand: true, after_word: is_word(text, from), ..reading }),
            )
        },
        Scan::Binary(end) => if !reading.after_operand {
            None
        } else if c == ',' && innermost(reading.open) == 'g' {
            None
        } else if c == ':' && !reading.ternary && innermost(reading.open) != '{' {
            None
        } else {
            Some(
                (
                    end,
                    Reading {
                        after_operand: false,
                        after_word: false,
                        ternary: reading.ternary || c == '?',
                        ..reading
                    },
                ),
            )
        },
        Scan::Unary(end) => if reading.after_operand {
            None
        } else {
            Some((end, reading))
        },
        Scan::Close(end) => if reading.open.len() > 0 && closes(c, reading.open.last()) {
            Some(
                (
                    end,
                    Reading {
                        after_operand: true,
                        after_word: false,
                        open: reading.open.drop_last(),
                        ..reading
                    },
                ),
            )
        } else {
            None
        },
        Scan::Call(end) => if reading.after_operand && !reading.after_word {
            None
        } else {
            Some(
                (
                    end,
                    Reading {
                        after_operand: false,
                        after_word: false,
                        open: reading.open.push(
                            if reading.after_operand {
                                '('
                            } else {
                                'g'
                            },
                        ),
                        ..reading
                    },
                ),
            )
        },
        Scan::Open(end) => Some(
            (
                end,
                Reading {
                    after_operand: false,
                    after_word: false,
                    open: if c == '[' || c == '{' {
                        reading.open.push(c)
                    } else {
                        reading.open
                    },
                    ..reading
                },
            ),
        ),
    }
}

/// Behind a value that ends at `from`, the parser turns the value's token
/// into the value: it does so at the end of the text, and before every token
/// that may stand behind a value. It gives up instead before a value, before
/// an operator that stands before values only, before `(`, and where the
/// scanner makes out no token.
pub open spec fn converts_before(text: Seq<char>, from: int) -> bool
    decreases text.len() - from,
{
    if from < 0 || from >= text.len() {
        true
    } else {
        match token_at(text, from) {
            Scan::Skip(end) => if from < end <= text.len() {
                converts_before(text, end)
            } else {
                true
            },
            Scan::Binary(_) => true,
            Scan::Close(_) => true,
            Scan::Open(_) => true,
            _ => false,
        }
    }
}

/// The parser takes in the hazardous token that ends at `end`, where that is
/// known, and turns it into a value.
pub open spec fn hazard_counts(text: Seq<char>, end: Option<int>) -> bool {
    match end {
        Some(end) => converts_before(text, end),
        None => true,
    }
}

/// The parser, reading on from `from` with `reading` behind it, takes in a
/// token that it cannot turn into a value.
pub open spec fn hazard_from(text: Seq<char>, from: int, reading: Reading) -> bool
    decreases text.len() - from,
{
    if from < 0 || from >= text.len() {
        false
    } else if token_at(text, from) is Hazard {
        !reading.after_operand && hazard_counts(text, token_at(text, from)->Hazard_0)
    } else {
        match step(text, from, reading) {
            Some((end, next)) => if from < end <= text.len() {
                hazard_from(text, end, next)
            } else {
                false
            },
            None => false,
        }
    }
}

/// What the parser has behind it at the start of a text.
pub open spec fn at_start() -> Reading {
    Reading { after_operand: false, after_word: false, open: Seq::empty(), ternary: false }
}

/// The literals that are handed to the parser of the expression language:
/// those in which it takes in no token that it cannot turn into a value.
///
/// Such a token is an integer beyond the largest one, a hexadecimal literal,
/// an unsigned literal, and a string or bytes literal with a `\` that opens no
/// escape. The tokens are those that the scanner of the language makes out
/// from the left, the longest first. One counts where the parser comes to
/// it and goes on behind it: not behind a place where the scanner makes out
/// no token, not at or behind a token that cannot stand where it does, and
/// not where the token behind it cannot stand behind a value. Of the grammar
/// no more is followed than `step` says, so that a token still counts where
/// the parser gives up before it for another reason, such as a `:` behind a
/// `?` that belongs to no choice.
pub open spec fn parse_safe(text: Seq<char>) -> bool {
    !hazard_from(text, 0, at_start())
}

fn is_in(c: char, class: CharClass) -> (found: bool)
    ensures
        found == in_class(c, class),
{
    let digit = '0' <= c && c <= '9';
    match class {
        CharClass::Digit => digit,
        CharClass::Hex => digit || ('a' <= c && c <= 'f') || ('A' <= c && c <= 'F'),
        CharClass::Octal => '0' <= c && c <= '7',
        CharClass::Ident => c == '_' || ('a' <= c && c <= 'z') || ('A' <= c && c <= 'Z') || digit,
        CharClass::Space => ('\u{9}' <= c && c <= '\u{d}') || c == ' ' || c == '\u{85}' || c
            == '\u{a0}' || c == '\u{1680}' || ('\u{2000}' <= c && c <= '\u{200a}') || c
            == '\u{2028}' || c == '\u{2029}' || c == '\u{202f}' || c == '\u{205f}' || c
            == '\u{3000}',
        CharClass::LineRest => c != '\n' && c != '\r',
        CharClass::LineEnd => c == '\n' || c == '\r',
    }
}

/// The character `ahead` places behind `from`.
fn peek(chars: &Vec<char>, from: usize, ahead: usize) -> (c: char)
    ensures
        c == at(chars@, from + ahead),
{
    if from < chars.len() && ahead < chars.len() - from {
        chars[from + ahead]
    } else {
        '\0'
    }
}

fn scan_run(chars: &Vec<char>, from: usize, class: CharClass) -> (end: usize)
    ensures
        from <= chars.len() ==> end == run_end(chars@, from as int, class) && from <= end
            <= chars.len(),
        from > chars.len() ==> end == from,
{
    if from > chars.len() {
        assert(run_end(chars@, from as int, class) == from);
        return from;
    }
    let mut i: usize = from;
    while i < chars.len() && is_in(chars[i], class)
        invariant
            from <= i <= chars.len(),
            run_end(chars@, from as int, class) == run_end(chars@, i as int, class),
        decreases chars.len() - i,
    {
        i = i + 1;
    }
    i
}

/// Whether the run of the class that starts `ahead` places behind `from` has
/// `count` characters or more.
fn run_reaches(chars: &Vec<char>, from: usize, ahead: usize, count: usize, class: CharClass) -> (reaches:
    bool)
    requires
        count > 0,
    ensures
        reaches == (run_end(chars@, from + ahead, class) >= from + ahead + count),
        reaches ==> from + ahead + count <= chars.len(),
{
    if from < chars.len() && ahead < chars.len() - from {
        scan_run(chars, from + ahead, class) - (from + ahead) >= count
    } else {
        assert(run_end(chars@, from + ahead, class) == from + ahead);
        false
    }
}

fn digit_value(c: char) -> (value: u64)
    requires
        is_hex_digit(c),
    ensures
        value == digit_of(c),
        value < 16,
        is_digit(c) ==> value < 10,
{
    if '0' <= c && c <= '9' {
        (c as u32 - '0' as u32) as u64
    } else if 'a' <= c && c <= 'f' {
        (c as u32 - 'a' as u32) as u64 + 10
    } else {
        (c as u32 - 'A' as u32) as u64 + 10
    }
}

/// Digits stand for a number that is not negative.
proof fn lemma_number_positive(text: Seq<char>, from: int, to: int, base: int)
    requires
        base >= 1,
        forall|k: int| from <= k < to ==> 0 <= digit_of(#[trigger] at(text, k)),
    ensures
        0 <= number_of(text, from, to, base),
    decreases to - from,
{
    if from < to {
        lemma_number_positive(text, from, to - 1, base);
        assert(0 <= digit_of(at(text, to - 1)));
        assert(number_of(text, from, to - 1, base) * base >= 0) by (nonlinear_arith)
            requires
                number_of(text, from, to - 1, base) >= 0,
                base >= 1,
        ;
    }
}

/// Digits that follow make a number no smaller.
proof fn lemma_number_grows(text: Seq<char>, from: int, middle: int, to: int, base: int)
    requires
        from <= middle <= to,
        base >= 1,
        forall|k: int| from <= k < to ==> 0 <= digit_of(#[trigger] at(text, k)),
    ensures
        number_of(text, from, middle, base) <= number_of(text, from, to, base),
    decreases to - middle,
{
    if middle < to {
        lemma_number_grows(text, from, middle, to - 1, base);
        lemma_number_positive(text, from, to - 1, base);
        assert(number_of(text, from, to - 1, base) * base >= number_of(text, from, to - 1, base))
            by (nonlinear_arith)
            requires
                number_of(text, from, to - 1, base) >= 0,
                base >= 1,
        ;
        assert(0 <= digit_of(at(text, to - 1)));
    }
}

/// Whether the digits from `from` up to `to` stand for a number beyond
/// `limit`, in base 10.
fn exceeds(chars: &Vec<char>, from: usize, to: usize, limit: u64) -> (beyond: bool)
    requires
        from <= to <= chars.len(),
        run_end(chars@, from as int, CharClass::Digit) >= to,
        limit <= 0x8000_0000_0000_0000,
    ensures
        beyond == (number_of(chars@, from as int, to as int, 10) > limit),
{
    proof {
        lemma_digits(chars@, from as int, to as int, CharClass::Digit);
    }
    let mut value: u64 = 0;
    let mut i: usize = from;
    while i < to
        invariant
            from <= i <= to <= chars.len(),
            limit <= 0x8000_0000_0000_0000,
            value == number_of(chars@, from as int, i as int, 10),
            value <= limit,
            forall|k: int| from <= k < to ==> in_class(#[trigger] at(chars@, k), CharClass::Digit),
        decreases to - i,
    {
        assert(in_class(at(chars@, i as int), CharClass::Digit));
        let digit = digit_value(chars[i]);
        let longer: u128 = value as u128 * 10 + digit as u128;
        assert(longer == number_of(chars@, from as int, i + 1, 10));
        if longer > limit as u128 {
            proof {
                assert forall|k: int| from <= k < to implies 0 <= digit_of(
                    #[trigger] at(chars@, k),
                ) by {
                    assert(in_class(at(chars@, k), CharClass::Digit));
                }
                lemma_number_grows(chars@, from as int, i + 1, to as int, 10);
            }
            return true;
        }
        value = longer as u64;
        i = i + 1;
    }
    false
}

/// The characters of a run are of its class.
proof fn lemma_digits(text: Seq<char>, from: int, to: int, class: CharClass)
    requires
        0 <= from <= to,
        from <= text.len(),
        run_end(text, from, class) >= to,
    ensures
        to <= text.len(),
        forall|k: int| from <= k < to ==> in_class(#[trigger] at(text, k), class),
    decreases to - from,
{
    if from < to {
        lemma_digits(text, from + 1, to, class);
    }
}

/// The number that up to 8 digits of base 16 stand for.
fn hex_number(chars: &Vec<char>, from: usize, to: usize) -> (value: u64)
    requires
        from <= to <= chars.len(),
        to - from <= 8,
        run_end(chars@, from as int, CharClass::Hex) >= to,
    ensures
        value == number_of(chars@, from as int, to as int, 16),
{
    proof {
        lemma_digits(chars@, from as int, to as int, CharClass::Hex);
    }
    let mut value: u64 = 0;
    let mut i: usize = from;
    while i < to
        invariant
            from <= i <= to <= chars.len(),
            to - from <= 8,
            value == number_of(chars@, from as int, i as int, 16),
            value < bound16(i - from),
            forall|k: int| from <= k < to ==> in_class(#[trigger] at(chars@, k), CharClass::Hex),
        decreases to - i,
    {
        assert(in_class(at(chars@, i as int), CharClass::Hex));
        assert(bound16(i + 1 - from) == 16 * bound16(i - from));
        assert(bound16(i + 1 - from) <= 0x1_0000_0000) by {
            reveal_with_fuel(bound16, 10);
        }
        value = value * 16 + digit_value(chars[i]);
        i = i + 1;
    }
    value
}

/// 16 to the power of `n`.
spec fn bound16(n: int) -> int
    decreases n,
{
    if n <= 0 {
        1
    } else {
        16 * bound16(n - 1)
    }
}

fn scalar(value: u64) -> (valid: bool)
    ensures
        valid == is_scalar(value as int),
{
    value <= 0x10_ffff && !(0xd800 <= value && value <= 0xdfff)
}

/// Whether the `count` characters that start `ahead` places behind `from`
/// are an escape in base 16.
fn hex_escape_is_fit(chars: &Vec<char>, from: usize, ahead: usize, count: usize) -> (fit: bool)
    requires
        2 <= count <= 8,
        ahead <= 8,
    ensures
        fit == hex_escape_fits(chars@, from + ahead, count as int),
        fit ==> from + ahead + count <= chars.len(),
{
    if run_reaches(chars, from, ahead, count, CharClass::Hex) {
        scalar(hex_number(chars, from + ahead, from + ahead + count))
    } else if peek(chars, from, ahead) == '+' && run_reaches(
        chars,
        from,
        ahead + 1,
        (count - 1) as usize,
        CharClass::Hex,
    ) {
        scalar(hex_number(chars, from + ahead + 1, from + ahead + count))
    } else {
        false
    }
}

fn is_simple(ch: char) -> (simple: bool)
    ensures
        simple == is_simple_escape(ch),
{
    ch == 'a' || ch == 'b' || ch == 'v' || ch == 'f' || ch == 'n' || ch == 'r' || ch == 't' || ch
        == '\\' || ch == '?' || ch == '\'' || ch == '"' || ch == '`'
}

fn quoted_escape_length(chars: &Vec<char>, from: usize) -> (length: Option<usize>)
    requires
        from < chars.len(),
    ensures
        match length {
            Some(length) => quoted_escape(chars@, from as int) == Some(length as int) && 0
                < length && from + length <= chars.len(),
            None => quoted_escape(chars@, from as int) is None,
        },
{
    let c = peek(chars, from, 1);
    if is_simple(c) {
        Some(2)
    } else if c == 'x' && hex_escape_is_fit(chars, from, 2, 2) {
        Some(4)
    } else if c == 'u' && hex_escape_is_fit(chars, from, 2, 4) {
        Some(6)
    } else if c == 'U' && hex_escape_is_fit(chars, from, 2, 8) {
        Some(10)
    } else if '0' <= c && c <= '3' && run_reaches(chars, from, 2, 2, CharClass::Octal) {
        Some(4)
    } else {
        None
    }
}

fn quoted_is_fit(chars: &Vec<char>, from: usize, close: usize) -> (fit: bool)
    requires
        from <= close <= chars.len(),
    ensures
        fit == quoted_fits(chars@, from as int, close as int),
{
    let mut i: usize = from;
    while i < close
        invariant
            from <= i <= chars.len(),
            close <= chars.len(),
            quoted_fits(chars@, from as int, close as int) == quoted_fits(
                chars@,
                i as int,
                close as int,
            ),
        decreases chars.len() - i,
    {
        if chars[i] != '\\' {
            i = i + 1;
        } else {
            match quoted_escape_length(chars, i) {
                Some(length) => {
                    if length > close - i {
                        return false;
                    }
                    i = i + length;
                },
                None => {
                    return false;
                },
            }
        }
    }
    true
}

fn bytes_is_fit(chars: &Vec<char>, from: usize, close: usize) -> (fit: bool)
    requires
        from <= close <= chars.len(),
    ensures
        fit == bytes_fits(chars@, from as int, close as int),
{
    let mut i: usize = from;
    while i < close
        invariant
            from <= i <= chars.len(),
            close <= chars.len(),
            bytes_fits(chars@, from as int, close as int) == bytes_fits(
                chars@,
                i as int,
                close as int,
            ),
        decreases chars.len() - i,
    {
        if chars[i] != '\\' {
            i = i + 1;
        } else {
            let c = peek(chars, i, 1);
            let hex = c == 'x' && (run_reaches(chars, i, 2, 2, CharClass::Hex) || (peek(
                chars,
                i,
                2,
            ) == '+' && is_in(peek(chars, i, 3), CharClass::Hex)));
            let octal = '0' <= c && c <= '3' && run_reaches(chars, i, 2, 2, CharClass::Octal);
            if close - i >= 4 && (hex || octal) {
                i = i + 4;
            } else {
                return false;
            }
        }
    }
    true
}

fn find_string_end(chars: &Vec<char>, from: usize, quote: char) -> (end: Option<usize>)
    ensures
        match end {
            Some(end) => string_end(chars@, from as int, quote) == Some(end as int) && from < end
                <= chars.len(),
            None => string_end(chars@, from as int, quote) is None,
        },
{
    let mut i: usize = from;
    while i < chars.len()
        invariant
            from <= i,
            string_end(chars@, from as int, quote) == string_end(chars@, i as int, quote),
        decreases chars.len() - i,
    {
        if chars[i] == quote {
            return Some(i + 1);
        } else if chars[i] == '\\' {
            if i + 1 < chars.len() && chars[i + 1] != '\n' {
                i = i + 2;
            } else {
                return None;
            }
        } else {
            i = i + 1;
        }
    }
    None
}

fn find_bytes_end(chars: &Vec<char>, from: usize, quote: char) -> (end: Option<usize>)
    ensures
        match end {
            Some(end) => bytes_end(chars@, from as int, quote) == Some(end as int) && from < end
                <= chars.len(),
            None => bytes_end(chars@, from as int, quote) is None,
        },
{
    let mut i: usize = from;
    while i < chars.len()
        invariant
            from <= i,
            bytes_end(chars@, from as int, quote) == bytes_end(chars@, i as int, quote),
        decreases chars.len() - i,
    {
        if chars[i] == '\n' {
            return None;
        } else if chars[i] == quote {
            return Some(i + 1);
        } else if chars[i] == '\\' && i + 1 < chars.len() && chars[i + 1] != '\n' {
            i = i + 2;
        } else {
            i = i + 1;
        }
    }
    None
}

fn line_holds(chars: &Vec<char>, from: usize, quote: char) -> (found: bool)
    ensures
        found == line_has(chars@, from as int, quote),
{
    let mut i: usize = from;
    while i < chars.len()
        invariant
            from <= i,
            line_has(chars@, from as int, quote) == line_has(chars@, i as int, quote),
        decreases chars.len() - i,
    {
        if chars[i] == '\n' {
            return false;
        } else if chars[i] == quote {
            return true;
        }
        i = i + 1;
    }
    false
}

/// What a scan came to, with places as the machine counts them.
enum Scanned {
    Stop,
    Hazard(Option<usize>),
    Skip(usize),
    Operand(usize),
    Binary(usize),
    Unary(usize),
    Close(usize),
    Call(usize),
    Open(usize),
}

impl Scanned {
    spec fn scan(self) -> Scan {
        match self {
            Scanned::Stop => Scan::Stop,
            Scanned::Hazard(Some(end)) => Scan::Hazard(Some(end as int)),
            Scanned::Hazard(None) => Scan::Hazard(None),
            Scanned::Skip(end) => Scan::Skip(end as int),
            Scanned::Operand(end) => Scan::Operand(end as int),
            Scanned::Binary(end) => Scan::Binary(end as int),
            Scanned::Unary(end) => Scan::Unary(end as int),
            Scanned::Close(end) => Scan::Close(end as int),
            Scanned::Call(end) => Scan::Call(end as int),
            Scanned::Open(end) => Scan::Open(end as int),
        }
    }

    /// The end of the token, if the scan came to one.
    spec fn end(self) -> Option<int> {
        match self {
            Scanned::Stop => None,
            Scanned::Hazard(end) => match end {
                Some(end) => Some(end as int),
                None => None,
            },
            Scanned::Skip(end) => Some(end as int),
            Scanned::Operand(end) => Some(end as int),
            Scanned::Binary(end) => Some(end as int),
            Scanned::Unary(end) => Some(end as int),
            Scanned::Close(end) => Some(end as int),
            Scanned::Call(end) => Some(end as int),
            Scanned::Open(end) => Some(end as int),
        }
    }
}

fn exponent(chars: &Vec<char>, from: usize) -> (length: usize)
    requires
        from <= chars.len(),
    ensures
        length == exponent_length(chars@, from as int),
        from + length <= chars.len(),
{
    let sign = peek(chars, from, 1);
    let ahead: usize = if sign == '+' || sign == '-' {
        2
    } else {
        1
    };
    let e = peek(chars, from, 0);
    if (e == 'e' || e == 'E') && is_in(peek(chars, from, ahead), CharClass::Digit) {
        scan_run(chars, from + ahead, CharClass::Digit) - from
    } else {
        0
    }
}

fn suffix(chars: &Vec<char>, from: usize) -> (length: usize)
    requires
        from <= chars.len(),
    ensures
        length == unsigned_suffix(chars@, from as int),
        from + length <= chars.len(),
{
    let u = peek(chars, from, 1);
    if peek(chars, from, 0) == ' ' && (u == 'u' || u == 'U') {
        2
    } else {
        0
    }
}

fn scan_number(chars: &Vec<char>, from: usize) -> (found: Option<Scanned>)
    requires
        from < chars.len(),
    ensures
        match found {
            Some(scanned) => number_at(chars@, from as int) == Some(scanned.scan()),
            None => number_at(chars@, from as int) is None,
        },
        found matches Some(scanned) ==> (scanned.end() matches Some(end) ==> end <= chars.len()),
{
    let first = chars[from];
    let minus = first == '-';
    let signed = minus || first == '+';
    let start = if signed {
        from + 1
    } else {
        from
    };
    let digits = scan_run(chars, start, CharClass::Digit);
    if peek(chars, digits, 0) == '.' && is_in(peek(chars, digits, 1), CharClass::Digit) {
        let fraction = scan_run(chars, digits + 1, CharClass::Digit);
        Some(Scanned::Operand(fraction + exponent(chars, fraction)))
    } else if digits > start && exponent(chars, digits) > 0 {
        Some(Scanned::Operand(digits + exponent(chars, digits)))
    } else if digits > start && (minus || !signed) {
        let x = peek(chars, start, 1);
        if chars[start] == '0' && (x == 'x' || x == 'X') && is_in(
            peek(chars, start, 2),
            CharClass::Hex,
        ) {
            let hex = scan_run(chars, start + 2, CharClass::Hex);
            Some(Scanned::Hazard(Some(hex + suffix(chars, hex))))
        } else if suffix(chars, digits) > 0 {
            Some(Scanned::Hazard(Some(digits + suffix(chars, digits))))
        } else if exceeds(
            chars,
            start,
            digits,
            if minus {
                0x8000_0000_0000_0000
            } else {
                0x7fff_ffff_ffff_ffff
            },
        ) {
            Some(Scanned::Hazard(Some(digits)))
        } else {
            Some(Scanned::Operand(digits))
        }
    } else {
        None
    }
}

fn scan_word(chars: &Vec<char>, from: usize) -> (scanned: Scanned)
    requires
        from < chars.len(),
        is_letter(chars[from as int]),
    ensures
        scanned.scan() == word_at(chars@, from as int),
        scanned.end() matches Some(end) ==> end <= chars.len(),
{
    let c = chars[from];
    let quote = peek(chars, from, 1);
    let quoted = quote == '"' || quote == '\'';
    if (c == 'r' || c == 'R') && quoted {
        match find_string_end(chars, from + 2, quote) {
            Some(end) => {
                return Scanned::Operand(end);
            },
            None => {},
        }
    }
    if (c == 'b' || c == 'B') && quoted && line_holds(chars, from + 2, quote) {
        return match find_bytes_end(chars, from + 2, quote) {
            Some(end) => if bytes_is_fit(chars, from + 2, end - 1) {
                Scanned::Operand(end)
            } else {
                Scanned::Hazard(Some(end))
            },
            None => Scanned::Hazard(None),
        };
    }
    let end = scan_run(chars, from, CharClass::Ident);
    if c == 'i' && quote == 'n' && end - from == 2 {
        Scanned::Binary(end)
    } else {
        Scanned::Operand(end)
    }
}

fn scan_operator(chars: &Vec<char>, from: usize) -> (scanned: Scanned)
    requires
        from < chars.len(),
    ensures
        scanned.scan() == operator_at(chars@, from as int),
        scanned.end() matches Some(end) ==> end <= chars.len(),
{
    let c = chars[from];
    let next = peek(chars, from, 1);
    let double_binary = (c == '|' && next == '|') || (c == '&' && next == '&') || (c == '<' && next
        == '=') || (c == '>' && next == '=') || (c == '=' && next == '=') || (c == '!' && next
        == '=');
    let double_unary = (c == '!' && next == '!') || (c == '-' && next == '-');
    if double_binary {
        assert(next != '\0');
        Scanned::Binary(from + 2)
    } else if double_unary {
        assert(next != '\0');
        Scanned::Unary(from + 2)
    } else if c == '+' || c == '*' || c == '/' || c == '%' || c == '<' || c == '>' || c == ','
        || c == ':' || c == '?' {
        Scanned::Binary(from + 1)
    } else if c == '!' {
        Scanned::Unary(from + 1)
    } else if c == ')' || c == ']' || c == '}' {
        Scanned::Close(from + 1)
    } else if c == '(' {
        Scanned::Call(from + 1)
    } else if c == '[' || c == '{' || c == '.' || c == '-' {
        Scanned::Open(from + 1)
    } else {
        Scanned::Stop
    }
}

fn scan_token(chars: &Vec<char>, from: usize) -> (scanned: Scanned)
    requires
        from < chars.len(),
    ensures
        scanned.scan() == token_at(chars@, from as int),
        scanned.end() matches Some(end) ==> end <= chars.len(),
{
    let c = chars[from];
    let next = peek(chars, from, 1);
    if is_in(c, CharClass::Space) {
        Scanned::Skip(scan_run(chars, from, CharClass::Space))
    } else if c == '/' && next == '/' {
        let line = scan_run(chars, from + 2, CharClass::LineRest);
        Scanned::Skip(scan_run(chars, line, CharClass::LineEnd))
    } else if c == '"' || c == '\'' {
        match find_string_end(chars, from + 1, c) {
            Some(end) => if quoted_is_fit(chars, from + 1, end - 1) {
                Scanned::Operand(end)
            } else {
                Scanned::Hazard(Some(end))
            },
            None => Scanned::Stop,
        }
    } else if c == '_' || ('a' <= c && c <= 'z') || ('A' <= c && c <= 'Z') {
        scan_word(chars, from)
    } else {
        match scan_number(chars, from) {
            Some(scanned) => scanned,
            None => scan_operator(chars, from),
        }
    }
}

fn converts(chars: &Vec<char>, from: usize) -> (converted: bool)
    ensures
        converted == converts_before(chars@, from as int),
{
    let mut i: usize = from;
    while i < chars.len()
        invariant
            converts_before(chars@, from as int) == converts_before(chars@, i as int),
        decreases chars.len() - i,
    {
        match scan_token(chars, i) {
            Scanned::Skip(end) => {
                if end <= i {
                    return true;
                }
                i = end;
            },
            Scanned::Binary(_) | Scanned::Close(_) | Scanned::Open(_) => {
                return true;
            },
            _ => {
                return false;
            },
        }
    }
    true
}

/// Whether a literal can be handed to the parser of the expression language.
pub fn is_parse_safe(text: &str) -> (safe: bool)
    ensures
        safe == parse_safe(text@),
{
    let chars = chars_of(text);
    let mut i: usize = 0;
    let mut after_operand = false;
    let mut after_word = false;
    let mut ternary = false;
    let mut open: Vec<char> = Vec::new();
    while i < chars.len()
        invariant
            chars@ == text@,
            hazard_from(text@, 0, at_start()) == hazard_from(
                text@,
                i as int,
                (Reading { after_operand, after_word, open: open@, ternary }),
            ),
        decreases chars.len() - i,
    {
        let c = chars[i];
        let ghost reading = Reading { after_operand, after_word, open: open@, ternary };
        let end = match scan_token(&chars, i) {
            Scanned::Stop => {
                return true;
            },
            Scanned::Hazard(end) => {
                return after_operand || match end {
                    Some(end) => !converts(&chars, end),
                    None => false,
                };
            },
            Scanned::Skip(end) => end,
            Scanned::Operand(end) => {
                if after_operand {
                    return true;
                }
                after_operand = true;
                let letter = c == '_' || ('a' <= c && c <= 'z') || ('A' <= c && c <= 'Z');
                after_word = letter && end == scan_run(&chars, i, CharClass::Ident);
                end
            },
            Scanned::Binary(end) => {
                let inner = if open.len() > 0 {
                    open[open.len() - 1]
                } else {
                    'g'
                };
                if !after_operand || (c == ',' && inner == 'g') || (c == ':' && !ternary && inner
                    != '{') {
                    return true;
                }
                after_operand = false;
                after_word = false;
                ternary = ternary || c == '?';
                end
            },
            Scanned::Unary(end) => {
                if after_operand {
                    return true;
                }
                end
            },
            Scanned::Close(end) => {
                if open.len() == 0 {
                    return true;
                }
                let inner = open[open.len() - 1];
                let closed = if c == ')' {
                    inner == '(' || inner == 'g'
                } else if c == ']' {
                    inner == '['
                } else {
                    inner == '{'
                };
                if !closed {
                    return true;
                }
                open.pop();
                after_operand = true;
                after_word = false;
                end
            },
            Scanned::Call(end) => {
                if after_operand && !after_word {
                    return true;
                }
                open.push(
                    if after_operand {
                        '('
                    } else {
                        'g'
                    },
                );
                after_operand = false;
                after_word = false;
                end
            },
            Scanned::Open(end) => {
                if c == '[' || c == '{' {
                    open.push(c);
                }
                after_operand = false;
                after_word = false;
                end
            },
        };
        assert(step(text@, i as int, reading) == Some(
            (end as int, (Reading { after_operand, after_word, open: open@, ternary })),
        ));
        if end <= i {
            return true;
        }
        i = end;
    }
    true
}

} // verus!
