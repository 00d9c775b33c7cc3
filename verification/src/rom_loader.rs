//! The encodings in which a program comes: raw bytes, or text with two
//! hexadecimal bytes on each line.
//!
//! The host reads the file; these functions turn its contents into the bytes
//! of the program.

use vstd::prelude::*;
use vstd::slice::{slice_subrange, slice_to_vec};
use vstd::string::StringSliceAdditionalSpecFns;

verus! {

/// Why the contents of a file are no program.
#[derive(Clone, Copy, Debug, PartialEq, Eq, Structural)]
pub enum RomError {
    /// Line `line`, counted from 0, holds fewer than two words.
    MissingByte { line: usize },
    /// One of the first two words of line `line`, counted from 0, is not a
    /// byte in hexadecimal notation.
    InvalidByte { line: usize },
}

/// The encodings that are told apart by the name of the file.
#[derive(Clone, Copy, Debug, PartialEq, Eq, Structural)]
pub enum RomFormat {
    /// Two hexadecimal bytes per line, read by [`HexRomLoader`].
    Hex,
    /// The program itself, read by [`Ch8RomLoader`].
    Raw,
}

/// Whether `name` ends with `suffix`.
pub open spec fn ends_with(name: Seq<u8>, suffix: Seq<u8>) -> bool {
    name.len() >= suffix.len() && name.subrange(name.len() - suffix.len(), name.len() as int)
        == suffix
}

/// The encoding that a file name, given by its bytes, stands for: `.hex` for
/// the hexadecimal encoding, `.ch8` and `.8o` for the raw one. The case of
/// the letters matters.
pub open spec fn spec_rom_format(name: Seq<u8>) -> Option<RomFormat> {
    if ends_with(name, seq![0x2Eu8, 0x68, 0x65, 0x78]) {
        Some(RomFormat::Hex)
    } else if ends_with(name, seq![0x2Eu8, 0x63, 0x68, 0x38]) || ends_with(
        name,
        seq![0x2Eu8, 0x38, 0x6F],
    ) {
        Some(RomFormat::Raw)
    } else {
        None
    }
}

/// Whether `name` ends with `suffix`.
fn has_suffix(name: &[u8], suffix: &[u8]) -> (found: bool)
    ensures
        found == ends_with(name@, suffix@),
{
    let (len, suffix_len) = (name.len(), suffix.len());
    if len < suffix_len {
        return false;
    }
    let start = len - suffix_len;
    let ghost tail = name@.subrange(start as int, len as int);
    let mut k: usize = 0;
    while k < suffix_len
        invariant
            k <= suffix_len,
            len == name@.len(),
            suffix_len == suffix@.len(),
            start == len - suffix_len,
            tail == name@.subrange(start as int, len as int),
            forall|j: int| 0 <= j < k ==> tail[j] == suffix@[j],
        decreases suffix_len - k,
    {
        if name[start + k] != suffix[k] {
            assert(tail[k as int] != suffix@[k as int]);
            return false;
        }
        k += 1;
    }
    assert(tail =~= suffix@);
    true
}

/// The encoding that the name of a file stands for, or `None` where the name
/// has none of the known endings.
pub fn rom_format(filename: &str) -> (format: Option<RomFormat>)
    ensures
        format == spec_rom_format(filename.spec_bytes()),
{
    let name = filename.as_bytes();
    let hex: [u8; 4] = [0x2E, 0x68, 0x65, 0x78];
    let ch8: [u8; 4] = [0x2E, 0x63, 0x68, 0x38];
    let octo: [u8; 3] = [0x2E, 0x38, 0x6F];
    assert(hex@ =~= seq![0x2Eu8, 0x68, 0x65, 0x78]);
    assert(ch8@ =~= seq![0x2Eu8, 0x63, 0x68, 0x38]);
    assert(octo@ =~= seq![0x2Eu8, 0x38, 0x6F]);
    if has_suffix(name, hex.as_slice()) {
        Some(RomFormat::Hex)
    } else if has_suffix(name, ch8.as_slice()) || has_suffix(name, octo.as_slice()) {
        Some(RomFormat::Raw)
    } else {
        None
    }
}

/// An encoding of programs.
pub trait RomLoader {
    /// The program that a file with these contents holds.
    spec fn program(contents: Seq<u8>) -> Result<Seq<u8>, RomError>;

    /// Decodes the contents of a file.
    fn decode(contents: &[u8]) -> (program: Result<Vec<u8>, RomError>)
        ensures
            match program {
                Ok(bytes) => Self::program(contents@) == Ok::<Seq<u8>, RomError>(bytes@),
                Err(error) => Self::program(contents@) == Err::<Seq<u8>, RomError>(error),
            },
    ;
}

/// Text in UTF-8 with one instruction per line: two bytes in hexadecimal
/// notation, separated by white space. What follows the second byte on a
/// line is ignored.
pub struct HexRomLoader;

/// The program itself, byte for byte.
pub struct Ch8RomLoader;

/// A blank of one byte: space, tab, line feed, vertical tab, form feed or
/// carriage return.
pub open spec fn is_blank(byte: u8) -> bool {
    byte == 0x20 || 0x09 <= byte <= 0x0D
}

/// A blank of two bytes: the UTF-8 form of U+0085 (next line) or U+00A0
/// (no-break space).
pub open spec fn is_blank_pair(first: u8, second: u8) -> bool {
    first == 0xC2 && (second == 0x85 || second == 0xA0)
}

/// A blank of three bytes: the UTF-8 form of U+1680, of one of U+2000 to
/// U+200A, of U+2028, U+2029, U+202F, U+205F or U+3000.
pub open spec fn is_blank_triple(first: u8, second: u8, third: u8) -> bool {
    ||| first == 0xE1 && second == 0x9A && third == 0x80
    ||| first == 0xE2 && second == 0x80 && (0x80 <= third <= 0x8A || third == 0xA8 || third
        == 0xA9 || third == 0xAF)
    ||| first == 0xE2 && second == 0x81 && third == 0x9F
    ||| first == 0xE3 && second == 0x80 && third == 0x80
}

/// The number of bytes of the blank that begins at position `at` of `text`,
/// or 0 where none begins there. The blanks are the characters that Unicode
/// gives the property White_Space, in UTF-8.
pub open spec fn blank_len(text: Seq<u8>, at: int) -> int {
    if 0 <= at < text.len() && is_blank(text[at]) {
        1
    } else if 0 <= at && at + 1 < text.len() && is_blank_pair(text[at], text[at + 1]) {
        2
    } else if 0 <= at && at + 2 < text.len() && is_blank_triple(
        text[at],
        text[at + 1],
        text[at + 2],
    ) {
        3
    } else {
        0
    }
}

/// The value of a hexadecimal digit, in either case.
pub open spec fn digit_value(byte: u8) -> Option<int> {
    if 0x30 <= byte <= 0x39 {
        Some(byte - 0x30)
    } else if 0x61 <= byte <= 0x66 {
        Some(byte - 0x61 + 10)
    } else if 0x41 <= byte <= 0x46 {
        Some(byte - 0x41 + 10)
    } else {
        None
    }
}

/// The number that a string of hexadecimal digits denotes, the empty string
/// denoting 0; `None` where a byte is no digit.
pub open spec fn digits_value(digits: Seq<u8>) -> Option<int>
    decreases digits.len(),
{
    if digits.len() == 0 {
        Some(0)
    } else {
        match (digits_value(digits.drop_last()), digit_value(digits.last())) {
            (Some(high), Some(low)) => Some(high * 16 + low),
            _ => None,
        }
    }
}

/// The digits of a word: the word without its plus sign, if it has one.
pub open spec fn unsigned(word: Seq<u8>) -> Seq<u8> {
    if word.len() > 0 && word[0] == 0x2B {
        word.skip(1)
    } else {
        word
    }
}

/// The byte that a word denotes: one or more hexadecimal digits, which may
/// follow a plus sign, with a value of at most 255.
pub open spec fn hex_byte(word: Seq<u8>) -> Option<u8> {
    let digits = unsigned(word);
    match digits_value(digits) {
        Some(value) => if digits.len() > 0 && value <= 255 {
            Some(value as u8)
        } else {
            None
        },
        None => None,
    }
}

/// The first position at or after `from` at which no blank begins, or the
/// end of the line.
pub open spec fn word_start(line: Seq<u8>, from: int) -> int
    decreases line.len() - from,
{
    if blank_len(line, from) > 0 {
        word_start(line, from + blank_len(line, from))
    } else {
        from
    }
}

/// The first position at or after `from` at which a blank begins, or the end
/// of the line.
pub open spec fn word_end(line: Seq<u8>, from: int) -> int
    decreases line.len() - from,
{
    if 0 <= from < line.len() && blank_len(line, from) == 0 {
        word_end(line, from + 1)
    } else {
        from
    }
}

/// The two bytes of line number `number`: what its first two words denote.
pub open spec fn line_bytes(line: Seq<u8>, number: usize) -> Result<(u8, u8), RomError> {
    let first_start = word_start(line, 0);
    let first_end = word_end(line, first_start);
    let second_start = word_start(line, first_end);
    let second_end = word_end(line, second_start);
    if first_start >= line.len() {
        Err(RomError::MissingByte { line: number })
    } else {
        match hex_byte(line.subrange(first_start, first_end)) {
            None => Err(RomError::InvalidByte { line: number }),
            Some(first) => if second_start >= line.len() {
                Err(RomError::MissingByte { line: number })
            } else {
                match hex_byte(line.subrange(second_start, second_end)) {
                    None => Err(RomError::InvalidByte { line: number }),
                    Some(second) => Ok((first, second)),
                }
            },
        }
    }
}

/// The number of bytes from `from` to the next line feed, or to the end of
/// the text where no line feed follows.
pub open spec fn line_length(text: Seq<u8>, from: int) -> nat
    decreases text.len() - from,
{
    if 0 <= from < text.len() && text[from] != 0x0A {
        1 + line_length(text, from + 1)
    } else {
        0
    }
}

/// The bytes of the lines that begin at `from` or later, the first of them
/// being line number `number`. A line ends at a line feed or at the end of
/// the text; a text that ends in a line feed has no line after it. The first
/// line that does not hold two bytes decides the error.
pub open spec fn hex_program_from(text: Seq<u8>, from: int, number: nat) -> Result<
    Seq<u8>,
    RomError,
>
    decreases text.len() - from,
{
    if 0 <= from < text.len() {
        let end = from + line_length(text, from);
        match line_bytes(text.subrange(from, end), number as usize) {
            Err(error) => Err(error),
            Ok((first, second)) => if end < text.len() {
                match hex_program_from(text, end + 1, number + 1) {
                    Err(error) => Err(error),
                    Ok(rest) => Ok(seq![first, second] + rest),
                }
            } else {
                Ok(seq![first, second])
            },
        }
    } else {
        Ok(Seq::empty())
    }
}

/// The program that a text in the hexadecimal encoding holds.
pub open spec fn hex_program(text: Seq<u8>) -> Result<Seq<u8>, RomError> {
    hex_program_from(text, 0, 0)
}

/// A string of digits has a value only if each of its prefixes has one, and
/// that is no greater.
proof fn lemma_prefix_value(digits: Seq<u8>, k: int)
    requires
        0 <= k <= digits.len(),
        digits_value(digits).is_some(),
    ensures
        digits_value(digits.take(k)) matches Some(prefix) && 0 <= prefix <= digits_value(
            digits,
        ).unwrap(),
    decreases digits.len(),
{
    if k == digits.len() {
        assert(digits.take(k) =~= digits);
        if digits.len() > 0 {
            lemma_prefix_value(digits.drop_last(), k - 1);
        }
    } else {
        lemma_prefix_value(digits.drop_last(), k);
        assert(digits.drop_last().take(k) =~= digits.take(k));
    }
}

/// The value of a hexadecimal digit, in either case.
fn hex_digit(byte: u8) -> (value: Option<u8>)
    ensures
        match value {
            Some(v) => digit_value(byte) == Some(v as int),
            None => digit_value(byte).is_none(),
        },
{
    if 0x30 <= byte && byte <= 0x39 {
        Some(byte - 0x30)
    } else if 0x61 <= byte && byte <= 0x66 {
        Some(byte - 0x61 + 10)
    } else if 0x41 <= byte && byte <= 0x46 {
        Some(byte - 0x41 + 10)
    } else {
        None
    }
}

/// Reads a word as a byte in hexadecimal notation: one or more digits, in
/// either case, which may follow a plus sign. `None` where the word is
/// anything else or denotes more than 255.
pub fn parse_hex_byte(word: &[u8]) -> (byte: Option<u8>)
    ensures
        byte == hex_byte(word@),
{
    let len = word.len();
    let start: usize = if len > 0 && word[0] == 0x2B {
        1
    } else {
        0
    };
    if start == len {
        return None;
    }
    let ghost digits = unsigned(word@);
    let mut value: u8 = 0;
    let mut k: usize = start;
    assert(digits =~= word@.skip(start as int));
    assert(digits.take(0) =~= Seq::<u8>::empty());
    while k < len
        invariant
            start <= k <= len,
            len == word@.len(),
            digits == unsigned(word@),
            digits == word@.skip(start as int),
            digits.len() == len - start,
            digits_value(digits.take(k - start)) == Some(value as int),
        decreases len - k,
    {
        let ghost longer = digits.take(k + 1 - start);
        proof {
            assert(longer.drop_last() =~= digits.take(k - start));
            assert(longer.last() == word@[k as int]);
            assert(digits_value(longer) == match digit_value(word@[k as int]) {
                Some(low) => Some(value * 16 + low),
                None => None,
            });
        }
        match hex_digit(word[k]) {
            None => {
                proof {
                    if digits_value(digits).is_some() {
                        lemma_prefix_value(digits, k + 1 - start);
                    }
                }
                return None;
            },
            Some(digit) => {
                if value >= 16 {
                    proof {
                        if digits_value(digits).is_some() {
                            lemma_prefix_value(digits, k + 1 - start);
                        }
                    }
                    return None;
                }
                value = value * 16 + digit;
            },
        }
        k += 1;
    }
    assert(digits.take(len - start) =~= digits);
    Some(value)
}

/// The number of bytes of the blank that begins at `at`, or 0.
fn blank_at(text: &[u8], at: usize) -> (len: usize)
    ensures
        len == blank_len(text@, at as int),
{
    let size = text.len();
    if at >= size {
        return 0;
    }
    let first = text[at];
    if first == 0x20 || (0x09 <= first && first <= 0x0D) {
        return 1;
    }
    if size - at < 2 {
        return 0;
    }
    let second = text[at + 1];
    if first == 0xC2 && (second == 0x85 || second == 0xA0) {
        return 2;
    }
    if size - at < 3 {
        return 0;
    }
    let third = text[at + 2];
    let wide = (first == 0xE1 && second == 0x9A && third == 0x80) || (first == 0xE2 && second
        == 0x80 && ((0x80 <= third && third <= 0x8A) || third == 0xA8 || third == 0xA9 || third
        == 0xAF)) || (first == 0xE2 && second == 0x81 && third == 0x9F) || (first == 0xE3
        && second == 0x80 && third == 0x80);
    if wide {
        3
    } else {
        0
    }
}

/// The first position at or after `from` at which no blank begins.
fn skip_blanks(line: &[u8], from: usize) -> (at: usize)
    requires
        from <= line@.len(),
    ensures
        at == word_start(line@, from as int),
        from <= at <= line@.len(),
{
    let size = line.len();
    let mut at = from;
    let mut blank = blank_at(line, at);
    while blank > 0
        invariant
            size == line@.len(),
            from <= at <= line@.len(),
            blank == blank_len(line@, at as int),
            word_start(line@, from as int) == word_start(line@, at as int),
        decreases line@.len() - at,
    {
        at += blank;
        blank = blank_at(line, at);
    }
    at
}

/// The first position at or after `from` at which a blank begins.
fn skip_word(line: &[u8], from: usize) -> (at: usize)
    requires
        from <= line@.len(),
    ensures
        at == word_end(line@, from as int),
        from <= at <= line@.len(),
{
    let mut at = from;
    while at < line.len() && blank_at(line, at) == 0
        invariant
            from <= at <= line@.len(),
            word_end(line@, from as int) == word_end(line@, at as int),
        decreases line@.len() - at,
    {
        at += 1;
    }
    at
}

/// Reads the two bytes of line number `number`.
fn parse_line(line: &[u8], number: usize) -> (bytes: Result<(u8, u8), RomError>)
    ensures
        bytes == line_bytes(line@, number),
{
    let first_start = skip_blanks(line, 0);
    if first_start >= line.len() {
        return Err(RomError::MissingByte { line: number });
    }
    let first_end = skip_word(line, first_start);
    let first = match parse_hex_byte(slice_subrange(line, first_start, first_end)) {
        None => {
            return Err(RomError::InvalidByte { line: number });
        },
        Some(byte) => byte,
    };
    let second_start = skip_blanks(line, first_end);
    if second_start >= line.len() {
        return Err(RomError::MissingByte { line: number });
    }
    let second_end = skip_word(line, second_start);
    match parse_hex_byte(slice_subrange(line, second_start, second_end)) {
        None => Err(RomError::InvalidByte { line: number }),
        Some(second) => Ok((first, second)),
    }
}

/// The position of the first line feed at or after `from`, or the end of the
/// text.
fn find_line_end(text: &[u8], from: usize) -> (at: usize)
    requires
        from <= text@.len(),
    ensures
        at == from + line_length(text@, from as int),
        from <= at <= text@.len(),
{
    let mut at = from;
    while at < text.len() && text[at] != 0x0A
        invariant
            from <= at <= text@.len(),
            from + line_length(text@, from as int) == at + line_length(text@, at as int),
        decreases text@.len() - at,
    {
        at += 1;
    }
    at
}

/// `bytes`, followed by what `rest` holds if it holds a program.
spec fn followed_by(bytes: Seq<u8>, rest: Result<Seq<u8>, RomError>) -> Result<Seq<u8>, RomError> {
    match rest {
        Ok(more) => Ok(bytes + more),
        Err(error) => Err(error),
    }
}

impl RomLoader for HexRomLoader {
    open spec fn program(contents: Seq<u8>) -> Result<Seq<u8>, RomError> {
        hex_program(contents)
    }

    /// Reads two bytes from each line of `contents`.
    ///
    /// Fails at the first line that does not begin with two bytes in
    /// hexadecimal notation, an empty line included, and says which line it
    /// was and whether a byte was missing or malformed.
    fn decode(contents: &[u8]) -> (program: Result<Vec<u8>, RomError>) {
        let len = contents.len();
        let mut bytes: Vec<u8> = Vec::new();
        let mut from: usize = 0;
        let mut number: usize = 0;
        assert(bytes@ + Seq::<u8>::empty() =~= bytes@);
        proof {
            match hex_program(contents@) {
                Ok(all) => {
                    assert(bytes@ + all =~= all);
                },
                Err(_) => {},
            }
        }
        while from < len
            invariant
                len == contents@.len(),
                number <= from <= len,
                hex_program(contents@) == followed_by(
                    bytes@,
                    hex_program_from(contents@, from as int, number as nat),
                ),
            decreases len - from,
        {
            let end = find_line_end(contents, from);
            let ghost rest = hex_program_from(contents@, end + 1, (number + 1) as nat);
            match parse_line(slice_subrange(contents, from, end), number) {
                Err(error) => {
                    return Err(error);
                },
                Ok((first, second)) => {
                    let ghost before = bytes@;
                    bytes.push(first);
                    bytes.push(second);
                    proof {
                        assert(before + seq![first, second] =~= bytes@);
                        match rest {
                            Ok(more) => {
                                assert(before + (seq![first, second] + more) =~= bytes@ + more);
                            },
                            Err(_) => {},
                        }
                    }
                },
            }
            if end == len {
                return Ok(bytes);
            }
            from = end + 1;
            number += 1;
        }
        assert(bytes@ + Seq::<u8>::empty() =~= bytes@);
        Ok(bytes)
    }
}

impl RomLoader for Ch8RomLoader {
    open spec fn program(contents: Seq<u8>) -> Result<Seq<u8>, RomError> {
        Ok(contents)
    }

    /// Copies `contents`: every sequence of bytes is a program.
    fn decode(contents: &[u8]) -> (program: Result<Vec<u8>, RomError>) {
        Ok(slice_to_vec(contents))
    }
}

} // verus!
