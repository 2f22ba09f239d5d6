//! Recognition of the commands a news reader sends to the gateway.
//!
//! A line is matched case-insensitively (by Unicode simple case folding, under
//! which `k` also matches KELVIN SIGN and `s` also matches LATIN SMALL LETTER
//! LONG S) against these patterns, in this order:
//! - `list` anywhere in the line;
//! - the leftmost `group ` followed by a group name, the longest run of
//!   letters and dots;
//! - the leftmost `article ` followed by an article number, the longest run
//!   of decimal digits (any Unicode decimal digit);
//! - `help` anywhere in the line;
//! - `quit` anywhere in the line.
//! A line that matches none of them is no command.

use crate::text::{decimal, digit_char};
use vstd::prelude::*;

verus! {

broadcast use vstd::string::group_string_axioms;

/// Whether the line character `c` matches the pattern character `p`: ASCII
/// letters match case-insensitively, everything else exactly.
pub open spec fn char_matches(c: char, p: char) -> bool {
    if 'a' <= p && p <= 'z' {
        ||| c == p
        ||| c as u32 == (p as u32) - 32
        ||| (p == 'k' && c == '\u{212A}')
        ||| (p == 's' && c == '\u{17F}')
    } else {
        c == p
    }
}

/// Whether `kw` occurs in `line` at position `i`.
pub open spec fn keyword_at(line: Seq<char>, i: int, kw: Seq<char>) -> bool {
    &&& 0 <= i
    &&& i + kw.len() <= line.len()
    &&& forall|j: int|
        0 <= j < kw.len() ==> char_matches(#[trigger] line.subrange(i, i + kw.len())[j], kw[j])
}

/// The characters a group name is made of: letters and dots.
pub open spec fn is_name_char(c: char) -> bool {
    ||| ('a' <= c && c <= 'z')
    ||| ('A' <= c && c <= 'Z')
    ||| c == '.'
    ||| c == '\u{17F}'
    ||| c == '\u{212A}'
}

/// The Unicode decimal digits (general category Nd).
pub open spec fn is_decimal_digit(c: char) -> bool {
    let v = c as u32;
    (0x30 <= v && v <= 0x39) || (0x660 <= v && v <= 0x669) || (0x6F0 <= v && v <= 0x6F9)
    || (0x7C0 <= v && v <= 0x7C9) || (0x966 <= v && v <= 0x96F) || (0x9E6 <= v && v <= 0x9EF)
    || (0xA66 <= v && v <= 0xA6F) || (0xAE6 <= v && v <= 0xAEF) || (0xB66 <= v && v <= 0xB6F)
    || (0xBE6 <= v && v <= 0xBEF) || (0xC66 <= v && v <= 0xC6F) || (0xCE6 <= v && v <= 0xCEF)
    || (0xD66 <= v && v <= 0xD6F) || (0xDE6 <= v && v <= 0xDEF) || (0xE50 <= v && v <= 0xE59)
    || (0xED0 <= v && v <= 0xED9) || (0xF20 <= v && v <= 0xF29) || (0x1040 <= v && v <= 0x1049)
    || (0x1090 <= v && v <= 0x1099) || (0x17E0 <= v && v <= 0x17E9) || (0x1810 <= v && v <= 0x1819)
    || (0x1946 <= v && v <= 0x194F) || (0x19D0 <= v && v <= 0x19D9) || (0x1A80 <= v && v <= 0x1A89)
    || (0x1A90 <= v && v <= 0x1A99) || (0x1B50 <= v && v <= 0x1B59) || (0x1BB0 <= v && v <= 0x1BB9)
    || (0x1C40 <= v && v <= 0x1C49) || (0x1C50 <= v && v <= 0x1C59) || (0xA620 <= v && v <= 0xA629)
    || (0xA8D0 <= v && v <= 0xA8D9) || (0xA900 <= v && v <= 0xA909) || (0xA9D0 <= v && v <= 0xA9D9)
    || (0xA9F0 <= v && v <= 0xA9F9) || (0xAA50 <= v && v <= 0xAA59) || (0xABF0 <= v && v <= 0xABF9)
    || (0xFF10 <= v && v <= 0xFF19) || (0x104A0 <= v && v <= 0x104A9) || (0x10D30 <= v && v <= 0x10D39)
    || (0x10D40 <= v && v <= 0x10D49) || (0x11066 <= v && v <= 0x1106F) || (0x110F0 <= v && v <= 0x110F9)
    || (0x11136 <= v && v <= 0x1113F) || (0x111D0 <= v && v <= 0x111D9) || (0x112F0 <= v && v <= 0x112F9)
    || (0x11450 <= v && v <= 0x11459) || (0x114D0 <= v && v <= 0x114D9) || (0x11650 <= v && v <= 0x11659)
    || (0x116C0 <= v && v <= 0x116C9) || (0x116D0 <= v && v <= 0x116E3) || (0x11730 <= v && v <= 0x11739)
    || (0x118E0 <= v && v <= 0x118E9) || (0x11950 <= v && v <= 0x11959) || (0x11BF0 <= v && v <= 0x11BF9)
    || (0x11C50 <= v && v <= 0x11C59) || (0x11D50 <= v && v <= 0x11D59) || (0x11DA0 <= v && v <= 0x11DA9)
    || (0x11F50 <= v && v <= 0x11F59) || (0x16130 <= v && v <= 0x16139) || (0x16A60 <= v && v <= 0x16A69)
    || (0x16AC0 <= v && v <= 0x16AC9) || (0x16B50 <= v && v <= 0x16B59) || (0x16D70 <= v && v <= 0x16D79)
    || (0x1CCF0 <= v && v <= 0x1CCF9) || (0x1D7CE <= v && v <= 0x1D7FF) || (0x1E140 <= v && v <= 0x1E149)
    || (0x1E2F0 <= v && v <= 0x1E2F9) || (0x1E4F0 <= v && v <= 0x1E4F9) || (0x1E5F1 <= v && v <= 0x1E5FA)
    || (0x1E950 <= v && v <= 0x1E959) || (0x1FBF0 <= v && v <= 0x1FBF9)
}

/// The characters that may follow a keyword.
pub enum CharClass {
    GroupName,
    Digit,
}

pub open spec fn in_class(class: CharClass, c: char) -> bool {
    match class {
        CharClass::GroupName => is_name_char(c),
        CharClass::Digit => is_decimal_digit(c),
    }
}

/// Whether `kw` occurs at `i`, followed (where `class` is given) by a
/// character of that class.
pub open spec fn pattern_at(line: Seq<char>, i: int, kw: Seq<char>, class: Option<CharClass>) -> bool {
    &&& keyword_at(line, i, kw)
    &&& match class {
        None => true,
        Some(cl) => i + kw.len() < line.len() && in_class(cl, line[i + kw.len()]),
    }
}

/// The first position at or after `from` where `pred` holds, if any.
pub open spec fn first_from(len: int, from: int, pred: spec_fn(int) -> bool) -> Option<int>
    decreases len - from,
{
    if from >= len || from < 0 {
        None
    } else if pred(from) {
        Some(from)
    } else {
        first_from(len, from + 1, pred)
    }
}

/// The positions where the pattern starts.
pub open spec fn pattern_pred(line: Seq<char>, kw: Seq<char>, class: Option<CharClass>) -> spec_fn(int) -> bool {
    |i: int| pattern_at(line, i, kw, class)
}

/// The leftmost position where the pattern starts, if any.
pub open spec fn leftmost(line: Seq<char>, kw: Seq<char>, class: Option<CharClass>) -> Option<int> {
    first_from(line.len() as int, 0, pattern_pred(line, kw, class))
}

/// The end of the longest run of characters of `class` that starts at `j`.
pub open spec fn run_end(line: Seq<char>, j: int, class: CharClass) -> int
    decreases line.len() - j,
{
    if 0 <= j < line.len() && in_class(class, line[j]) {
        run_end(line, j + 1, class)
    } else {
        j
    }
}

pub open spec fn list_keyword() -> Seq<char> {
    seq!['l', 'i', 's', 't']
}

pub open spec fn group_keyword() -> Seq<char> {
    seq!['g', 'r', 'o', 'u', 'p', ' ']
}

pub open spec fn article_keyword() -> Seq<char> {
    seq!['a', 'r', 't', 'i', 'c', 'l', 'e', ' ']
}

pub open spec fn help_keyword() -> Seq<char> {
    seq!['h', 'e', 'l', 'p']
}

pub open spec fn quit_keyword() -> Seq<char> {
    seq!['q', 'u', 'i', 't']
}

/// A recognized command.
pub enum Command {
    /// List the newsgroups.
    List,
    /// Select the named group.
    Group { name: String },
    /// Retrieve an article by its number, as written on the line.
    Article { number: Vec<char> },
    /// Ask for a summary of the commands.
    Help,
    /// End the session.
    Quit,
}

/// What a command holds, for specifications.
pub enum CommandView {
    List,
    Group { name: Seq<char> },
    Article { number: Seq<char> },
    Help,
    Quit,
}

impl View for Command {
    type V = CommandView;

    open spec fn view(&self) -> CommandView {
        match self {
            Command::List => CommandView::List,
            Command::Group { name } => CommandView::Group { name: name@ },
            Command::Article { number } => CommandView::Article { number: number@ },
            Command::Help => CommandView::Help,
            Command::Quit => CommandView::Quit,
        }
    }
}

/// The command that `line` holds, if any.
pub open spec fn command_of(line: Seq<char>) -> Option<CommandView> {
    if leftmost(line, list_keyword(), None) is Some {
        Some(CommandView::List)
    } else if let Some(i) = leftmost(line, group_keyword(), Some(CharClass::GroupName)) {
        let start = i + 6;
        Some(CommandView::Group { name: line.subrange(start, run_end(line, start, CharClass::GroupName)) })
    } else if let Some(i) = leftmost(line, article_keyword(), Some(CharClass::Digit)) {
        let start = i + 8;
        Some(CommandView::Article { number: line.subrange(start, run_end(line, start, CharClass::Digit)) })
    } else if leftmost(line, help_keyword(), None) is Some {
        Some(CommandView::Help)
    } else if leftmost(line, quit_keyword(), None) is Some {
        Some(CommandView::Quit)
    } else {
        None
    }
}


/// The characters of `line`.
fn chars_of(line: &str) -> (out: Vec<char>)
    ensures
        out@ == line@,
{
    let mut out: Vec<char> = Vec::new();
    for c in it: line.chars()
        invariant
            out@ == it.seq().take(it.index()),
    {
        out.push(c);
    }
    out
}

/// The string of the characters `chars`.
pub(crate) fn string_of(chars: &Vec<char>) -> (s: String)
    ensures
        s@ == chars@,
{
    let mut s = String::new();
    let mut i: usize = 0;
    while i < chars.len()
        invariant
            i <= chars@.len(),
            s@ == chars@.subrange(0, i as int),
        decreases chars@.len() - i,
    {
        crate::text::push_char(&mut s, chars[i]);
        i = i + 1;
        assert(s@ =~= chars@.subrange(0, i as int));
    }
    assert(chars@.subrange(0, chars@.len() as int) =~= chars@);
    s
}

fn char_matches_exec(c: char, p: char) -> (r: bool)
    ensures
        r == char_matches(c, p),
{
    if 'a' <= p && p <= 'z' {
        c == p || (c as u32) == (p as u32) - 32 || (p == 'k' && c == '\u{212A}') || (p == 's'
            && c == '\u{17F}')
    } else {
        c == p
    }
}

/// Whether `c` is a Unicode decimal digit.
pub fn decimal_digit(c: char) -> (r: bool)
    ensures
        r == is_decimal_digit(c),
{
    let v = c as u32;
    (0x30 <= v && v <= 0x39) || (0x660 <= v && v <= 0x669) || (0x6F0 <= v && v <= 0x6F9)
        || (0x7C0 <= v && v <= 0x7C9) || (0x966 <= v && v <= 0x96F) || (0x9E6 <= v && v <= 0x9EF)
        || (0xA66 <= v && v <= 0xA6F) || (0xAE6 <= v && v <= 0xAEF) || (0xB66 <= v && v <= 0xB6F)
        || (0xBE6 <= v && v <= 0xBEF) || (0xC66 <= v && v <= 0xC6F) || (0xCE6 <= v && v <= 0xCEF)
        || (0xD66 <= v && v <= 0xD6F) || (0xDE6 <= v && v <= 0xDEF) || (0xE50 <= v && v <= 0xE59)
        || (0xED0 <= v && v <= 0xED9) || (0xF20 <= v && v <= 0xF29) || (0x1040 <= v && v <= 0x1049)
        || (0x1090 <= v && v <= 0x1099) || (0x17E0 <= v && v <= 0x17E9) || (0x1810 <= v && v <= 0x1819)
        || (0x1946 <= v && v <= 0x194F) || (0x19D0 <= v && v <= 0x19D9) || (0x1A80 <= v && v <= 0x1A89)
        || (0x1A90 <= v && v <= 0x1A99) || (0x1B50 <= v && v <= 0x1B59) || (0x1BB0 <= v && v <= 0x1BB9)
        || (0x1C40 <= v && v <= 0x1C49) || (0x1C50 <= v && v <= 0x1C59) || (0xA620 <= v && v <= 0xA629)
        || (0xA8D0 <= v && v <= 0xA8D9) || (0xA900 <= v && v <= 0xA909) || (0xA9D0 <= v && v <= 0xA9D9)
        || (0xA9F0 <= v && v <= 0xA9F9) || (0xAA50 <= v && v <= 0xAA59) || (0xABF0 <= v && v <= 0xABF9)
        || (0xFF10 <= v && v <= 0xFF19) || (0x104A0 <= v && v <= 0x104A9) || (0x10D30 <= v && v <= 0x10D39)
        || (0x10D40 <= v && v <= 0x10D49) || (0x11066 <= v && v <= 0x1106F) || (0x110F0 <= v && v <= 0x110F9)
        || (0x11136 <= v && v <= 0x1113F) || (0x111D0 <= v && v <= 0x111D9) || (0x112F0 <= v && v <= 0x112F9)
        || (0x11450 <= v && v <= 0x11459) || (0x114D0 <= v && v <= 0x114D9) || (0x11650 <= v && v <= 0x11659)
        || (0x116C0 <= v && v <= 0x116C9) || (0x116D0 <= v && v <= 0x116E3) || (0x11730 <= v && v <= 0x11739)
        || (0x118E0 <= v && v <= 0x118E9) || (0x11950 <= v && v <= 0x11959) || (0x11BF0 <= v && v <= 0x11BF9)
        || (0x11C50 <= v && v <= 0x11C59) || (0x11D50 <= v && v <= 0x11D59) || (0x11DA0 <= v && v <= 0x11DA9)
        || (0x11F50 <= v && v <= 0x11F59) || (0x16130 <= v && v <= 0x16139) || (0x16A60 <= v && v <= 0x16A69)
        || (0x16AC0 <= v && v <= 0x16AC9) || (0x16B50 <= v && v <= 0x16B59) || (0x16D70 <= v && v <= 0x16D79)
        || (0x1CCF0 <= v && v <= 0x1CCF9) || (0x1D7CE <= v && v <= 0x1D7FF) || (0x1E140 <= v && v <= 0x1E149)
        || (0x1E2F0 <= v && v <= 0x1E2F9) || (0x1E4F0 <= v && v <= 0x1E4F9) || (0x1E5F1 <= v && v <= 0x1E5FA)
        || (0x1E950 <= v && v <= 0x1E959) || (0x1FBF0 <= v && v <= 0x1FBF9)
}

fn in_class_exec(class: &CharClass, c: char) -> (r: bool)
    ensures
        r == in_class(*class, c),
{
    match class {
        CharClass::GroupName => ('a' <= c && c <= 'z') || ('A' <= c && c <= 'Z') || c == '.' || c
            == '\u{17F}' || c == '\u{212A}',
        CharClass::Digit => decimal_digit(c),
    }
}

fn keyword_at_exec(line: &Vec<char>, i: usize, kw: &[char]) -> (r: bool)
    ensures
        r == keyword_at(line@, i as int, kw@),
{
    let n = line.len();
    if i > n || n - i < kw.len() {
        return false;
    }
    let ghost w = line@.subrange(i as int, i + kw@.len());
    let mut j: usize = 0;
    while j < kw.len()
        invariant
            j <= kw@.len(),
            n == line@.len(),
            i + kw@.len() <= line@.len(),
            w == line@.subrange(i as int, i + kw@.len()),
            forall|k: int| 0 <= k < j ==> char_matches(#[trigger] w[k], kw@[k]),
        decreases kw@.len() - j,
    {
        assert(w[j as int] == line@[i + j]);
        if !char_matches_exec(line[i + j], kw[j]) {
            return false;
        }
        j = j + 1;
    }
    true
}

fn pattern_at_exec(line: &Vec<char>, i: usize, kw: &[char], class: &Option<CharClass>) -> (r: bool)
    ensures
        r == pattern_at(line@, i as int, kw@, *class),
{
    let n = line.len();
    if !keyword_at_exec(line, i, kw) {
        return false;
    }
    match class {
        None => true,
        Some(cl) => i + kw.len() < n && in_class_exec(cl, line[i + kw.len()]),
    }
}

/// The leftmost position where the pattern starts, if any.
fn find_leftmost(line: &Vec<char>, kw: &[char], class: &Option<CharClass>) -> (r: Option<usize>)
    ensures
        match r {
            Some(i) => leftmost(line@, kw@, *class) == Some(i as int),
            None => leftmost(line@, kw@, *class) is None,
        },
{
    let ghost pred = pattern_pred(line@, kw@, *class);
    let mut i: usize = 0;
    while i < line.len()
        invariant
            i <= line@.len(),
            pred == pattern_pred(line@, kw@, *class),
            leftmost(line@, kw@, *class) == first_from(line@.len() as int, i as int, pred),
        decreases line@.len() - i,
    {
        if pattern_at_exec(line, i, kw, class) {
            return Some(i);
        }
        i = i + 1;
    }
    None
}

/// Law: `first_from` finds the least position at or after `from` where
/// `pred` holds, and finds none exactly when there is none.
pub proof fn lemma_first_from(len: int, from: int, pred: spec_fn(int) -> bool)
    requires
        0 <= from,
    ensures
        match first_from(len, from, pred) {
            Some(i) => from <= i < len && pred(i) && forall|k: int| from <= k < i ==> !#[trigger] pred(k),
            None => forall|k: int| from <= k < len ==> !#[trigger] pred(k),
        },
    decreases len - from,
{
    if from < len && !pred(from) {
        lemma_first_from(len, from + 1, pred);
    }
}

proof fn lemma_run_end_bounds(line: Seq<char>, j: int, class: CharClass)
    requires
        0 <= j <= line.len(),
    ensures
        j <= run_end(line, j, class) <= line.len(),
    decreases line.len() - j,
{
    if j < line.len() && in_class(class, line[j]) {
        lemma_run_end_bounds(line, j + 1, class);
    }
}

proof fn lemma_run_end_exact(line: Seq<char>, j: int, e: int, class: CharClass)
    requires
        0 <= j <= e <= line.len(),
        forall|k: int| j <= k < e ==> in_class(class, #[trigger] line[k]),
        e == line.len() || !in_class(class, line[e]),
    ensures
        run_end(line, j, class) == e,
    decreases e - j,
{
    if j < e {
        lemma_run_end_exact(line, j + 1, e, class);
    }
}

proof fn lemma_no_list(line: Seq<char>)
    requires
        forall|i: int| !keyword_at(line, i, list_keyword()),
    ensures
        leftmost(line, list_keyword(), None) is None,
{
    let p = pattern_pred(line, list_keyword(), None);
    lemma_first_from(line.len() as int, 0, p);
    if let Some(i) = leftmost(line, list_keyword(), None) {
        assert(p(i));
        assert(keyword_at(line, i, list_keyword()));
    }
}

/// Law: every ASCII letter, lower or upper case, and the dot belong to a
/// group name: a line made of `group ` (in lower or upper case), a name of
/// ASCII letters and dots, and then nothing, a line break or a space, is
/// the command that selects exactly that whole name, as long as the line
/// holds no `list`.
pub proof fn lemma_group_name_recognized(q: Seq<char>, name: Seq<char>, rest: Seq<char>)
    requires
        q == seq!['g', 'r', 'o', 'u', 'p', ' '] || q == seq!['G', 'R', 'O', 'U', 'P', ' '],
        name.len() > 0,
        forall|i: int|
            0 <= i < name.len() ==> ('a' <= #[trigger] name[i] && name[i] <= 'z') || ('A' <= name[i]
                && name[i] <= 'Z') || name[i] == '.',
        rest.len() == 0 || rest[0] == '\r' || rest[0] == '\n' || rest[0] == ' ',
        forall|i: int| !keyword_at(q + name + rest, i, list_keyword()),
    ensures
        command_of(q + name + rest) == Some(CommandView::Group { name }),
{
    let line = q + name + rest;
    lemma_no_list(line);
    let kw = group_keyword();
    assert(line.subrange(0, 6) =~= q);
    assert forall|j: int| 0 <= j < kw.len() implies char_matches(
        #[trigger] line.subrange(0, kw.len() as int)[j],
        kw[j],
    ) by {
        assert(line.subrange(0, 6)[j] == q[j]);
    }
    assert(line[6] == name[0]);
    let p = pattern_pred(line, kw, Some(CharClass::GroupName));
    assert(p(0));
    let e = (6 + name.len()) as int;
    assert forall|k: int| 6 <= k < e implies in_class(CharClass::GroupName, #[trigger] line[k]) by {
        assert(line[k] == name[k - 6]);
    }
    if e < line.len() {
        assert(line[e] == rest[0]);
    }
    lemma_run_end_exact(line, 6, e, CharClass::GroupName);
    assert(line.subrange(6, e) =~= name);
}

/// Law: a line made of `article ` (in lower or upper case), a number of
/// ASCII digits, and then nothing, a line break or a space, is the command
/// that asks for exactly that whole number, as long as the line holds no
/// `list` and no `group ` followed by a name.
pub proof fn lemma_article_number_recognized(q: Seq<char>, digits: Seq<char>, rest: Seq<char>)
    requires
        q == seq!['a', 'r', 't', 'i', 'c', 'l', 'e', ' '] || q == seq![
            'A',
            'R',
            'T',
            'I',
            'C',
            'L',
            'E',
            ' ',
        ],
        digits.len() > 0,
        forall|i: int| 0 <= i < digits.len() ==> '0' <= #[trigger] digits[i] && digits[i] <= '9',
        rest.len() == 0 || rest[0] == '\r' || rest[0] == '\n' || rest[0] == ' ',
        forall|i: int| !keyword_at(q + digits + rest, i, list_keyword()),
        forall|i: int|
            !pattern_at(q + digits + rest, i, group_keyword(), Some(CharClass::GroupName)),
    ensures
        command_of(q + digits + rest) == Some(CommandView::Article { number: digits }),
{
    let line = q + digits + rest;
    lemma_no_list(line);
    let g = pattern_pred(line, group_keyword(), Some(CharClass::GroupName));
    lemma_first_from(line.len() as int, 0, g);
    if let Some(i) = leftmost(line, group_keyword(), Some(CharClass::GroupName)) {
        assert(g(i));
    }
    let kw = article_keyword();
    assert(line.subrange(0, 8) =~= q);
    assert forall|j: int| 0 <= j < kw.len() implies char_matches(
        #[trigger] line.subrange(0, kw.len() as int)[j],
        kw[j],
    ) by {
        assert(line.subrange(0, 8)[j] == q[j]);
    }
    assert(line[8] == digits[0]);
    let p = pattern_pred(line, kw, Some(CharClass::Digit));
    assert(p(0));
    let e = (8 + digits.len()) as int;
    assert forall|k: int| 8 <= k < e implies in_class(CharClass::Digit, #[trigger] line[k]) by {
        assert(line[k] == digits[k - 8]);
    }
    if e < line.len() {
        assert(line[e] == rest[0]);
    }
    lemma_run_end_exact(line, 8, e, CharClass::Digit);
    assert(line.subrange(8, e) =~= digits);
}

/// Law: a line that holds `list` anywhere, in lower or upper case, is the
/// command that lists the groups, whatever else it holds.
pub proof fn lemma_list_anywhere(before: Seq<char>, k: Seq<char>, after: Seq<char>)
    requires
        k == seq!['l', 'i', 's', 't'] || k == seq!['L', 'I', 'S', 'T'],
    ensures
        command_of(before + k + after) == Some(CommandView::List),
{
    let line = before + k + after;
    let i = before.len() as int;
    let kw = list_keyword();
    assert(line.subrange(i, i + 4) =~= k);
    assert forall|j: int| 0 <= j < kw.len() implies char_matches(
        #[trigger] line.subrange(i, i + kw.len())[j],
        kw[j],
    ) by {}
    let p = pattern_pred(line, kw, None);
    assert(p(i));
    lemma_first_from(line.len() as int, 0, p);
    if leftmost(line, kw, None) is None {
        assert(!p(i));
    }
}

/// Law: a line that holds `help`, or `quit`, in lower or upper case, is that
/// command, as long as it holds no `list`, no `group ` followed by a name
/// and no `article ` followed by a number (and, for `quit`, no `help`).
pub proof fn lemma_help_and_quit_recognized(before: Seq<char>, k: Seq<char>, after: Seq<char>)
    requires
        k == seq!['h', 'e', 'l', 'p'] || k == seq!['H', 'E', 'L', 'P'] || k == seq!['q', 'u', 'i', 't']
            || k == seq!['Q', 'U', 'I', 'T'],
        forall|i: int| !keyword_at(before + k + after, i, list_keyword()),
        forall|i: int|
            !pattern_at(before + k + after, i, group_keyword(), Some(CharClass::GroupName)),
        forall|i: int|
            !pattern_at(before + k + after, i, article_keyword(), Some(CharClass::Digit)),
        (k[0] == 'q' || k[0] == 'Q') ==> forall|i: int|
            !keyword_at(before + k + after, i, help_keyword()),
    ensures
        (k[0] == 'h' || k[0] == 'H') ==> command_of(before + k + after) == Some(CommandView::Help),
        (k[0] == 'q' || k[0] == 'Q') ==> command_of(before + k + after) == Some(CommandView::Quit),
{
    let line = before + k + after;
    lemma_no_list(line);
    let gp = pattern_pred(line, group_keyword(), Some(CharClass::GroupName));
    lemma_first_from(line.len() as int, 0, gp);
    if let Some(i) = leftmost(line, group_keyword(), Some(CharClass::GroupName)) {
        assert(gp(i));
    }
    let ap = pattern_pred(line, article_keyword(), Some(CharClass::Digit));
    lemma_first_from(line.len() as int, 0, ap);
    if let Some(i) = leftmost(line, article_keyword(), Some(CharClass::Digit)) {
        assert(ap(i));
    }
    let i = before.len() as int;
    assert(line.subrange(i, i + 4) =~= k);
    let hp = pattern_pred(line, help_keyword(), None);
    let qp = pattern_pred(line, quit_keyword(), None);
    lemma_first_from(line.len() as int, 0, hp);
    lemma_first_from(line.len() as int, 0, qp);
    if k[0] == 'h' || k[0] == 'H' {
        let kw = help_keyword();
        assert forall|j: int| 0 <= j < kw.len() implies char_matches(
            #[trigger] line.subrange(i, i + kw.len())[j],
            kw[j],
        ) by {}
        assert(hp(i));
    } else {
        if let Some(x) = leftmost(line, help_keyword(), None) {
            assert(hp(x));
        }
        let kw = quit_keyword();
        assert forall|j: int| 0 <= j < kw.len() implies char_matches(
            #[trigger] line.subrange(i, i + kw.len())[j],
            kw[j],
        ) by {}
        assert(qp(i));
    }
}

/// The longest run of characters of `class` that starts at `start`.
fn take_run(line: &Vec<char>, start: usize, class: &CharClass) -> (out: Vec<char>)
    requires
        start <= line@.len(),
    ensures
        start <= run_end(line@, start as int, *class) <= line@.len(),
        out@ == line@.subrange(start as int, run_end(line@, start as int, *class)),
{
    proof {
        lemma_run_end_bounds(line@, start as int, *class);
    }
    let mut out: Vec<char> = Vec::new();
    let mut j = start;
    while j < line.len() && in_class_exec(class, line[j])
        invariant
            start <= j <= line@.len(),
            run_end(line@, start as int, *class) == run_end(line@, j as int, *class),
            out@ == line@.subrange(start as int, j as int),
        decreases line@.len() - j,
    {
        out.push(line[j]);
        j = j + 1;
        assert(out@ =~= line@.subrange(start as int, j as int));
    }
    out
}

/// The command that `line` holds, if any: `list` anywhere in the line comes
/// first, then the leftmost `group ` with a name, then the leftmost
/// `article ` with a number, then `help`, then `quit`.
pub fn recognize(line: &str) -> (cmd: Option<Command>)
    ensures
        match cmd {
            Some(c) => command_of(line@) == Some(c@),
            None => command_of(line@) is None,
        },
{
    let chars = chars_of(line);
    let n = chars.len();
    assert(n == chars@.len());
    let list_kw = ['l', 'i', 's', 't'];
    let group_kw = ['g', 'r', 'o', 'u', 'p', ' '];
    let article_kw = ['a', 'r', 't', 'i', 'c', 'l', 'e', ' '];
    let help_kw = ['h', 'e', 'l', 'p'];
    let quit_kw = ['q', 'u', 'i', 't'];
    assert(help_kw@ =~= help_keyword());
    assert(quit_kw@ =~= quit_keyword());
    assert(list_kw@ =~= list_keyword());
    assert(group_kw@ =~= group_keyword());
    assert(article_kw@ =~= article_keyword());
    if find_leftmost(&chars, &list_kw, &None).is_some() {
        return Some(Command::List);
    }
    if let Some(i) = find_leftmost(&chars, &group_kw, &Some(CharClass::GroupName)) {
        proof {
            lemma_first_from(chars@.len() as int, 0, pattern_pred(chars@, group_kw@, Some(CharClass::GroupName)));
        }
        let name = take_run(&chars, i + 6, &CharClass::GroupName);
        return Some(Command::Group { name: string_of(&name) });
    }
    if let Some(i) = find_leftmost(&chars, &article_kw, &Some(CharClass::Digit)) {
        proof {
            lemma_first_from(chars@.len() as int, 0, pattern_pred(chars@, article_kw@, Some(CharClass::Digit)));
        }
        let number = take_run(&chars, i + 8, &CharClass::Digit);
        return Some(Command::Article { number });
    }
    if find_leftmost(&chars, &help_kw, &None).is_some() {
        return Some(Command::Help);
    }
    if find_leftmost(&chars, &quit_kw, &None).is_some() {
        return Some(Command::Quit);
    }
    None
}

/// Whether `c` is one of the ASCII digits `0` to `9`.
pub open spec fn is_ascii_digit(c: char) -> bool {
    '0' <= c && c <= '9'
}

/// The number that the ASCII digits `s` write in decimal.
pub open spec fn digits_value(s: Seq<char>) -> nat
    decreases s.len(),
{
    if s.len() == 0 {
        0
    } else {
        digits_value(s.drop_last()) * 10 + ((s.last() as int - 48) as nat)
    }
}

/// An article number as a 64-bit integer: `None` unless `s` is a non-empty
/// run of ASCII digits whose value fits.
pub open spec fn article_number(s: Seq<char>) -> Option<u64> {
    if s.len() > 0 && (forall|i: int| 0 <= i < s.len() ==> is_ascii_digit(#[trigger] s[i]))
        && digits_value(s) <= u64::MAX {
        Some(digits_value(s) as u64)
    } else {
        None
    }
}

proof fn lemma_digits_value_prefix(s: Seq<char>, k: int)
    requires
        0 <= k <= s.len(),
        forall|i: int| 0 <= i < s.len() ==> is_ascii_digit(#[trigger] s[i]),
    ensures
        digits_value(s.take(k)) <= digits_value(s),
    decreases s.len(),
{
    if k < s.len() {
        let t = s.drop_last();
        assert(s.take(k) =~= t.take(k));
        assert forall|i: int| 0 <= i < t.len() implies is_ascii_digit(#[trigger] t[i]) by {
            assert(t[i] == s[i]);
        }
        lemma_digits_value_prefix(t, k);
    } else {
        assert(s.take(k) =~= s);
    }
}

/// Law: the decimal digits written for a number read back as that number.
pub proof fn lemma_decimal_reads_back(n: nat)
    ensures
        forall|i: int| 0 <= i < decimal(n).len() ==> is_ascii_digit(#[trigger] decimal(n)[i]),
        digits_value(decimal(n)) == n,
        n <= u64::MAX ==> article_number(decimal(n)) == Some(n as u64),
    decreases n,
{
    let c = digit_char(n % 10);
    assert(c as int == 48 + n % 10);
    if n < 10 {
        assert(decimal(n).drop_last() =~= Seq::<char>::empty());
        assert(decimal(n).last() == c);
        assert(digits_value(decimal(n)) == digits_value(Seq::<char>::empty()) * 10 + ((c as int
            - 48) as nat));
    } else {
        lemma_decimal_reads_back(n / 10);
        let d = decimal(n / 10);
        assert(decimal(n).drop_last() =~= d);
        assert(decimal(n).last() == c);
        assert(n == (n / 10) * 10 + n % 10);
        assert(digits_value(decimal(n)) == digits_value(d) * 10 + ((c as int - 48) as nat));
        assert forall|i: int| 0 <= i < decimal(n).len() implies is_ascii_digit(
            #[trigger] decimal(n)[i],
        ) by {
            if i < d.len() {
                assert(decimal(n)[i] == d[i]);
            }
        }
    }
}

/// The article number that the run of digits `digits` writes in decimal:
/// `None` for an empty run, a digit outside ASCII or a value that does not
/// fit in 64 bits.
pub fn parse_article_number(digits: &Vec<char>) -> (r: Option<u64>)
    ensures
        r == article_number(digits@),
{
    let n = digits.len();
    if n == 0 {
        return None;
    }
    let mut v: u64 = 0;
    let mut i: usize = 0;
    while i < n
        invariant
            n == digits@.len(),
            0 < n,
            i <= n,
            forall|k: int| 0 <= k < i ==> is_ascii_digit(#[trigger] digits@[k]),
            v == digits_value(digits@.take(i as int)),
        decreases n - i,
    {
        let c = digits[i];
        assert(digits@.take(i + 1).drop_last() =~= digits@.take(i as int));
        if !('0' <= c && c <= '9') {
            return None;
        }
        let d = (c as u32 - 48) as u64;
        let next = match v.checked_mul(10) {
            Some(m) => m.checked_add(d),
            None => None,
        };
        match next {
            Some(w) => {
                v = w;
            },
            None => {
                proof {
                    if forall|k: int| 0 <= k < n ==> is_ascii_digit(#[trigger] digits@[k]) {
                        lemma_digits_value_prefix(digits@, i + 1);
                    }
                }
                return None;
            },
        }
        i = i + 1;
    }
    assert(digits@.take(n as int) =~= digits@);
    Some(v)
}

} // verus!
