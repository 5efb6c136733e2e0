//! Paths out of what a file manager pastes or drops.

use vstd::prelude::*;
use vstd::string::*;
use vstd::utf8::{decode_utf8, encode_utf8, valid_utf8};

use crate::order::{holds_text, views};
use crate::path::{join, joined};
use crate::split::{
    begins, behind, first_index, lemma_first_index, parts, split_at_char, starts_with,
    strip_prefix,
};
use crate::text::{
    ascii_lowercase, chars_of, is_whitespace, same_text, text_of, to_ascii_lowercase, trim, trimmed,
    white_space,
};

verus! {

/// `String::from_utf8` succeeds on valid UTF-8 alone, and gives what the bytes encode.
#[verifier::external_body]
pub(crate) fn text_from_utf8(bytes: Vec<u8>) -> (text: Option<String>)
    ensures
        match text {
            Some(text) => valid_utf8(bytes@) && text@ == decode_utf8(bytes@),
            None => !valid_utf8(bytes@),
        },
{
    String::from_utf8(bytes).ok()
}

/// How a token that is being read was opened.
#[derive(Clone, Copy, Debug, PartialEq, Eq, Structural)]
pub enum Quote {
    Bare,
    Single,
    Double,
}

/// A text read so far: the tokens that are complete, and the one that is open.
pub struct Reading {
    pub done: Seq<Seq<char>>,
    pub open: Option<(Quote, Seq<char>)>,
    /// Whether the next character stands for itself.
    pub escaped: bool,
}

impl Reading {
    /// The open token completed; an empty one is dropped.
    pub open spec fn closed(self) -> Reading {
        match self.open {
            Some((_, token)) => Reading {
                done: if token.len() > 0 {
                    self.done.push(token)
                } else {
                    self.done
                },
                open: None,
                escaped: false,
            },
            None => self,
        }
    }

    /// What a character adds.
    pub open spec fn read(self, c: char) -> Reading {
        match self.open {
            None => if white_space(c) {
                self
            } else if c == '\'' {
                Reading { open: Some((Quote::Single, Seq::empty())), escaped: false, ..self }
            } else if c == '"' {
                Reading { open: Some((Quote::Double, Seq::empty())), escaped: false, ..self }
            } else if c == '\\' {
                Reading { open: Some((Quote::Bare, Seq::empty())), escaped: true, ..self }
            } else {
                Reading { open: Some((Quote::Bare, seq![c])), escaped: false, ..self }
            },
            Some((quote, token)) => if self.escaped {
                Reading { open: Some((quote, token.push(c))), escaped: false, ..self }
            } else if ends_token(quote, c) {
                self.closed()
            } else if c == '\\' && quote != Quote::Single {
                Reading { escaped: true, ..self }
            } else {
                Reading { open: Some((quote, token.push(c))), ..self }
            },
        }
    }
}

/// Whether a character ends a token: its quote, or white space where it has none.
pub open spec fn ends_token(quote: Quote, c: char) -> bool {
    match quote {
        Quote::Single => c == '\'',
        Quote::Double => c == '"',
        Quote::Bare => white_space(c),
    }
}

/// The reading of a text.
pub open spec fn reading(text: Seq<char>) -> Reading
    decreases text.len(),
{
    if text.len() == 0 {
        Reading { done: Seq::empty(), open: None, escaped: false }
    } else {
        reading(text.drop_last()).read(text.last())
    }
}

/// The tokens of a text: quoted passages and stretches without white space, in which a
/// backslash outside single quotes makes the next character stand for itself.
pub open spec fn tokens(text: Seq<char>) -> Seq<Seq<char>> {
    reading(text).closed().done
}

/// Splits a text into tokens, as a shell would.
pub fn tokenize_dropped(input: &str) -> (found: Vec<String>)
    ensures
        views(found@) == tokens(input@),
{
    let chars = chars_of(input);
    let mut done: Vec<String> = Vec::new();
    let mut quote: Option<Quote> = None;
    let mut token = String::new();
    let mut escaped: bool = false;
    let mut i: usize = 0;
    assert(views(done@) =~= reading(chars@.take(0)).done);
    while i < chars.len()
        invariant
            i <= chars@.len(),
            views(done@) == reading(chars@.take(i as int)).done,
            escaped == reading(chars@.take(i as int)).escaped,
            quote is None ==> !escaped,
            reading(chars@.take(i as int)).open == match quote {
                Some(quote) => Some((quote, token@)),
                None => None,
            },
            quote is None ==> token@ == Seq::<char>::empty(),
        decreases chars@.len() - i,
    {
        let c = chars[i];
        let ghost before = reading(chars@.take(i as int));
        assert(chars@.take(i + 1).drop_last() =~= chars@.take(i as int));
        let ghost earlier = done@;
        match quote {
            None => {
                if !is_whitespace(c) {
                    if c == '\'' {
                        quote = Some(Quote::Single);
                    } else if c == '"' {
                        quote = Some(Quote::Double);
                    } else {
                        quote = Some(Quote::Bare);
                        if c == '\\' {
                            escaped = true;
                        } else {
                            token.push(c);
                            assert(token@ =~= seq![c]);
                        }
                    }
                }
            },
            Some(open) => {
                if escaped {
                    token.push(c);
                    escaped = false;
                } else if (open == Quote::Single && c == '\'') || (open == Quote::Double && c
                    == '"') || (open == Quote::Bare && is_whitespace(c)) {
                    quote = None;
                    let mut whole = String::new();
                    core::mem::swap(&mut whole, &mut token);
                    if !whole.as_str().is_empty() {
                        done.push(whole);
                        assert(views(done@) =~= views(earlier).push(whole@));
                    }
                    assert(token@ =~= Seq::empty());
                } else if c == '\\' && open != Quote::Single {
                    escaped = true;
                } else {
                    token.push(c);
                }
            },
        }
        i = i + 1;
    }
    assert(chars@.take(i as int) =~= input@);
    let ghost earlier = done@;
    if !token.as_str().is_empty() {
        done.push(token);
        assert(views(done@) =~= views(earlier).push(token@));
    }
    done
}

/// The value of a hexadecimal digit.
pub open spec fn hex_value(byte: u8) -> Option<u8> {
    if 48 <= byte <= 57 {
        Some((byte - 48) as u8)
    } else if 97 <= byte <= 102 {
        Some((byte - 87) as u8)
    } else if 65 <= byte <= 70 {
        Some((byte - 55) as u8)
    } else {
        None
    }
}

fn hex_digit(byte: u8) -> (value: Option<u8>)
    ensures
        value == hex_value(byte),
        value matches Some(v) ==> v < 16,
{
    if 48 <= byte && byte <= 57 {
        Some(byte - 48)
    } else if 97 <= byte && byte <= 102 {
        Some(byte - 87)
    } else if 65 <= byte && byte <= 70 {
        Some(byte - 55)
    } else {
        None
    }
}

/// The number that two characters write in base sixteen; a plus sign may stand for the first
/// digit.
pub open spec fn hex_pair(first: u8, second: u8) -> Option<u8> {
    match (hex_value(first), hex_value(second)) {
        (Some(high), Some(low)) => Some((high * 16 + low) as u8),
        (None, Some(low)) => if first == 43 {
            Some(low)
        } else {
            None
        },
        _ => None,
    }
}

/// Bytes with every `%` and the two digits behind it replaced by the byte they write; `None`
/// where a `%` lacks its digits.
pub open spec fn unescaped(bytes: Seq<u8>) -> Option<Seq<u8>>
    decreases bytes.len(),
{
    if bytes.len() == 0 {
        Some(Seq::empty())
    } else if bytes[0] == 37 {
        if bytes.len() < 3 {
            None
        } else {
            match (hex_pair(bytes[1], bytes[2]), unescaped(bytes.skip(3))) {
                (Some(byte), Some(rest)) => Some(seq![byte] + rest),
                _ => None,
            }
        }
    } else {
        match unescaped(bytes.skip(1)) {
            Some(rest) => Some(seq![bytes[0]] + rest),
            None => None,
        }
    }
}

/// A text with its percent escapes undone; `None` where the escapes are not complete or the
/// bytes are not a text.
pub open spec fn percent_decoded(text: Seq<char>) -> Option<Seq<char>> {
    match unescaped(encode_utf8(text)) {
        Some(bytes) => if valid_utf8(bytes) {
            Some(decode_utf8(bytes))
        } else {
            None
        },
        None => None,
    }
}

/// Undoes the percent escapes of a text.
pub fn percent_decode(input: &str) -> (text: Option<String>)
    ensures
        percent_decoded(input@) == match text {
            Some(text) => Some(text@),
            None => None,
        },
{
    let bytes = input.as_bytes();
    let ghost whole = unescaped(bytes@);
    let mut out: Vec<u8> = Vec::new();
    let mut index: usize = 0;
    assert(bytes@.skip(0) =~= bytes@);
    assert(whole is Some ==> whole->0 =~= out@ + unescaped(bytes@.skip(0))->0);
    while index < bytes.len()
        invariant
            index <= bytes@.len(),
            whole == unescaped(bytes@),
            bytes@ == encode_utf8(input@),
            whole is Some <==> unescaped(bytes@.skip(index as int)) is Some,
            whole is Some ==> whole->0 == out@ + unescaped(bytes@.skip(index as int))->0,
        decreases bytes@.len() - index,
    {
        let ghost rest = bytes@.skip(index as int);
        assert(rest[0] == bytes@[index as int]);
        let ghost before = out@;
        if bytes[index] == 37 {
            if bytes.len() - index < 3 {
                return None;
            }
            assert(rest[1] == bytes@[index + 1] && rest[2] == bytes@[index + 2]);
            let first: u8 = bytes[index + 1];
            let byte: u8 = match (hex_digit(first), hex_digit(bytes[index + 2])) {
                (Some(high), Some(low)) => high * 16 + low,
                (None, Some(low)) => {
                    if first != 43 {
                        return None;
                    }
                    low
                },
                _ => {
                    return None;
                },
            };
            out.push(byte);
            assert(rest.skip(3) =~= bytes@.skip(index + 3));
            index = index + 3;
            assert(hex_pair(rest[1], rest[2]) == Some(byte));
        } else {
            out.push(bytes[index]);
            assert(rest.skip(1) =~= bytes@.skip(index + 1));
            index = index + 1;
        }
        assert(whole is Some ==> whole->0 =~= out@ + unescaped(bytes@.skip(index as int))->0);
    }
    assert(whole->0 =~= out@);
    text_from_utf8(out)
}

/// A text without a percent sign stands for itself.
pub proof fn law_plain_texts_are_kept(text: Seq<char>)
    requires
        forall|i: int| 0 <= i < encode_utf8(text).len() ==> encode_utf8(text)[i] != 37,
    ensures
        percent_decoded(text) == Some(text),
{
    lemma_plain_bytes(encode_utf8(text));
    vstd::utf8::encode_utf8_valid_utf8(text);
    vstd::utf8::encode_utf8_decode_utf8(text);
}

proof fn lemma_plain_bytes(bytes: Seq<u8>)
    requires
        forall|i: int| 0 <= i < bytes.len() ==> bytes[i] != 37,
    ensures
        unescaped(bytes) == Some(bytes),
    decreases bytes.len(),
{
    if bytes.len() > 0 {
        assert forall|i: int| 0 <= i < bytes.skip(1).len() implies bytes.skip(1)[i] != 37 by {
            assert(bytes.skip(1)[i] == bytes[i + 1]);
        }
        lemma_plain_bytes(bytes.skip(1));
        assert(seq![bytes[0]] + bytes.skip(1) =~= bytes);
    } else {
        assert(bytes =~= Seq::empty());
    }
}

/// Whether a text begins with `file:`, in capitals or not.
pub open spec fn names_file_scheme(text: Seq<char>) -> bool {
    text.len() >= 5 && ascii_lowercase(text.take(5)) == "file:"@
}

fn has_file_scheme(text: &str) -> (found: bool)
    ensures
        found == names_file_scheme(text@),
{
    let chars = chars_of(text);
    if chars.len() < 5 {
        return false;
    }
    let lead = text_of(vstd::slice::slice_subrange(&chars, 0, 5));
    assert(lead@ =~= text@.take(5));
    let lower = to_ascii_lowercase(&lead);
    same_text(&lower, "file:")
}

/// What is left of a text up to the first of two characters.
pub open spec fn before_any(text: Seq<char>, a: char, b: char) -> Seq<char> {
    let x = first_index(text, a);
    let y = first_index(text, b);
    text.take(if x < y { x } else { y })
}

fn cut_at(text: &str, a: char, b: char) -> (head: String)
    ensures
        head@ == before_any(text@, a, b),
{
    let chars = chars_of(text);
    let mut head = String::new();
    let mut i: usize = 0;
    proof {
        lemma_first_index(text@, a);
        lemma_first_index(text@, b);
    }
    assert(head@ =~= text@.take(0));
    while i < chars.len() && chars[i] != a && chars[i] != b
        invariant
            i <= chars@.len(),
            chars@ == text@,
            head@ == text@.take(i as int),
            i <= first_index(text@, a) <= text@.len(),
            i <= first_index(text@, b) <= text@.len(),
            first_index(text@, a) < text@.len() ==> text@[first_index(text@, a)] == a,
            first_index(text@, b) < text@.len() ==> text@[first_index(text@, b)] == b,
        decreases chars@.len() - i,
    {
        head.push(chars[i]);
        i = i + 1;
        assert(text@.take(i as int) =~= text@.take(i - 1).push(text@[i - 1]));
    }
    head
}

pub open spec fn or_whole(text: Seq<char>, prefix: Seq<char>) -> Seq<char> {
    match behind(text, prefix) {
        Some(rest) => rest,
        None => text,
    }
}

/// The path in a `file:` address, with its escapes: the host and what follows the path are
/// left out.
pub open spec fn file_uri(text: Seq<char>) -> Option<Seq<char>> {
    let rest = match behind(text, "file:"@) {
        Some(rest) => Some(rest),
        None => behind(text, "FILE:"@),
    };
    match rest {
        Some(rest) => Some(
            before_any(or_whole(or_whole(rest, "//"@), "localhost"@), '?', '#'),
        ),
        None => None,
    }
}

/// A text without either character is not cut.
pub proof fn lemma_nothing_cut(path: Seq<char>)
    requires
        !path.contains('?'),
        !path.contains('#'),
    ensures
        before_any(path, '?', '#') == path,
{
    lemma_first_index(path, '?');
    lemma_first_index(path, '#');
    let x = first_index(path, '?');
    let y = first_index(path, '#');
    if x < path.len() {
        assert(path.contains(path[x]));
    }
    if y < path.len() {
        assert(path.contains(path[y]));
    }
    assert(path.take(path.len() as int) =~= path);
}

/// A text that begins otherwise is no address of a file.
pub proof fn lemma_no_file_uri(text: Seq<char>)
    requires
        text.len() > 0,
        text[0] != 'f',
        text[0] != 'F',
    ensures
        file_uri(text) is None,
{
    reveal_strlit("file:");
    reveal_strlit("FILE:");
    if text.len() >= 5 {
        assert(text.take(5)[0] == text[0]);
        assert("file:"@[0] == 'f' && "FILE:"@[0] == 'F');
    }
}

pub fn strip_file_uri(token: &str) -> (path: Option<String>)
    ensures
        file_uri(token@) == match path {
            Some(path) => Some(path@),
            None => None,
        },
{
    let rest = match strip_prefix(token, "file:") {
        Some(rest) => rest,
        None => match strip_prefix(token, "FILE:") {
            Some(rest) => rest,
            None => {
                return None;
            },
        },
    };
    let rest = match strip_prefix(&rest, "//") {
        Some(rest) => rest,
        None => rest,
    };
    let rest = match strip_prefix(&rest, "localhost") {
        Some(rest) => rest,
        None => rest,
    };
    Some(cut_at(&rest, '?', '#'))
}

/// Whether a token is a path by its looks alone.
pub open spec fn looks_like_path(token: Seq<char>) -> bool {
    names_file_scheme(token) || begins(token, "/"@) || begins(token, "~"@) || begins(token, "./"@)
        || begins(token, "../"@)
}

/// Whether a token is taken for a path, given which paths are there.
pub fn looks_like_dropped_path(original: &str, path: &str, present: &Vec<String>) -> (taken: bool)
    ensures
        taken == (views(present@).contains(path@) || looks_like_path(original@)),
{
    holds_text(present, path) || has_file_scheme(original) || starts_with(original, "/")
        || starts_with(original, "~") || starts_with(original, "./") || starts_with(
        original,
        "../",
    )
}

/// The path that a token stands for, whether or not it is taken for one.
pub open spec fn token_path(token: Seq<char>, home: Option<Seq<char>>) -> Option<Seq<char>> {
    if token.len() == 0 {
        None
    } else if file_uri(token) is Some {
        percent_decoded(file_uri(token)->0)
    } else if token == "~"@ {
        home
    } else if begins(token, "~/"@) {
        match home {
            Some(home) => Some(joined(home, token.skip(2))),
            None => None,
        }
    } else {
        Some(token)
    }
}

/// The path that a dropped token stands for.
pub open spec fn dropped(
    token: Seq<char>,
    home: Option<Seq<char>>,
    present: Seq<Seq<char>>,
) -> Option<Seq<char>> {
    match token_path(trimmed(token), home) {
        Some(path) => if present.contains(path) || looks_like_path(trimmed(token)) {
            Some(path)
        } else {
            None
        },
        None => None,
    }
}

pub open spec fn opt_text(text: Option<&str>) -> Option<Seq<char>> {
    match text {
        Some(text) => Some(text@),
        None => None,
    }
}

fn path_of_token(token: &str, home: Option<&str>) -> (path: Option<String>)
    ensures
        token_path(token@, opt_text(home)) == match path {
            Some(path) => Some(path@),
            None => None,
        },
{
    if token.is_empty() {
        return None;
    }
    if let Some(rest) = strip_file_uri(token) {
        return percent_decode(&rest);
    }
    if same_text(token, "~") {
        return match home {
            Some(home) => Some(home.to_owned()),
            None => None,
        };
    }
    proof {
        reveal_strlit("~/");
    }
    match strip_prefix(token, "~/") {
        Some(rest) => match home {
            Some(home) => Some(join(home, &rest)),
            None => None,
        },
        None => Some(token.to_owned()),
    }
}

/// The path that a dropped token stands for: `home` is the user's folder, and `present` holds
/// paths that are known to be there.
pub fn dropped_path(token: &str, home: Option<&str>, present: &Vec<String>) -> (path: Option<
    String,
>)
    ensures
        dropped(token@, opt_text(home), views(present@)) == match path {
            Some(path) => Some(path@),
            None => None,
        },
{
    let token = trim(token);
    match path_of_token(&token, home) {
        Some(path) => {
            if looks_like_dropped_path(&token, &path, present) {
                Some(path)
            } else {
                None
            }
        },
        None => None,
    }
}

/// The paths that a list of tokens stands for.
pub open spec fn all_dropped(
    tokens: Seq<Seq<char>>,
    home: Option<Seq<char>>,
    present: Seq<Seq<char>>,
) -> Seq<Seq<char>>
    decreases tokens.len(),
{
    if tokens.len() == 0 {
        Seq::empty()
    } else {
        let before = all_dropped(tokens.drop_last(), home, present);
        match dropped(tokens.last(), home, present) {
            Some(path) => before.push(path),
            None => before,
        }
    }
}

fn dropped_paths(tokens: &Vec<String>, home: Option<&str>, present: &Vec<String>) -> (paths: Vec<
    String,
>)
    ensures
        views(paths@) == all_dropped(
            views(tokens@),
            opt_text(home),
            views(present@),
        ),
{
    let mut paths: Vec<String> = Vec::new();
    let ghost all = views(tokens@);
    let mut i: usize = 0;
    assert(views(paths@) =~= all_dropped(
        all.take(0),
        opt_text(home),
        views(present@),
    ));
    while i < tokens.len()
        invariant
            i <= tokens@.len(),
            all == views(tokens@),
            views(paths@) == all_dropped(
                all.take(i as int),
                opt_text(home),
                views(present@),
            ),
        decreases tokens@.len() - i,
    {
        assert(all.take(i + 1).drop_last() =~= all.take(i as int));
        assert(all.take(i + 1).last() == tokens@[i as int]@);
        let ghost earlier = paths@;
        if let Some(path) = dropped_path(&tokens[i], home, present) {
            paths.push(path);
            assert(views(paths@) =~= views(earlier).push(path@));
        }
        i = i + 1;
    }
    assert(all.take(i as int) =~= all);
    paths
}

/// Whether a line of a list of addresses says something.
pub open spec fn says_something(line: Seq<char>) -> bool {
    line.len() > 0 && line[0] != '#'
}

/// The lines of a text that say something, without the white space around them.
pub open spec fn telling_lines(lines: Seq<Seq<char>>) -> Seq<Seq<char>>
    decreases lines.len(),
{
    if lines.len() == 0 {
        Seq::empty()
    } else {
        let before = telling_lines(lines.drop_last());
        let line = trimmed(lines.last());
        if says_something(line) {
            before.push(line)
        } else {
            before
        }
    }
}

/// The paths of a list of addresses: none where no line is a `file:` address.
pub open spec fn uri_list(
    text: Seq<char>,
    home: Option<Seq<char>>,
    present: Seq<Seq<char>>,
) -> Seq<Seq<char>> {
    let lines = telling_lines(parts(text, '\n'));
    if exists|i: int| 0 <= i < lines.len() && names_file_scheme(#[trigger] lines[i]) {
        all_dropped(lines, home, present)
    } else {
        Seq::empty()
    }
}

fn parse_lines(text: &str) -> (lines: Vec<String>)
    ensures
        views(lines@) == telling_lines(parts(text@, '\n')),
{
    let split = split_at_char(text, '\n');
    let ghost all = views(split@);
    let mut lines: Vec<String> = Vec::new();
    let mut i: usize = 0;
    assert(views(lines@) =~= telling_lines(all.take(0)));
    while i < split.len()
        invariant
            i <= split@.len(),
            all == views(split@),
            views(lines@) == telling_lines(all.take(i as int)),
        decreases split@.len() - i,
    {
        assert(all.take(i + 1).drop_last() =~= all.take(i as int));
        assert(all.take(i + 1).last() == split@[i as int]@);
        let ghost earlier = lines@;
        let line = trim(&split[i]);
        let comment = starts_with(&line, "#");
        proof {
            reveal_strlit("#");
            if line@.len() > 0 {
                assert(line@.take(1) =~= seq![line@[0]]);
                assert("#"@ =~= seq!['#']);
                assert(seq![line@[0]][0] == line@[0]);
                assert(seq!['#'][0] == '#');
            }
        }
        if !line.as_str().is_empty() && !comment {
            lines.push(line);
            assert(views(lines@) =~= views(earlier).push(line@));
        }
        i = i + 1;
    }
    assert(all.take(i as int) =~= all);
    lines
}

/// Reads a list of addresses.
pub fn parse_uri_list(text: &str, home: Option<&str>, present: &Vec<String>) -> (paths: Vec<String>)
    ensures
        views(paths@) == uri_list(text@, opt_text(home), views(present@)),
{
    let lines = parse_lines(text);
    let ghost all = views(lines@);
    let mut i: usize = 0;
    while i < lines.len()
        invariant
            i <= lines@.len(),
            all == views(lines@),
            all == telling_lines(parts(text@, '\n')),
            forall|k: int| 0 <= k < i ==> !names_file_scheme(#[trigger] all[k]),
        decreases lines@.len() - i,
    {
        if has_file_scheme(&lines[i]) {
            assert(names_file_scheme(all[i as int]));
            return dropped_paths(&lines, home, present);
        }
        i = i + 1;
    }
    let none: Vec<String> = Vec::new();
    assert(views(none@) =~= Seq::empty());
    none
}

/// The paths in what was pasted or dropped.
pub open spec fn paths_in(
    text: Seq<char>,
    home: Option<Seq<char>>,
    present: Seq<Seq<char>>,
) -> Seq<Seq<char>> {
    let listed = uri_list(text, home, present);
    if listed.len() > 0 {
        listed
    } else {
        all_dropped(tokens(text), home, present)
    }
}

/// Reads what a file manager may paste or drop: lists of `file:` addresses, quoted paths, paths
/// with escaped characters. `home` is the user's folder, and `present` holds those of the paths
/// that `candidate_paths` gives that are there.
pub fn parse_dropped_paths(text: &str, home: Option<&str>, present: &Vec<String>) -> (paths: Vec<
    String,
>)
    ensures
        views(paths@) == paths_in(text@, opt_text(home), views(present@)),
{
    let listed = parse_uri_list(text, home, present);
    assert(views(listed@).len() == listed@.len());
    if listed.len() > 0 {
        return listed;
    }
    let found = tokenize_dropped(text);
    dropped_paths(&found, home, present)
}

/// The paths that a text may stand for, of which it matters whether they are there.
pub open spec fn candidates(
    tokens: Seq<Seq<char>>,
    home: Option<Seq<char>>,
) -> Seq<Seq<char>>
    decreases tokens.len(),
{
    if tokens.len() == 0 {
        Seq::empty()
    } else {
        let before = candidates(tokens.drop_last(), home);
        match token_path(trimmed(tokens.last()), home) {
            Some(path) => before.push(path),
            None => before,
        }
    }
}

fn collect_candidates(tokens: &Vec<String>, home: Option<&str>, paths: &mut Vec<String>)
    ensures
        views(final(paths)@) == views(old(paths)@) + candidates(
            views(tokens@),
            opt_text(home),
        ),
{
    let ghost all = views(tokens@);
    let ghost start = views(paths@);
    let mut i: usize = 0;
    assert(views(paths@) =~= start + candidates(all.take(0), opt_text(home)));
    while i < tokens.len()
        invariant
            i <= tokens@.len(),
            all == views(tokens@),
            views(paths@) == start + candidates(all.take(i as int), opt_text(home)),
        decreases tokens@.len() - i,
    {
        assert(all.take(i + 1).drop_last() =~= all.take(i as int));
        assert(all.take(i + 1).last() == tokens@[i as int]@);
        let ghost earlier = paths@;
        let token = trim(&tokens[i]);
        if let Some(path) = path_of_token(&token, home) {
            paths.push(path);
            assert(views(paths@) =~= views(earlier).push(path@));
        }
        i = i + 1;
        assert(views(paths@) =~= start + candidates(all.take(i as int), opt_text(home)));
    }
    assert(all.take(i as int) =~= all);
}

/// The paths that have to be looked up before a text can be read: those of its lines, then
/// those of its tokens.
pub fn candidate_paths(text: &str, home: Option<&str>) -> (paths: Vec<String>)
    ensures
        views(paths@) == candidates(telling_lines(parts(text@, '\n')), opt_text(home))
            + candidates(tokens(text@), opt_text(home)),
{
    let lines = parse_lines(text);
    let found = tokenize_dropped(text);
    let mut paths: Vec<String> = Vec::new();
    assert(views(paths@) =~= Seq::empty());
    collect_candidates(&lines, home, &mut paths);
    assert(views(paths@) =~= candidates(
        telling_lines(parts(text@, '\n')),
        opt_text(home),
    ));
    collect_candidates(&found, home, &mut paths);
    paths
}

/// Whatever is taken for a path by its looks does not depend on which paths are there.
pub proof fn law_looks_decide(
    token: Seq<char>,
    home: Option<Seq<char>>,
    present: Seq<Seq<char>>,
    other: Seq<Seq<char>>,
)
    requires
        looks_like_path(trimmed(token)),
    ensures
        dropped(token, home, present) == dropped(token, home, other),
        dropped(token, home, present) == token_path(trimmed(token), home),
{
}

proof fn lemma_lookup(
    tokens: Seq<Seq<char>>,
    home: Option<Seq<char>>,
    present: Seq<Seq<char>>,
    other: Seq<Seq<char>>,
    asked: Seq<Seq<char>>,
)
    requires
        forall|i: int|
            0 <= i < candidates(tokens, home).len() ==> asked.contains(
                #[trigger] candidates(tokens, home)[i],
            ),
        forall|path: Seq<char>|
            asked.contains(path) ==> (present.contains(path) <==> other.contains(path)),
    ensures
        all_dropped(tokens, home, present) == all_dropped(tokens, home, other),
    decreases tokens.len(),
{
    if tokens.len() > 0 {
        let before = candidates(tokens.drop_last(), home);
        let all = candidates(tokens, home);
        assert forall|i: int| 0 <= i < before.len() implies asked.contains(
            #[trigger] before[i],
        ) by {
            assert(before[i] == all[i]);
        }
        lemma_lookup(tokens.drop_last(), home, present, other, asked);
        match token_path(trimmed(tokens.last()), home) {
            Some(path) => {
                assert(all[all.len() - 1] == path);
            },
            None => {},
        }
    }
}

/// Only the candidates need to be looked up: two lists of present paths that agree on them
/// give the same paths.
pub proof fn law_candidates_are_enough(
    text: Seq<char>,
    home: Option<Seq<char>>,
    present: Seq<Seq<char>>,
    other: Seq<Seq<char>>,
)
    requires
        forall|path: Seq<char>|
            #![trigger present.contains(path)]
            #![trigger other.contains(path)]
            (candidates(telling_lines(parts(text, '\n')), home) + candidates(
                tokens(text),
                home,
            )).contains(path) ==> (present.contains(path) <==> other.contains(path)),
    ensures
        paths_in(text, home, present) == paths_in(text, home, other),
{
    let lines = telling_lines(parts(text, '\n'));
    let a = candidates(lines, home);
    let b = candidates(tokens(text), home);
    let asked = a + b;
    assert forall|i: int| 0 <= i < a.len() implies asked.contains(#[trigger] a[i]) by {
        assert(asked[i] == a[i]);
    }
    assert forall|i: int| 0 <= i < b.len() implies asked.contains(#[trigger] b[i]) by {
        assert(asked[a.len() + i] == b[i]);
    }
    lemma_lookup(lines, home, present, other, asked);
    lemma_lookup(tokens(text), home, present, other, asked);
}

} // verus!
