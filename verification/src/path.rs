//! Paths in text form, with `/` between their components.

use vstd::prelude::*;
use vstd::slice::slice_subrange;
use vstd::string::*;

use crate::order::{lemma_filter_take, views};
use crate::split::{lemma_pieces, only, parts, split_at_char};
use crate::text::{chars_of, same_text, text_of};

verus! {

/// The last position of `c`, or -1 where it does not occur.
pub open spec fn last_index_of(s: Seq<char>, c: char) -> int
    decreases s.len(),
{
    if s.len() == 0 {
        -1
    } else if s.last() == c {
        s.len() - 1
    } else {
        last_index_of(s.drop_last(), c)
    }
}

/// The last component of a path, where it names an entry. Empty components and
/// `.` are passed over; a path that ends in `..` names none.
pub open spec fn file_name_of(path: Seq<char>) -> Option<Seq<char>>
    decreases path.len(),
{
    let cut = last_index_of(path, '/');
    let tail = path.skip(cut + 1);
    if cut < -1 || cut >= path.len() {
        None
    } else if tail.len() == 0 || tail == seq!['.'] {
        if cut < 0 {
            None
        } else {
            file_name_of(path.take(cut))
        }
    } else if tail == seq!['.', '.'] {
        None
    } else {
        Some(tail)
    }
}

/// The part of a file name before its last dot; the whole name where the only dot
/// stands in front or there is none.
pub open spec fn stem_of_name(name: Seq<char>) -> Seq<char> {
    let dot = last_index_of(name, '.');
    if dot <= 0 {
        name
    } else {
        name.take(dot)
    }
}

/// The part of a file name behind its last dot, unless that dot stands in front.
pub open spec fn extension_of_name(name: Seq<char>) -> Option<Seq<char>> {
    let dot = last_index_of(name, '.');
    if dot <= 0 {
        None
    } else {
        Some(name.skip(dot + 1))
    }
}

pub open spec fn extension_of(path: Seq<char>) -> Option<Seq<char>> {
    match file_name_of(path) {
        Some(name) => extension_of_name(name),
        None => None,
    }
}

pub open spec fn stem_of(path: Seq<char>) -> Option<Seq<char>> {
    match file_name_of(path) {
        Some(name) => Some(stem_of_name(name)),
        None => None,
    }
}

/// `tail` put below `base`; an absolute `tail` stands alone.
pub open spec fn joined(base: Seq<char>, tail: Seq<char>) -> Seq<char> {
    if tail.len() > 0 && tail[0] == '/' {
        tail
    } else if base.len() == 0 || base.last() == '/' {
        base + tail
    } else {
        base.push('/') + tail
    }
}

pub proof fn lemma_last_index_of(s: Seq<char>, c: char)
    ensures
        -1 <= last_index_of(s, c) < s.len(),
        last_index_of(s, c) >= 0 ==> s[last_index_of(s, c)] == c,
        forall|i: int| last_index_of(s, c) < i < s.len() ==> s[i] != c,
    decreases s.len(),
{
    if s.len() > 0 && s.last() != c {
        lemma_last_index_of(s.drop_last(), c);
        assert forall|i: int| last_index_of(s, c) < i < s.len() implies s[i] != c by {
            if i < s.len() - 1 {
                assert(s.drop_last()[i] == s[i]);
            }
        }
    }
}

/// The last position of `c` among the first `end` characters, plus one; 0 where it
/// does not occur.
pub(crate) fn after_last(chars: &[char], end: usize, c: char) -> (at: usize)
    requires
        end <= chars@.len(),
    ensures
        at == last_index_of(chars@.take(end as int), c) + 1,
        at <= end,
{
    let mut at: usize = end;
    while at > 0 && chars[at - 1] != c
        invariant
            at <= end <= chars@.len(),
            last_index_of(chars@.take(end as int), c) == last_index_of(chars@.take(at as int), c),
        decreases at,
    {
        assert(chars@.take(at as int).drop_last() =~= chars@.take(at - 1));
        at = at - 1;
    }
    at
}

/// The last component of a path, where it names an entry.
pub fn file_name(path: &str) -> (name: Option<String>)
    ensures
        name is Some == file_name_of(path@) is Some,
        name is Some ==> name->0@ == file_name_of(path@)->0,
{
    let chars = chars_of(path);
    let mut end: usize = chars.len();
    assert(chars@.take(end as int) =~= chars@);
    loop
        invariant
            end <= chars@.len(),
            chars@ == path@,
            file_name_of(chars@.take(end as int)) == file_name_of(path@),
        decreases end,
    {
        let start: usize = after_last(&chars, end, '/');
        let ghost whole = chars@.take(end as int);
        let tail = slice_subrange(&chars, start, end);
        assert(whole.skip(start as int) =~= tail@);
        if tail.len() == 0 || (tail.len() == 1 && tail[0] == '.') {
            assert(tail.len() == 1 ==> tail@ =~= seq!['.']);
            if start == 0 {
                return None;
            }
            end = start - 1;
            assert(whole.take(start - 1) =~= chars@.take(end as int));
        } else if tail.len() == 2 && tail[0] == '.' && tail[1] == '.' {
            assert(tail@ =~= seq!['.', '.']);
            return None;
        } else {
            assert(tail@.len() == 1 ==> tail@ != seq!['.']);
            return Some(text_of(tail));
        }
    }
}

fn name_extension(name: &str) -> (extension: Option<String>)
    ensures
        extension is Some == extension_of_name(name@) is Some,
        extension is Some ==> extension->0@ == extension_of_name(name@)->0,
{
    let chars = chars_of(name);
    let behind: usize = after_last(&chars, chars.len(), '.');
    assert(chars@.take(chars@.len() as int) =~= name@);
    if behind <= 1 {
        None
    } else {
        assert(name@.skip(behind as int) =~= chars@.subrange(behind as int, chars@.len() as int));
        Some(text_of(slice_subrange(&chars, behind, chars.len())))
    }
}

fn name_stem(name: &str) -> (stem: String)
    ensures
        stem@ == stem_of_name(name@),
{
    let chars = chars_of(name);
    let behind: usize = after_last(&chars, chars.len(), '.');
    assert(chars@.take(chars@.len() as int) =~= name@);
    if behind <= 1 {
        name.to_owned()
    } else {
        assert(name@.take(behind - 1) =~= chars@.subrange(0, behind - 1));
        text_of(slice_subrange(&chars, 0, behind - 1))
    }
}

/// What stands behind the last dot of the file name.
pub fn extension(path: &str) -> (extension: Option<String>)
    ensures
        extension is Some == extension_of(path@) is Some,
        extension is Some ==> extension->0@ == extension_of(path@)->0,
{
    match file_name(path) {
        Some(name) => name_extension(&name),
        None => None,
    }
}

/// The file name without its extension.
pub fn file_stem(path: &str) -> (stem: Option<String>)
    ensures
        stem is Some == stem_of(path@) is Some,
        stem is Some ==> stem->0@ == stem_of(path@)->0,
{
    match file_name(path) {
        Some(name) => Some(name_stem(&name)),
        None => None,
    }
}

/// Puts `tail` below `base`.
pub fn join(base: &str, tail: &str) -> (path: String)
    ensures
        path@ == joined(base@, tail@),
{
    let tail_chars = chars_of(tail);
    if tail_chars.len() > 0 && tail_chars[0] == '/' {
        return tail.to_owned();
    }
    let base_chars = chars_of(base);
    let mut path = base.to_owned();
    if base_chars.len() > 0 && base_chars[base_chars.len() - 1] != '/' {
        path.push('/');
    }
    path.append(tail);
    path
}

/// A path without what trails behind its last component: separators and `.`.
pub open spec fn without_tail(path: Seq<char>) -> Seq<char>
    decreases path.len(),
{
    let n = path.len() as int;
    if n > 1 && (path[n - 1] == '/' || (path[n - 1] == '.' && path[n - 2] == '/')) {
        without_tail(path.drop_last())
    } else {
        path
    }
}

/// The path without its last component; the root and the empty path have none.
pub open spec fn parent_of(path: Seq<char>) -> Option<Seq<char>> {
    let core = without_tail(path);
    let cut = last_index_of(core, '/');
    if core.len() == 0 || core == seq!['/'] {
        None
    } else if cut < 0 {
        Some(Seq::empty())
    } else {
        Some(without_tail(core.take(cut + 1)))
    }
}

fn tail_start(chars: &[char], end: usize) -> (at: usize)
    requires
        end <= chars@.len(),
    ensures
        at <= end,
        chars@.take(at as int) == without_tail(chars@.take(end as int)),
{
    let mut at: usize = end;
    while at > 1 && (chars[at - 1] == '/' || (chars[at - 1] == '.' && chars[at - 2] == '/'))
        invariant
            at <= end <= chars@.len(),
            without_tail(chars@.take(at as int)) == without_tail(chars@.take(end as int)),
        decreases at,
    {
        assert(chars@.take(at as int).drop_last() =~= chars@.take(at - 1));
        at = at - 1;
    }
    at
}

/// The path without its last component.
pub fn parent(path: &str) -> (parent: Option<String>)
    ensures
        parent is Some == parent_of(path@) is Some,
        parent is Some ==> parent->0@ == parent_of(path@)->0,
{
    let chars = chars_of(path);
    assert(chars@.take(chars@.len() as int) =~= path@);
    let end: usize = tail_start(&chars, chars.len());
    let ghost core = chars@.take(end as int);
    if end == 0 {
        return None;
    }
    if end == 1 && chars[0] == '/' {
        assert(core =~= seq!['/']);
        return None;
    }
    assert(core.len() == 1 ==> core[0] == chars@[0]);
    assert(core != seq!['/']);
    let cut: usize = after_last(&chars, end, '/');
    if cut == 0 {
        let parent = String::new();
        assert(parent@ =~= Seq::<char>::empty());
        return Some(parent);
    }
    assert(core.take(cut as int) =~= chars@.take(cut as int));
    let last: usize = tail_start(&chars, cut);
    assert(chars@.subrange(0, last as int) =~= chars@.take(last as int));
    Some(text_of(slice_subrange(&chars, 0, last)))
}

/// What a path is told by: where it starts, and the names on the way.
#[verifier::ext_equal]
pub struct PathParts {
    pub absolute: bool,
    pub dotted: bool,
    pub names: Seq<Seq<char>>,
}

/// Whether a piece between separators is a step on the way.
pub open spec fn step() -> spec_fn(Seq<char>) -> bool {
    |piece: Seq<char>| piece.len() > 0 && piece != "."@
}

/// Empty pieces and `.` are passed over, but for a `.` in front.
pub open spec fn path_parts(path: Seq<char>) -> PathParts {
    let pieces = parts(path, '/');
    PathParts {
        absolute: path.len() > 0 && path[0] == '/',
        dotted: pieces[0] == "."@,
        names: pieces.filter(step()),
    }
}

/// Whether two texts name the same path: it does not matter how often a separator stands
/// between two names, nor whether one trails.
pub open spec fn path_equal(a: Seq<char>, b: Seq<char>) -> bool {
    path_parts(a) == path_parts(b)
}

fn names_of(pieces: &Vec<String>) -> (names: Vec<String>)
    ensures
        views(names@) == views(pieces@).filter(step()),
{
    let ghost all = views(pieces@);
    let mut names: Vec<String> = Vec::new();
    let mut i: usize = 0;
    proof {
        reveal(Seq::filter);
    }
    assert(views(names@) =~= all.take(0).filter(step()));
    while i < pieces.len()
        invariant
            i <= pieces@.len(),
            all == views(pieces@),
            views(names@) == all.take(i as int).filter(step()),
        decreases pieces@.len() - i,
    {
        proof {
            lemma_filter_take(all, step(), i as int);
        }
        let ghost earlier = names@;
        if !pieces[i].as_str().is_empty() && !same_text(&pieces[i], ".") {
            names.push(pieces[i].clone());
            assert(views(names@) =~= views(earlier).push(all[i as int]));
        }
        i = i + 1;
    }
    assert(all.take(i as int) =~= all);
    names
}

fn same_texts(a: &Vec<String>, b: &Vec<String>) -> (same: bool)
    ensures
        same == (views(a@) == views(b@)),
{
    assert(views(a@).len() == a@.len() && views(b@).len() == b@.len());
    if a.len() != b.len() {
        return false;
    }
    let mut i: usize = 0;
    while i < a.len()
        invariant
            i <= a@.len(),
            a@.len() == b@.len(),
            forall|k: int| 0 <= k < i ==> views(a@)[k] == #[trigger] views(b@)[k],
        decreases a@.len() - i,
    {
        if !same_text(&a[i], &b[i]) {
            assert(views(a@)[i as int] != views(b@)[i as int]);
            return false;
        }
        i = i + 1;
    }
    assert(views(a@) =~= views(b@));
    true
}

fn is_absolute(path: &str) -> (absolute: bool)
    ensures
        absolute == (path@.len() > 0 && path@[0] == '/'),
{
    let chars = chars_of(path);
    chars.len() > 0 && chars[0] == '/'
}

/// Whether two texts name the same path.
pub fn same_path(a: &str, b: &str) -> (same: bool)
    ensures
        same == path_equal(a@, b@),
{
    proof {
        lemma_pieces(a@, only('/'));
        lemma_pieces(b@, only('/'));
    }
    let left = split_at_char(a, '/');
    let right = split_at_char(b, '/');
    assert(views(left@).len() == left@.len() && views(right@).len() == right@.len());
    let dotted = same_text(&left[0], ".");
    let same = is_absolute(a) == is_absolute(b) && dotted == same_text(&right[0], ".")
        && same_texts(&names_of(&left), &names_of(&right));
    assert(same ==> path_parts(a@) =~= path_parts(b@));
    same
}

} // verus!
