//! When two paths name the same place, as far as their spelling tells: doubled and trailing
//! slashes do not matter, nor does a dot that stands for the directory it is in, except as the
//! first piece. Spellings that mean one thing on one system and another on the next are left to
//! the system's own rules.

use vstd::prelude::*;
use vstd::string::StrSliceExecFns;

verus! {

/// The pieces of a path between slashes, empty ones included.
pub open spec fn pieces(path: Seq<char>) -> Seq<Seq<char>>
    decreases path.len(),
{
    if path.len() == 0 {
        seq![Seq::empty()]
    } else {
        let earlier = pieces(path.drop_last());
        if path.last() == '/' {
            earlier.push(Seq::empty())
        } else {
            earlier.drop_last().push(earlier.last().push(path.last()))
        }
    }
}

/// A piece, after so many others, that says nothing about the place.
pub open spec fn says_nothing(piece: Seq<char>, others: int) -> bool {
    piece.len() == 0 || (others > 0 && piece == seq!['.'])
}

/// The pieces that name the place.
pub open spec fn telling(pieces: Seq<Seq<char>>) -> Seq<Seq<char>>
    decreases pieces.len(),
{
    if pieces.len() == 0 {
        Seq::empty()
    } else {
        let earlier = telling(pieces.drop_last());
        if says_nothing(pieces.last(), pieces.len() - 1) {
            earlier
        } else {
            earlier.push(pieces.last())
        }
    }
}

/// The place that a path names: whether it starts at the root, and the way from there.
pub open spec fn place(path: Seq<char>) -> (bool, Seq<Seq<char>>) {
    (path.len() > 0 && path[0] == '/', telling(pieces(path)))
}

/// A spelling that means the same on every system. A backslash separates pieces on some, a colon
/// sets a drive apart, and two slashes in front may name a host.
pub open spec fn is_plain(path: Seq<char>) -> bool {
    &&& !path.contains('\\')
    &&& !path.contains(':')
    &&& !(path.len() > 1 && path[0] == '/' && path[1] == '/')
}

/// The characters of every piece.
pub open spec fn piece_views(pieces: Seq<Vec<char>>) -> Seq<Seq<char>> {
    pieces.map_values(|piece: Vec<char>| piece@)
}

/// The pieces of a path between slashes.
fn split(path: &String) -> (found: Vec<Vec<char>>)
    ensures
        piece_views(found@) == pieces(path@),
{
    let mut done: Vec<Vec<char>> = Vec::new();
    let mut current: Vec<char> = Vec::new();
    let len: usize = path.as_str().unicode_len();
    let mut i: usize = 0;
    assert(piece_views(done@).push(current@) =~= pieces(path@.take(0)));
    while i < len
        invariant
            i <= len == path@.len(),
            piece_views(done@).push(current@) == pieces(path@.take(i as int)),
        decreases len - i,
    {
        let c: char = path.as_str().get_char(i);
        let ghost before = piece_views(done@);
        let ghost read = path@.take(i + 1);
        assert(read.drop_last() =~= path@.take(i as int));
        assert(before.push(current@).drop_last() =~= before);
        if c == '/' {
            let ghost piece = current@;
            let ghost pieces = done@;
            done.push(current);
            current = Vec::new();
            assert(done@ == pieces.push(done@.last()));
            assert(piece_views(done@) =~= before.push(piece));
            assert(current@ =~= Seq::<char>::empty());
        } else {
            current.push(c);
        }
        i = i + 1;
    }
    assert(path@.take(len as int) =~= path@);
    let ghost before = done@;
    let ghost piece = current@;
    done.push(current);
    assert(done@ == before.push(done@.last()));
    assert(piece_views(done@) =~= piece_views(before).push(piece));
    done
}

/// The pieces of a path that name the place.
fn way(path: &String) -> (way: Vec<Vec<char>>)
    ensures
        piece_views(way@) == telling(pieces(path@)),
{
    let all: Vec<Vec<char>> = split(path);
    let mut way: Vec<Vec<char>> = Vec::new();
    let mut i: usize = 0;
    assert(piece_views(way@) =~= telling(piece_views(all@).take(0)));
    while i < all.len()
        invariant
            i <= all@.len(),
            piece_views(way@) == telling(piece_views(all@).take(i as int)),
        decreases all@.len() - i,
    {
        let piece: &Vec<char> = &all[i];
        let ghost before = way@;
        let ghost read = piece_views(all@).take(i + 1);
        assert(read.drop_last() =~= piece_views(all@).take(i as int));
        assert(read.last() == piece@);
        let dot: bool = i > 0 && piece.len() == 1 && piece[0] == '.';
        assert(dot == (i > 0 && piece@ =~= seq!['.']));
        if piece.len() > 0 && !dot {
            let mut copy: Vec<char> = Vec::new();
            crate::samples::append_samples(&mut copy, piece.as_slice());
            assert(copy@ =~= piece@);
            way.push(copy);
            assert(way@ == before.push(copy));
            assert(piece_views(way@) =~= piece_views(before).push(piece@));
        }
        i = i + 1;
    }
    assert(piece_views(all@).take(i as int) =~= piece_views(all@));
    way
}

/// Whether two pieces are the same.
fn same_piece(a: &Vec<char>, b: &Vec<char>) -> (same: bool)
    ensures
        same == (a@ == b@),
{
    if a.len() != b.len() {
        return false;
    }
    let mut i: usize = 0;
    while i < a.len()
        invariant
            i <= a@.len() == b@.len(),
            forall|j: int| 0 <= j < i ==> a@[j] == b@[j],
        decreases a@.len() - i,
    {
        if a[i] != b[i] {
            return false;
        }
        i = i + 1;
    }
    assert(a@ =~= b@);
    true
}

/// Whether a path starts at the root.
fn is_rooted(path: &String) -> (rooted: bool)
    ensures
        rooted == place(path@).0,
{
    path.as_str().unicode_len() > 0 && path.as_str().get_char(0) == '/'
}

/// Whether two paths name the same place where only a slash separates pieces.
pub fn same_place(a: &String, b: &String) -> (same: bool)
    ensures
        same == (place(a@) == place(b@)),
{
    if is_rooted(a) != is_rooted(b) {
        return false;
    }
    let one: Vec<Vec<char>> = way(a);
    let two: Vec<Vec<char>> = way(b);
    let ghost first = piece_views(one@);
    let ghost second = piece_views(two@);
    if one.len() != two.len() {
        assert(first.len() != second.len());
        return false;
    }
    let mut i: usize = 0;
    while i < one.len()
        invariant
            i <= one@.len() == two@.len(),
            first == piece_views(one@),
            second == piece_views(two@),
            first == place(a@).1,
            second == place(b@).1,
            forall|j: int| 0 <= j < i ==> first[j] == second[j],
        decreases one@.len() - i,
    {
        if !same_piece(&one[i], &two[i]) {
            assert(first[i as int] != second[i as int]);
            return false;
        }
        i = i + 1;
    }
    assert(first =~= second);
    true
}

/// Whether a path has a spelling that means the same on every system.
fn has_plain_spelling(path: &String) -> (plain: bool)
    ensures
        plain == is_plain(path@),
{
    let len: usize = path.as_str().unicode_len();
    if len > 1 && path.as_str().get_char(0) == '/' && path.as_str().get_char(1) == '/' {
        return false;
    }
    let mut i: usize = 0;
    while i < len
        invariant
            i <= len == path@.len(),
            forall|j: int| 0 <= j < i ==> path@[j] != '\\' && path@[j] != ':',
        decreases len - i,
    {
        let c: char = path.as_str().get_char(i);
        if c == '\\' || c == ':' {
            assert(path@[i as int] == c);
            return false;
        }
        i = i + 1;
    }
    true
}

/// Equality of `std::path::Path`, which compares paths by the rules of the system that the program
/// runs on. A path equals itself. Which other spellings are equal differs from system to system,
/// and nothing is said of them.
#[verifier::external_body]
fn equal_here(a: &String, b: &String) -> (same: bool)
    ensures
        a@ == b@ ==> same,
{
    std::path::Path::new(a) == std::path::Path::new(b)
}

/// Whether two paths name the same place. Where a spelling means different things on different
/// systems, the one that the program runs on decides.
pub fn names_same_place(a: &String, b: &String) -> (same: bool)
    ensures
        is_plain(a@) && is_plain(b@) ==> same == (place(a@) == place(b@)),
        a@ == b@ ==> same,
{
    if has_plain_spelling(a) && has_plain_spelling(b) {
        same_place(a, b)
    } else {
        equal_here(a, b)
    }
}

/// A slash at the end of a path changes nothing, unless the path is empty.
pub proof fn law_trailing_slash_does_not_matter(path: Seq<char>)
    requires
        path.len() > 0,
    ensures
        place(path.push('/')) == place(path),
{
    assert(path.push('/').drop_last() =~= path);
    assert(pieces(path.push('/')).drop_last() =~= pieces(path));
}

} // verus!
