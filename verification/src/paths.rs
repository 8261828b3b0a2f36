//! Vault-relative paths written with `/`, read the way `std::path::Path` reads
//! a relative Unix path.
use crate::text::{
    deep_chars, join, last_index_of, lemma_last_index_of, spec_join, spec_last_index_of, spec_split, split, sub_chars,
};
use vstd::prelude::*;

verus! {

pub open spec fn is_dot(seg: Seq<char>) -> bool {
    seg.len() == 1 && seg[0] == '.'
}

pub open spec fn is_dot_dot(seg: Seq<char>) -> bool {
    seg.len() == 2 && seg[0] == '.' && seg[1] == '.'
}

/// Whether the `index`-th piece of a path split at `/` is one of its components:
/// empty pieces never are, and `.` only as the very first piece.
pub open spec fn keeps_piece(seg: Seq<char>, first: bool) -> bool {
    seg.len() > 0 && (!is_dot(seg) || first)
}

pub open spec fn spec_filter_pieces(pieces: Seq<Seq<char>>) -> Seq<Seq<char>>
    decreases pieces.len(),
{
    if pieces.len() == 0 {
        Seq::empty()
    } else {
        let rest = spec_filter_pieces(pieces.drop_last());
        if keeps_piece(pieces.last(), pieces.len() == 1) {
            rest.push(pieces.last())
        } else {
            rest
        }
    }
}

/// The components of a path, as `Path::components` lists them.
pub open spec fn spec_components(path: Seq<char>) -> Seq<Seq<char>> {
    spec_filter_pieces(spec_split(path, '/'))
}

/// The last component, unless it is `.` or `..` (`Path::file_name`).
pub open spec fn spec_file_name(path: Seq<char>) -> Option<Seq<char>> {
    let c = spec_components(path);
    if c.len() == 0 || is_dot(c.last()) || is_dot_dot(c.last()) {
        None
    } else {
        Some(c.last())
    }
}

/// The stem and extension of a file name (`Path::file_stem`, `Path::extension`):
/// the split falls at the last `.`, unless that `.` starts the name.
pub open spec fn spec_split_dot(name: Seq<char>) -> (Seq<char>, Option<Seq<char>>) {
    let i = spec_last_index_of(name, '.');
    if i <= 0 {
        (name, None)
    } else {
        (name.take(i), Some(name.skip(i + 1)))
    }
}

pub open spec fn spec_extension(path: Seq<char>) -> Option<Seq<char>> {
    match spec_file_name(path) {
        Some(name) => spec_split_dot(name).1,
        None => None,
    }
}

pub open spec fn spec_file_stem(path: Seq<char>) -> Option<Seq<char>> {
    match spec_file_name(path) {
        Some(name) => Some(spec_split_dot(name).0),
        None => None,
    }
}

/// The parent of a relative path, written with `/` (`Path::parent`, then its
/// components joined); empty when the path has a single component.
pub open spec fn spec_parent(path: Seq<char>) -> Seq<char> {
    let c = spec_components(path);
    if c.len() == 0 {
        Seq::empty()
    } else {
        spec_join(c.drop_last(), '/')
    }
}

pub fn components(path: &[char]) -> (r: Vec<Vec<char>>)
    ensures
        deep_chars(r@) == spec_components(path@),
{
    let pieces = split(path, '/');
    let mut r: Vec<Vec<char>> = Vec::new();
    let mut i: usize = 0;
    while i < pieces.len()
        invariant
            i <= pieces.len(),
            deep_chars(r@) == spec_filter_pieces(deep_chars(pieces@).take(i as int)),
        decreases pieces.len() - i,
    {
        let ghost d = deep_chars(pieces@);
        assert(d.take(i as int + 1).drop_last() == d.take(i as int));
        let piece = &pieces[i];
        let keep = piece.len() > 0 && (!(piece.len() == 1 && piece[0] == '.') || i == 0);
        if keep {
            r.push(piece.clone());
        }
        i = i + 1;
    }
    assert(deep_chars(pieces@).take(pieces.len() as int) == deep_chars(pieces@));
    r
}

pub fn file_name(path: &[char]) -> (r: Option<Vec<char>>)
    ensures
        match r {
            Some(v) => spec_file_name(path@) == Some(v@),
            None => spec_file_name(path@) is None,
        },
{
    let c = components(path);
    if c.len() == 0 {
        return None;
    }
    let last = &c[c.len() - 1];
    assert(last@ == deep_chars(c@).last());
    if (last.len() == 1 && last[0] == '.') || (last.len() == 2 && last[0] == '.' && last[1]
        == '.') {
        None
    } else {
        Some(last.clone())
    }
}

pub fn split_dot(name: &[char]) -> (r: (Vec<char>, Option<Vec<char>>))
    ensures
        r.0@ == spec_split_dot(name@).0,
        match r.1 {
            Some(e) => spec_split_dot(name@).1 == Some(e@),
            None => spec_split_dot(name@).1 is None,
        },
{
    proof {
        lemma_last_index_of(name@, '.');
    }
    let found = last_index_of(name, '.');
    match found {
        Some(i) => {
            if i > 0 {
                assert(i < name@.len());
                assert(i < name.len());
                (sub_chars(name, 0, i), Some(sub_chars(name, i + 1, name.len())))
            } else {
                (sub_chars(name, 0, name.len()), None)
            }
        },
        None => (sub_chars(name, 0, name.len()), None),
    }
}

pub fn extension(path: &[char]) -> (r: Option<Vec<char>>)
    ensures
        match r {
            Some(v) => spec_extension(path@) == Some(v@),
            None => spec_extension(path@) is None,
        },
{
    match file_name(path) {
        Some(name) => split_dot(&name).1,
        None => None,
    }
}

pub fn file_stem(path: &[char]) -> (r: Option<Vec<char>>)
    ensures
        match r {
            Some(v) => spec_file_stem(path@) == Some(v@),
            None => spec_file_stem(path@) is None,
        },
{
    match file_name(path) {
        Some(name) => Some(split_dot(&name).0),
        None => None,
    }
}

pub fn parent(path: &[char]) -> (r: Vec<char>)
    ensures
        r@ == spec_parent(path@),
{
    let mut c = components(path);
    if c.len() == 0 {
        return Vec::new();
    }
    let ghost before = deep_chars(c@);
    c.pop();
    assert(deep_chars(c@) == before.drop_last());
    join(&c, '/')
}

} // verus!

verus! {

pub proof fn lemma_filter_pieces_nonempty(pieces: Seq<Seq<char>>)
    ensures
        forall|i: int|
            0 <= i < spec_filter_pieces(pieces).len() ==> #[trigger] spec_filter_pieces(
                pieces,
            )[i].len() > 0,
    decreases pieces.len(),
{
    if pieces.len() > 0 {
        lemma_filter_pieces_nonempty(pieces.drop_last());
        let rest = spec_filter_pieces(pieces.drop_last());
        let all = spec_filter_pieces(pieces);
        assert forall|i: int| 0 <= i < all.len() implies #[trigger] all[i].len() > 0 by {
            if i < rest.len() {
                assert(all[i] == rest[i]);
            }
        }
    }
}

/// A file name, when there is one, is never empty.
pub proof fn lemma_file_name_nonempty(path: Seq<char>)
    ensures
        spec_file_name(path) matches Some(n) ==> n.len() > 0,
{
    lemma_filter_pieces_nonempty(spec_split(path, '/'));
    let c = spec_components(path);
    if c.len() > 0 {
        assert(c[c.len() - 1].len() > 0);
    }
}

} // verus!
