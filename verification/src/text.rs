//! Text primitives of the wire protocol: comparing, cutting at the first
//! space, cutting at every space, and writing numbers in decimal.

use vstd::prelude::*;
use vstd::string::*;
use vstd::utf8::*;

verus! {

/// `i` is the position of the first space of `s`.
pub open spec fn is_first_space(s: Seq<char>, i: int) -> bool {
    &&& 0 <= i < s.len()
    &&& s[i] == ' '
    &&& forall|j: int| 0 <= j < i ==> s[j] != ' '
}

/// `s` holds at least one space.
pub open spec fn has_space(s: Seq<char>) -> bool {
    exists|i: int| is_first_space(s, i)
}

/// The position of the first space of `s`, where it has one.
pub open spec fn first_space(s: Seq<char>) -> int {
    choose|i: int| is_first_space(s, i)
}

/// `s` cut at its first space: what stands before it and what stands after
/// it, the space itself left out. `None` where `s` holds no space.
pub open spec fn split_once(s: Seq<char>) -> Option<(Seq<char>, Seq<char>)> {
    if has_space(s) {
        let i = first_space(s);
        Some((s.subrange(0, i), s.subrange(i + 1, s.len() as int)))
    } else {
        None
    }
}

/// The first word of `s`: what stands before the first space, or all of `s`
/// where it holds no space.
pub open spec fn first_word(s: Seq<char>) -> Seq<char> {
    match split_once(s) {
        Some((head, _)) => head,
        None => s,
    }
}

/// `s` cut at every space. Two spaces in a row enclose an empty piece, and a
/// text without a space is its own single piece, so the result is never empty.
pub open spec fn split_spaces(s: Seq<char>) -> Seq<Seq<char>>
    decreases s.len(),
{
    if has_space(s) {
        let i = first_space(s);
        if 0 <= i < s.len() {
            seq![s.subrange(0, i)] + split_spaces(s.subrange(i + 1, s.len() as int))
        } else {
            seq![s]
        }
    } else {
        seq![s]
    }
}

/// The contents of a list of strings.
pub open spec fn views(v: Seq<String>) -> Seq<Seq<char>> {
    Seq::new(v.len(), |i: int| v[i]@)
}

/// A text has one first space at most: whoever finds it has found
/// `first_space`.
pub proof fn lemma_first_space(s: Seq<char>, i: int)
    requires
        is_first_space(s, i),
    ensures
        has_space(s),
        first_space(s) == i,
        split_once(s) == Some((s.subrange(0, i), s.subrange(i + 1, s.len() as int))),
{
    let k = first_space(s);
    assert(is_first_space(s, k));
    if k < i {
        assert(s[k] != ' ');
    }
    if i < k {
        assert(s[i] != ' ');
    }
}

/// What a cut gives: the text is the head, one space and the tail, and the
/// head holds no space.
pub proof fn lemma_split_once_rejoins(s: Seq<char>)
    requires
        has_space(s),
    ensures
        split_once(s) matches Some((head, tail)) && {
            &&& s == head + seq![' '] + tail
            &&& head.len() + 1 + tail.len() == s.len()
            &&& forall|j: int| 0 <= j < head.len() ==> head[j] != ' '
        },
{
    let i = first_space(s);
    assert(is_first_space(s, i));
    assert(s =~= s.subrange(0, i) + seq![' '] + s.subrange(i + 1, s.len() as int));
}

/// A text without a space is not cut.
pub proof fn lemma_no_space(s: Seq<char>)
    requires
        forall|j: int| 0 <= j < s.len() ==> s[j] != ' ',
    ensures
        !has_space(s),
        split_once(s) is None,
        first_word(s) == s,
        split_spaces(s) == seq![s],
{
    if has_space(s) {
        let k = first_space(s);
        assert(is_first_space(s, k));
        assert(s[k] != ' ');
    }
}

/// Cutting at every space is cutting once and then cutting the rest.
pub proof fn lemma_split_spaces_step(s: Seq<char>)
    ensures
        split_spaces(s) == match split_once(s) {
            Some((head, rest)) => seq![head] + split_spaces(rest),
            None => seq![s],
        },
        split_spaces(s).len() >= 1,
        split_spaces(s)[0] == first_word(s),
{
    if has_space(s) {
        let k = first_space(s);
        assert(is_first_space(s, k));
    }
}

/// Whether two texts hold the same characters.
pub fn equal(a: &str, b: &str) -> (same: bool)
    ensures
        same == (a@ == b@),
{
    let x = a.as_bytes();
    let y = b.as_bytes();
    proof {
        encode_utf8_decode_utf8(a@);
        encode_utf8_decode_utf8(b@);
    }
    if x.len() != y.len() {
        return false;
    }
    let mut i: usize = 0;
    while i < x.len()
        invariant
            x@.len() == y@.len(),
            i <= x@.len(),
            forall|j: int| 0 <= j < i ==> x@[j] == y@[j],
            x@ == encode_utf8(a@),
            y@ == encode_utf8(b@),
            decode_utf8(encode_utf8(a@)) == a@,
            decode_utf8(encode_utf8(b@)) == b@,
        decreases x@.len() - i,
    {
        if x[i] != y[i] {
            return false;
        }
        i = i + 1;
    }
    assert(x@ =~= y@);
    true
}

/// The position of the first space of `s`, counted in characters.
pub fn find_space(s: &str) -> (found: Option<usize>)
    ensures
        found is Some <==> has_space(s@),
        found matches Some(i) ==> is_first_space(s@, i as int) && i == first_space(s@),
{
    let n = s.unicode_len();
    let mut i: usize = 0;
    for c in it: s.chars()
        invariant
            i == it.index(),
            it.seq() == s@,
            n == s@.len(),
            forall|j: int| 0 <= j < i ==> s@[j] != ' ',
    {
        if c == ' ' {
            proof {
                lemma_first_space(s@, i as int);
            }
            return Some(i);
        }
        i = i + 1;
    }
    proof {
        lemma_no_space(s@);
    }
    None
}

/// Cuts `msg` at its first space into the text before it and the text after
/// it. `None` where `msg` holds no space.
pub fn get_cmd(msg: &str) -> (parts: Option<(&str, &str)>)
    ensures
        match parts {
            Some((head, tail)) => split_once(msg@) == Some((head@, tail@)),
            None => split_once(msg@) is None,
        },
{
    match find_space(msg) {
        Some(i) => {
            let n = msg.unicode_len();
            let head = msg.substring_char(0, i);
            let tail = msg.substring_char(i + 1, n);
            Some((head, tail))
        },
        None => None,
    }
}

/// Cuts `s` at every space, keeping empty pieces.
pub fn split_on_spaces(s: &str) -> (pieces: Vec<String>)
    ensures
        views(pieces@) == split_spaces(s@),
{
    let mut pieces: Vec<String> = Vec::new();
    let mut rest: &str = s;
    loop
        invariant
            views(pieces@) + split_spaces(rest@) == split_spaces(s@),
        decreases rest@.len(),
    {
        proof {
            lemma_split_spaces_step(rest@);
            if has_space(rest@) {
                assert(is_first_space(rest@, first_space(rest@)));
            }
        }
        let ghost before = views(pieces@);
        match get_cmd(rest) {
            Some((head, tail)) => {
                pieces.push(head.to_owned());
                assert(views(pieces@) =~= before + seq![head@]);
                rest = tail;
            },
            None => {
                pieces.push(rest.to_owned());
                assert(views(pieces@) =~= before + seq![rest@]);
                return pieces;
            },
        }
    }
}

} // verus!
