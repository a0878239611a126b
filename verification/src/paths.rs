//! Paths as text: their segments and their final segment.

use vstd::prelude::*;
use vstd::string::StringExecFns;

verus! {

/// The characters of `text`, in order.
pub fn chars_of(text: &str) -> (chars: Vec<char>)
    ensures
        chars@ == text@,
{
    let mut chars: Vec<char> = Vec::new();
    let rest = text.chars();
    for c in it: rest
        invariant
            it.seq() == text@,
            chars@ == text@.take(it.index()),
    {
        chars.push(c);
    }
    chars
}

/// The pieces into which the occurrences of `separator` cut `text`, from
/// left to right.  There is one piece more than there are separators; a
/// piece is empty where two separators meet and where `text` begins or
/// ends with one.
pub open spec fn segments(text: Seq<char>, separator: char) -> Seq<Seq<char>>
    decreases text.len(),
{
    if text.len() == 0 {
        seq![Seq::empty()]
    } else {
        let before = segments(text.drop_last(), separator);
        if text.last() == separator {
            before.push(Seq::empty())
        } else {
            before.drop_last().push(before.last().push(text.last()))
        }
    }
}

/// Cuts `text` at every `separator`.
pub fn split(text: &str, separator: char) -> (pieces: Vec<String>)
    ensures
        pieces.deep_view() == segments(text@, separator),
{
    let chars = chars_of(text);
    let mut pieces: Vec<String> = Vec::new();
    let mut start: usize = 0;
    let mut at: usize = 0;
    while at < chars.len()
        invariant
            chars@ == text@,
            start <= at <= chars.len(),
            segments(text@.take(at as int), separator).len() > 0,
            pieces.deep_view() == segments(text@.take(at as int), separator).drop_last(),
            segments(text@.take(at as int), separator).last() == text@.subrange(
                start as int,
                at as int,
            ),
        decreases chars.len() - at,
    {
        let ghost old_pieces = pieces.deep_view();
        proof {
            assert(text@.take(at + 1).drop_last() =~= text@.take(at as int));
        }
        if chars[at] == separator {
            let piece = text.substring_char(start, at).to_owned();
            pieces.push(piece);
            start = at + 1;
            proof {
                assert(pieces.deep_view() =~= old_pieces.push(piece@));
            }
        }
        at = at + 1;
    }
    let ghost old_pieces = pieces.deep_view();
    let piece = text.substring_char(start, at).to_owned();
    pieces.push(piece);
    proof {
        assert(text@.take(at as int) =~= text@);
        assert(pieces.deep_view() =~= old_pieces.push(piece@));
    }
    pieces
}

/// `name` under the directory `dir`: a `/` is put between the two unless
/// `dir` is empty or ends with one already.
pub open spec fn joined(dir: Seq<char>, name: Seq<char>) -> Seq<char> {
    if dir.len() == 0 || dir.last() == '/' {
        dir + name
    } else {
        dir + seq!['/'] + name
    }
}

/// Puts `name` under the directory `dir`.
pub fn join(dir: &str, name: &str) -> (path: String)
    ensures
        path@ == joined(dir@, name@),
{
    let chars = chars_of(dir);
    let mut path = dir.to_owned();
    if chars.len() > 0 && chars[chars.len() - 1] != '/' {
        proof {
            reveal_strlit("/");
        }
        path.append("/");
    }
    path.append(name);
    path
}

/// A copy of `texts`.
pub fn copy_texts(texts: &Vec<String>) -> (copy: Vec<String>)
    ensures
        copy.deep_view() == texts.deep_view(),
{
    let mut copy: Vec<String> = Vec::new();
    let mut at: usize = 0;
    while at < texts.len()
        invariant
            at <= texts.len(),
            copy.deep_view() == texts.deep_view().take(at as int),
        decreases texts.len() - at,
    {
        let ghost before = copy.deep_view();
        copy.push(texts[at].clone());
        at = at + 1;
        proof {
            assert(copy.deep_view() =~= before.push(texts[at - 1]@));
        }
    }
    copy
}

/// Whether `piece` names something: it is not empty, and not `.`, which
/// stands for the directory that the path has reached already.
pub open spec fn names_something(piece: Seq<char>) -> bool {
    piece.len() > 0 && piece != seq!['.']
}

/// The last of `pieces` that names something.
pub open spec fn last_naming(pieces: Seq<Seq<char>>) -> Option<Seq<char>>
    decreases pieces.len(),
{
    if pieces.len() == 0 {
        None
    } else if names_something(pieces.last()) {
        Some(pieces.last())
    } else {
        last_naming(pieces.drop_last())
    }
}

/// The final segment of `path`: the last piece between `/` that is neither
/// empty nor `.`.  There is none where no piece is left, and none where
/// that piece is `..`, which names no entry of its own.
pub open spec fn final_segment(path: Seq<char>) -> Option<Seq<char>> {
    match last_naming(segments(path, '/')) {
        Some(piece) => if piece == seq!['.', '.'] {
            None
        } else {
            Some(piece)
        },
        None => None,
    }
}

/// The name under which the directory at `path` is shown.
pub fn display_name(path: &str) -> (name: Option<String>)
    ensures
        name.deep_view() == final_segment(path@),
{
    let pieces = split(path, '/');
    let mut left: usize = pieces.len();
    proof {
        assert(pieces.deep_view().take(left as int) =~= pieces.deep_view());
    }
    while left > 0
        invariant
            left <= pieces.len(),
            pieces.deep_view() == segments(path@, '/'),
            last_naming(segments(path@, '/')) == last_naming(pieces.deep_view().take(left as int)),
        decreases left,
    {
        let ghost upto = pieces.deep_view().take(left as int);
        left = left - 1;
        let chars = chars_of(pieces[left].as_str());
        proof {
            assert(upto.drop_last() =~= pieces.deep_view().take(left as int));
        }
        let dot = chars.len() == 1 && chars[0] == '.';
        proof {
            if dot {
                assert(chars@ =~= seq!['.']);
            }
        }
        if chars.len() > 0 && !dot {
            let parent = chars.len() == 2 && chars[0] == '.' && chars[1] == '.';
            proof {
                if parent {
                    assert(chars@ =~= seq!['.', '.']);
                }
            }
            if parent {
                return None;
            }
            return Some(pieces[left].clone());
        }
    }
    None
}

} // verus!
