//! The base name of a path: the name under which a file is stored in the archive.

use vstd::prelude::*;

use crate::error::{path_of, ArchiveError};

verus! {

/// The text after the last `/` of `p`, or all of `p` where it holds no `/`.
pub open spec fn final_piece(p: Seq<char>) -> Seq<char>
    decreases p.len(),
{
    if p.len() == 0 || p.last() == '/' {
        Seq::empty()
    } else {
        final_piece(p.drop_last()).push(p.last())
    }
}

/// A piece that names nothing on its own: empty (a doubled or trailing `/`) or `.`.
pub open spec fn is_filler_piece(s: Seq<char>) -> bool {
    s.len() == 0 || s == seq!['.']
}

/// The base name of `p`, read as a `/`-separated path: its last piece that is neither
/// empty nor `.`; none where there is no such piece or where that piece is `..`.
pub open spec fn base_name_of(p: Seq<char>) -> Option<Seq<char>>
    decreases p.len(),
{
    let piece = final_piece(p);
    if piece == seq!['.', '.'] {
        None
    } else if !is_filler_piece(piece) {
        Some(piece)
    } else if piece.len() == p.len() {
        None
    } else {
        base_name_of(p.take(p.len() - piece.len() - 1))
    }
}

proof fn lemma_final_piece_len(p: Seq<char>)
    ensures
        final_piece(p).len() <= p.len(),
        final_piece(p) == p.skip(p.len() - final_piece(p).len()),
        final_piece(p).len() < p.len() ==> p[p.len() - final_piece(p).len() - 1] == '/',
    decreases p.len(),
{
    if p.len() != 0 && p.last() != '/' {
        lemma_final_piece_len(p.drop_last());
        assert(final_piece(p) =~= p.skip(p.len() - final_piece(p).len()));
    } else if p.len() != 0 {
        assert(p.skip(p.len() as int) =~= Seq::<char>::empty());
    }
}

/// Where `p[start..]` holds no `/` and `start` begins a piece, that suffix is the final piece.
proof fn lemma_final_piece_from(p: Seq<char>, start: int)
    requires
        0 <= start <= p.len(),
        start == 0 || p[start - 1] == '/',
        forall|k: int| start <= k < p.len() ==> p[k] != '/',
    ensures
        final_piece(p) == p.subrange(start, p.len() as int),
    decreases p.len(),
{
    if p.len() == start {
        if p.len() != 0 {
            assert(p.last() == '/');
        }
        assert(p.subrange(start, p.len() as int) =~= Seq::<char>::empty());
    } else {
        let q = p.drop_last();
        assert forall|k: int| start <= k < q.len() implies q[k] != '/' by {
            assert(q[k] == p[k]);
        }
        if start > 0 {
            assert(q[start - 1] == p[start - 1]);
        }
        lemma_final_piece_from(q, start);
        assert(p.subrange(start, p.len() as int) =~= q.subrange(start, q.len() as int).push(
            p.last(),
        ));
    }
}

/// The base name of `path`, as `base_name_of` gives it.
pub fn base_name(path: &str) -> (r: Option<String>)
    ensures
        r matches Some(s) ==> base_name_of(path@) == Some(s@),
        r is None ==> base_name_of(path@) is None,
{
    let ghost p = path@;
    let n = path.unicode_len();
    let mut end: usize = n;
    assert(p.take(n as int) =~= p);
    loop
        invariant
            n == p.len(),
            p == path@,
            end <= n,
            base_name_of(p.take(end as int)) == base_name_of(p),
        decreases end,
    {
        let ghost q = p.take(end as int);
        let mut start: usize = end;
        while start > 0 && path.get_char(start - 1) != '/'
            invariant
                n == p.len(),
                p == path@,
                start <= end <= n,
                forall|k: int| start <= k < end ==> p[k] != '/',
            decreases start,
        {
            start = start - 1;
        }
        proof {
            assert forall|k: int| start <= k < q.len() implies q[k] != '/' by {
                assert(q[k] == p[k]);
            }
            if start > 0 {
                assert(q[start - 1] == p[start - 1]);
            }
            lemma_final_piece_from(q, start as int);
            assert(q.subrange(start as int, q.len() as int) =~= p.subrange(
                start as int,
                end as int,
            ));
        }
        let len = end - start;
        let is_dot_dot = len == 2 && path.get_char(start) == '.' && path.get_char(start + 1)
            == '.';
        let is_filler = len == 0 || (len == 1 && path.get_char(start) == '.');
        proof {
            let piece = p.subrange(start as int, end as int);
            if len == 2 {
                assert(is_dot_dot <==> piece =~= seq!['.', '.']);
            } else {
                assert(piece.len() != 2);
            }
            if len == 1 {
                assert(piece[0] == p[start as int]);
                assert(is_filler <==> piece =~= seq!['.']);
            }
        }
        if is_dot_dot {
            return None;
        }
        if !is_filler {
            let s = path.substring_char(start, end);
            return Some(s.to_string());
        }
        if start == 0 {
            return None;
        }
        proof {
            assert(q.take(q.len() - (end - start) - 1) =~= p.take(start - 1));
        }
        end = start - 1;
    }
}

/// The name under which the file at `path` is stored: its base name. A path without one
/// (empty, a root, or ending in `..`) is refused with `InvalidFileName`.
pub fn entry_name(path: &str) -> (r: Result<String, ArchiveError>)
    ensures
        r matches Ok(s) ==> base_name_of(path@) == Some(s@),
        base_name_of(path@) is None <==> r is Err,
        r matches Err(e) ==> e is InvalidFileName && path_of(e) == path@,
{
    match base_name(path) {
        Some(s) => Ok(s),
        None => Err(ArchiveError::InvalidFileName { path: path.to_string() }),
    }
}

} // verus!
