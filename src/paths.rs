//! A model of slash-separated paths: a rooted flag and a list of segments.
use vstd::prelude::*;

verus! {

/// A segment that a path keeps: neither empty (doubled or trailing slashes)
/// nor the current-directory marker `.`.
pub open spec fn keeps_segment(c: Seq<char>) -> bool {
    c.len() > 0 && c != seq!['.']
}

/// Adds the segment in progress to those already closed, if it is kept.
pub open spec fn close_segment(done: Seq<Seq<char>>, cur: Seq<char>) -> Seq<Seq<char>> {
    if keeps_segment(cur) {
        done.push(cur)
    } else {
        done
    }
}

/// Reads `p` from the left: the segments closed so far and the one in progress.
pub open spec fn scan(p: Seq<char>) -> (Seq<Seq<char>>, Seq<char>)
    decreases p.len(),
{
    if p.len() == 0 {
        (seq![], seq![])
    } else {
        let (done, cur) = scan(p.drop_last());
        if p.last() == '/' {
            (close_segment(done, cur), seq![])
        } else {
            (done, cur.push(p.last()))
        }
    }
}

/// The segments of a path, in order.
pub open spec fn segments(p: Seq<char>) -> Seq<Seq<char>> {
    close_segment(scan(p).0, scan(p).1)
}

/// A path that starts at the filesystem root.
pub open spec fn rooted(p: Seq<char>) -> bool {
    p.len() > 0 && p[0] == '/'
}

/// Appends a relative piece to a path, with one separator between them.
pub open spec fn join(base: Seq<char>, piece: Seq<char>) -> Seq<char> {
    if base.len() == 0 || base.last() == '/' {
        base + piece
    } else {
        base + seq!['/'] + piece
    }
}

/// Appends each of `pieces` in turn.
pub open spec fn join_all(base: Seq<char>, pieces: Seq<Seq<char>>) -> Seq<char>
    decreases pieces.len(),
{
    if pieces.len() == 0 {
        base
    } else {
        join(join_all(base, pieces.drop_last()), pieces.last())
    }
}

/// The last segment of a path, unless there is none or it is the parent marker `..`.
pub open spec fn last_name(p: Seq<char>) -> Option<Seq<char>> {
    let s = segments(p);
    if s.len() == 0 || s.last() == seq!['.', '.'] {
        None
    } else {
        Some(s.last())
    }
}

/// The text of each string in turn.
pub open spec fn views(v: Seq<String>) -> Seq<Seq<char>> {
    v.map_values(|s: String| s@)
}

/// Whether `p` starts at the filesystem root.
pub fn is_rooted(p: &str) -> (r: bool)
    ensures
        r == rooted(p@),
{
    p.unicode_len() > 0 && p.get_char(0) == '/'
}

/// Splits `p` into its segments.
pub fn path_segments(p: &str) -> (r: Vec<String>)
    ensures
        views(r@) == segments(p@),
{
    let n = p.unicode_len();
    let mut out: Vec<String> = Vec::new();
    let mut start: usize = 0;
    let mut i: usize = 0;
    while i < n
        invariant
            n == p@.len(),
            start <= i <= n,
            scan(p@.subrange(0, i as int)) == (views(out@), p@.subrange(start as int, i as int)),
        decreases n - i,
    {
        let ch = p.get_char(i);
        let ghost before = p@.subrange(0, i as int);
        assert(p@.subrange(0, i + 1).drop_last() == before);
        assert(p@.subrange(0, i + 1).last() == ch);
        if ch == '/' {
            if i > start && !(i == start + 1 && p.get_char(start) == '.') {
                let piece = p.substring_char(start, i).to_owned();
                proof {
                    let cur = p@.subrange(start as int, i as int);
                    assert(cur != seq!['.']) by {
                        assert(seq!['.'].len() == 1 && seq!['.'][0] == '.');
                        if i == start + 1 {
                            assert(cur[0] == p@[start as int]);
                        }
                    }
                }
                let ghost prev = views(out@);
                out.push(piece);
                assert(views(out@) == prev.push(piece@));
            } else {
                proof {
                    let cur = p@.subrange(start as int, i as int);
                    if i == start + 1 {
                        assert(cur =~= seq!['.']);
                    }
                }
            }
            start = i + 1;
        } else {
            assert(p@.subrange(start as int, i + 1) == p@.subrange(start as int, i as int).push(ch));
        }
        i = i + 1;
    }
    assert(p@.subrange(0, n as int) == p@);
    let ghost done = views(out@);
    if n > start && !(n == start + 1 && p.get_char(start) == '.') {
        let piece = p.substring_char(start, n).to_owned();
        proof {
            let cur = p@.subrange(start as int, n as int);
            assert(cur != seq!['.']) by {
                assert(seq!['.'].len() == 1 && seq!['.'][0] == '.');
                if n == start + 1 {
                    assert(cur[0] == p@[start as int]);
                }
            }
        }
        out.push(piece);
        assert(views(out@) == done.push(piece@));
    } else {
        proof {
            let cur = p@.subrange(start as int, n as int);
            if n == start + 1 {
                assert(cur =~= seq!['.']);
            }
        }
    }
    out
}

/// Appends `piece` to `base` as a path buffer does with a relative piece.
pub fn push_piece(base: &mut String, piece: &str)
    ensures
        final(base)@ == join(old(base)@, piece@),
{
    let n = base.as_str().unicode_len();
    if n > 0 && base.as_str().get_char(n - 1) != '/' {
        proof {
            reveal_strlit("/");
        }
        base.append("/");
    }
    base.append(piece);
}

/// The name a path ends in: its last segment, unless it is `..` or absent.
pub fn file_name(p: &str) -> (r: Option<String>)
    ensures
        r matches Some(s) ==> last_name(p@) == Some(s@),
        r is None ==> last_name(p@) is None,
{
    let mut s = path_segments(p);
    if s.len() == 0 {
        return None;
    }
    let ghost all = s@;
    let last = s.pop().unwrap();
    assert(views(all).last() == last@);
    let name = last.as_str();
    let parent_marker = name.unicode_len() == 2 && name.get_char(0) == '.' && name.get_char(1)
        == '.';
    proof {
        let dots = seq!['.', '.'];
        assert(dots.len() == 2 && dots[0] == '.' && dots[1] == '.');
        if parent_marker {
            assert(last@ =~= dots);
        }
    }
    if parent_marker {
        None
    } else {
        Some(last)
    }
}

} // verus!
