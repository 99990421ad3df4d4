//! What holds of the destination paths for every input.
use crate::dotfiles::{
    destination_dir, destination_path, dotfiles_root, relative_parent, store_name, strip_first_dot, tag_dir_name,
    DotfileError,
};
use crate::paths::{
    close_segment, join, join_all, keeps_segment, last_name, rooted, scan, segments,
};
use vstd::prelude::*;

verus! {

/// A piece of text without a separator.
pub open spec fn no_slash(s: Seq<char>) -> bool {
    forall|i: int| 0 <= i < s.len() ==> s[i] != '/'
}

/// A segment a path keeps after a join: kept and free of separators.
pub open spec fn plain_segment(s: Seq<char>) -> bool {
    keeps_segment(s) && no_slash(s)
}

proof fn lemma_scan_extend(a: Seq<char>, b: Seq<char>)
    requires
        no_slash(b),
    ensures
        scan(a + b) == (scan(a).0, scan(a).1 + b),
    decreases b.len(),
{
    if b.len() == 0 {
        assert(a + b =~= a);
        assert(scan(a).1 + b =~= scan(a).1);
    } else {
        let ab = a + b;
        assert(ab.drop_last() =~= a + b.drop_last());
        assert(ab.last() == b.last());
        lemma_scan_extend(a, b.drop_last());
        assert((scan(a).1 + b.drop_last()).push(b.last()) =~= scan(a).1 + b);
    }
}

proof fn lemma_scan_after_slash(a: Seq<char>)
    requires
        a.len() > 0,
        a.last() == '/',
    ensures
        scan(a).1 == Seq::<char>::empty(),
{
}

proof fn lemma_scan_wellformed(p: Seq<char>)
    ensures
        forall|i: int| 0 <= i < scan(p).0.len() ==> plain_segment(#[trigger] scan(p).0[i]),
        no_slash(scan(p).1),
    decreases p.len(),
{
    if p.len() > 0 {
        lemma_scan_wellformed(p.drop_last());
        let (d, c) = scan(p.drop_last());
        if p.last() == '/' {
            if keeps_segment(c) {
                assert(forall|i: int| 0 <= i < d.len() ==> d.push(c)[i] == d[i]);
                assert(d.push(c)[d.len() as int] == c);
            }
        } else {
            assert(forall|i: int| 0 <= i < c.len() ==> c.push(p.last())[i] == c[i]);
        }
    }
}

/// Every segment of a path is kept and holds no separator.
pub proof fn lemma_segments_plain(p: Seq<char>)
    ensures
        forall|i: int| 0 <= i < segments(p).len() ==> plain_segment(#[trigger] segments(p)[i]),
{
    lemma_scan_wellformed(p);
    let (d, c) = scan(p);
    if keeps_segment(c) {
        assert(forall|i: int| 0 <= i < d.len() ==> d.push(c)[i] == d[i]);
    }
}

/// Joining a plain segment onto a path adds exactly that segment.
pub proof fn lemma_segments_join(base: Seq<char>, piece: Seq<char>)
    requires
        plain_segment(piece),
    ensures
        segments(join(base, piece)) == segments(base).push(piece),
{
    if base.len() == 0 {
        assert(base + piece =~= Seq::<char>::empty() + piece);
        lemma_scan_extend(Seq::<char>::empty(), piece);
        assert(Seq::<char>::empty() + piece =~= piece);
    } else if base.last() == '/' {
        lemma_scan_after_slash(base);
        lemma_scan_extend(base, piece);
        assert(Seq::<char>::empty() + piece =~= piece);
    } else {
        let b = base.push('/');
        assert(base + seq!['/'] =~= b);
        assert(b.drop_last() =~= base);
        lemma_scan_extend(b, piece);
        assert(Seq::<char>::empty() + piece =~= piece);
    }
}

/// Joining plain segments one after another adds them in order.
pub proof fn lemma_segments_join_all(base: Seq<char>, pieces: Seq<Seq<char>>)
    requires
        forall|i: int| 0 <= i < pieces.len() ==> plain_segment(#[trigger] pieces[i]),
    ensures
        segments(join_all(base, pieces)) == segments(base) + pieces,
    decreases pieces.len(),
{
    if pieces.len() == 0 {
        assert(segments(base) + pieces =~= segments(base));
    } else {
        lemma_segments_join_all(base, pieces.drop_last());
        lemma_segments_join(join_all(base, pieces.drop_last()), pieces.last());
        assert((segments(base) + pieces.drop_last()).push(pieces.last()) =~= segments(base)
            + pieces);
    }
}

/// Taking the leading `.` off the first segment changes no other segment,
/// and changes the first one only where it starts with `.`.
pub proof fn only_first_segment_loses_dot(rel: Seq<Seq<char>>)
    ensures
        strip_first_dot(rel).len() == rel.len(),
        forall|i: int| 1 <= i < rel.len() ==> #[trigger] strip_first_dot(rel)[i] == rel[i],
        rel.len() > 0 && rel[0].len() > 0 && rel[0][0] == '.' ==> strip_first_dot(rel)[0]
            == rel[0].drop_first(),
        rel.len() > 0 && !(rel[0].len() > 0 && rel[0][0] == '.') ==> strip_first_dot(rel)[0]
            == rel[0],
{
}

/// The relative parent consists of plain segments, and so does it with the
/// first dot taken off, unless its first segment is the parent marker `..`.
proof fn lemma_stripped_plain(home: Seq<char>, canonical: Seq<char>)
    requires
        relative_parent(home, canonical) is Ok,
        relative_parent(home, canonical)->Ok_0.len() > 0 ==> relative_parent(
            home,
            canonical,
        )->Ok_0[0] != seq!['.', '.'],
    ensures
        forall|i: int|
            0 <= i < strip_first_dot(relative_parent(home, canonical)->Ok_0).len()
                ==> plain_segment(
                #[trigger] strip_first_dot(relative_parent(home, canonical)->Ok_0)[i],
            ),
{
    let rel = relative_parent(home, canonical)->Ok_0;
    let cs = segments(canonical);
    let hs = segments(home);
    lemma_segments_plain(canonical);
    assert(forall|i: int| 0 <= i < rel.len() ==> rel[i] == cs[i + hs.len()]);
    assert forall|i: int| 0 <= i < rel.len() implies plain_segment(#[trigger] rel[i]) by {
        assert(plain_segment(cs[i + hs.len()]));
    }
    if rel.len() > 0 && rel[0].len() > 0 && rel[0][0] == '.' {
        let first = rel[0];
        let rest = first.drop_first();
        assert(plain_segment(first));
        assert(no_slash(rest)) by {
            assert(forall|i: int| 0 <= i < rest.len() ==> rest[i] == first[i + 1]);
        }
        assert(rest.len() > 0) by {
            if rest.len() == 0 {
                assert(first =~= seq!['.']);
            }
        }
        assert(rest != seq!['.']) by {
            if rest == seq!['.'] {
                assert(seq!['.'][0] == '.' && seq!['.'].len() == 1);
                assert(first[1] == rest[0]);
                assert(first =~= seq!['.', '.']);
            }
        }
    }
}

/// The store root's segments: home's, then `.dotfiles`, then `tag-<tag>` when
/// a tag is given.
pub proof fn store_root_segments(home: Seq<char>, tag: Seq<char>)
    requires
        no_slash(tag),
    ensures
        tag.len() == 0 ==> segments(dotfiles_root(home, tag)) == segments(home).push(
            store_name(),
        ),
        tag.len() > 0 ==> segments(dotfiles_root(home, tag)) == segments(home).push(
            store_name(),
        ).push(tag_dir_name(tag)),
{
    let s = store_name();
    assert(s[0] == '.' && s.len() == 9 && s[1] == 'd');
    assert(s != seq!['.']) by {
        assert(seq!['.'].len() == 1);
    }
    assert(plain_segment(s));
    lemma_segments_join(home, s);
    if tag.len() > 0 {
        let t = tag_dir_name(tag);
        assert(t.len() == 4 + tag.len());
        assert(t != seq!['.']) by {
            assert(seq!['.'].len() == 1);
        }
        assert(no_slash(t)) by {
            assert(forall|i: int| 4 <= i < t.len() ==> t[i] == tag[i - 4]);
        }
        lemma_segments_join(join(home, s), t);
    }
}

/// The destination directory mirrors the source's parent below home: its
/// segments are those of the store root followed by the parent's segments
/// relative to home, the first without its leading `.`.
pub proof fn destination_mirrors_parent(home: Seq<char>, tag: Seq<char>, canonical: Seq<char>)
    requires
        relative_parent(home, canonical) is Ok,
        relative_parent(home, canonical)->Ok_0.len() > 0 ==> relative_parent(
            home,
            canonical,
        )->Ok_0[0] != seq!['.', '.'],
    ensures
        destination_dir(home, tag, canonical) matches Ok(d) && segments(d) == segments(
            dotfiles_root(home, tag),
        ) + strip_first_dot(relative_parent(home, canonical)->Ok_0),
{
    lemma_stripped_plain(home, canonical);
    lemma_segments_join_all(
        dotfiles_root(home, tag),
        strip_first_dot(relative_parent(home, canonical)->Ok_0),
    );
}

/// A non-empty tag nests the destination under `tag-<tag>` right below
/// `.dotfiles`, and changes nothing else: the tagged destination exists exactly
/// when the untagged one does.
pub proof fn tag_nests_below_store(home: Seq<char>, tag: Seq<char>, canonical: Seq<char>)
    requires
        tag.len() > 0,
        no_slash(tag),
        relative_parent(home, canonical) matches Ok(rel) && (rel.len() > 0 ==> rel[0] != seq![
            '.',
            '.',
        ]),
    ensures
        destination_dir(home, tag, canonical) matches Ok(tagged) && destination_dir(
            home,
            Seq::<char>::empty(),
            canonical,
        ) matches Ok(plain) && segments(tagged) == segments(home).push(store_name()).push(
            tag_dir_name(tag),
        ) + strip_first_dot(relative_parent(home, canonical)->Ok_0) && segments(plain)
            == segments(home).push(store_name()) + strip_first_dot(
            relative_parent(home, canonical)->Ok_0,
        ),
{
    destination_mirrors_parent(home, tag, canonical);
    destination_mirrors_parent(home, Seq::<char>::empty(), canonical);
    store_root_segments(home, tag);
    store_root_segments(home, Seq::<char>::empty());
}

/// Two sources in the same directory go to the same destination directory.
pub proof fn same_parent_same_destination(
    home: Seq<char>,
    tag: Seq<char>,
    first: Seq<char>,
    second: Seq<char>,
)
    requires
        segments(first).len() > 0,
        segments(second).len() > 0,
        segments(first).drop_last() == segments(second).drop_last(),
        rooted(first) == rooted(second),
    ensures
        destination_dir(home, tag, first) == destination_dir(home, tag, second),
{
    let a = segments(first);
    let b = segments(second);
    let k = segments(home).len() as int;
    assert(a.drop_last().len() == b.drop_last().len());
    assert(a.len() == b.len());
    if k <= a.len() - 1 {
        assert(a.subrange(0, k) =~= a.drop_last().subrange(0, k));
        assert(b.subrange(0, k) =~= b.drop_last().subrange(0, k));
        assert(a.subrange(k, a.len() - 1) =~= a.drop_last().subrange(k, a.len() - 1));
        assert(b.subrange(k, b.len() - 1) =~= b.drop_last().subrange(k, b.len() - 1));
    }
    assert(relative_parent(home, first) == relative_parent(home, second));
}

/// A source whose parent is not below home has no destination: it is refused
/// as outside home.
pub proof fn outside_home_is_refused(home: Seq<char>, tag: Seq<char>, canonical: Seq<char>)
    requires
        segments(canonical).len() > 0,
        !(rooted(home) == rooted(canonical) && segments(home).is_prefix_of(
            segments(canonical).drop_last(),
        )),
    ensures
        destination_dir(home, tag, canonical) == Err::<Seq<char>, DotfileError>(
            DotfileError::OutsideHome,
        ),
{
    let cs = segments(canonical);
    let hs = segments(home);
    if rooted(home) == rooted(canonical) && hs.len() <= cs.len() - 1 && cs.subrange(
        0,
        hs.len() as int,
    ) == hs {
        assert(hs =~= cs.drop_last().subrange(0, hs.len() as int));
    }
}

/// The file's new place lies directly in the destination directory and keeps
/// the source's name.
pub proof fn target_keeps_source_name(source: Seq<char>, target_dir: Seq<char>)
    requires
        last_name(source) is Some,
    ensures
        destination_path(source, target_dir) matches Ok(t) && segments(t) == segments(
            target_dir,
        ).push(last_name(source)->Some_0),
{
    lemma_segments_plain(source);
    let s = segments(source);
    assert(plain_segment(s[s.len() - 1]));
    lemma_segments_join(target_dir, s.last());
}

} // verus!
