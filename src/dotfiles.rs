//! Where a file goes in the dotfiles store, and the errors on the way there.
use crate::paths::{
    file_name, is_rooted, join, join_all, last_name, path_segments, push_piece, rooted,
    segments, views,
};
use vstd::prelude::*;

verus! {

/// Why a relocation stopped. Every one of them ends the run.
#[derive(Debug, Clone, Copy, PartialEq, Eq, Structural)]
pub enum DotfileError {
    /// The environment names no home directory.
    HomeDirectoryNotFound,
    /// The source path does not exist or cannot be made canonical.
    PathResolution,
    /// A path lacks the parent or the file name that was expected of it.
    MalformedPath,
    /// The source's parent directory is not inside the home directory.
    OutsideHome,
    /// The destination directory could not be created.
    DirectoryCreation,
    /// The source file could not be renamed into the store.
    MoveFailed,
    /// The symbolic link could not be created after the move.
    LinkCreation,
}

/// The two paths a relocation needs: the directory to create and the file's new place.
pub struct Relocation {
    pub target_dir: String,
    pub target_path: String,
}

/// Name of the store directory directly under home.
pub open spec fn store_name() -> Seq<char> {
    seq!['.', 'd', 'o', 't', 'f', 'i', 'l', 'e', 's']
}

/// Name of the directory that groups the files of one tag.
pub open spec fn tag_dir_name(tag: Seq<char>) -> Seq<char> {
    seq!['t', 'a', 'g', '-'] + tag
}

/// `home/.dotfiles`, with `tag-<tag>` below it when the tag is not empty.
pub open spec fn dotfiles_root(home: Seq<char>, tag: Seq<char>) -> Seq<char> {
    if tag.len() == 0 {
        join(home, store_name())
    } else {
        join(join(home, store_name()), tag_dir_name(tag))
    }
}

/// The canonical source's parent directory, as segments below home.
pub open spec fn relative_parent(home: Seq<char>, canonical: Seq<char>) -> Result<
    Seq<Seq<char>>,
    DotfileError,
> {
    let cs = segments(canonical);
    let hs = segments(home);
    if cs.len() == 0 {
        Err(DotfileError::MalformedPath)
    } else if rooted(home) == rooted(canonical) && hs.len() <= cs.len() - 1 && cs.subrange(
        0,
        hs.len() as int,
    ) == hs {
        Ok(cs.subrange(hs.len() as int, cs.len() - 1))
    } else {
        Err(DotfileError::OutsideHome)
    }
}

/// The segments with one leading `.` taken off the first of them.
pub open spec fn strip_first_dot(rel: Seq<Seq<char>>) -> Seq<Seq<char>> {
    if rel.len() > 0 && rel[0].len() > 0 && rel[0][0] == '.' {
        rel.update(0, rel[0].drop_first())
    } else {
        rel
    }
}

/// The directory of the store that receives the file whose canonical path is given.
pub open spec fn destination_dir(home: Seq<char>, tag: Seq<char>, canonical: Seq<char>) -> Result<
    Seq<char>,
    DotfileError,
> {
    match relative_parent(home, canonical) {
        Ok(rel) => Ok(join_all(dotfiles_root(home, tag), strip_first_dot(rel))),
        Err(e) => Err(e),
    }
}

/// The file's place in the store: its name joined onto the destination directory.
pub open spec fn destination_path(source: Seq<char>, target_dir: Seq<char>) -> Result<
    Seq<char>,
    DotfileError,
> {
    match last_name(source) {
        Some(name) => Ok(join(target_dir, name)),
        None => Err(DotfileError::MalformedPath),
    }
}

/// Relies on dirs::home_dir: the home directory that the environment or the
/// user database gives, if any. Nothing is promised of its contents.
#[verifier::external_body]
fn home_dir() -> (r: Option<String>) {
    dirs::home_dir().map(|p| p.to_string_lossy().into_owned())
}

/// Turns the outcome of a home-directory lookup into the home path or its error.
pub fn home_from(found: Option<String>) -> (r: Result<String, DotfileError>)
    ensures
        found matches Some(h) ==> r matches Ok(s) && s@ == h@,
        found is None ==> r == Err::<String, DotfileError>(DotfileError::HomeDirectoryNotFound),
{
    match found {
        Some(h) => Ok(h),
        None => Err(DotfileError::HomeDirectoryNotFound),
    }
}

/// Looks up the current user's home directory.
pub fn resolve_home() -> (r: Result<String, DotfileError>)
    ensures
        r matches Err(e) ==> e == DotfileError::HomeDirectoryNotFound,
{
    home_from(home_dir())
}

/// The parent of the canonical source path, relative to `home`, as segments.
pub fn get_relative_path_of_the_parent_directory(home: &str, canonical: &str) -> (r: Result<
    Vec<String>,
    DotfileError,
>)
    ensures
        r matches Ok(rel) ==> relative_parent(home@, canonical@) == Ok::<
            Seq<Seq<char>>,
            DotfileError,
        >(views(rel@)),
        r matches Err(e) ==> relative_parent(home@, canonical@) == Err::<
            Seq<Seq<char>>,
            DotfileError,
        >(e),
{
    let cs = path_segments(canonical);
    if cs.len() == 0 {
        return Err(DotfileError::MalformedPath);
    }
    let hs = path_segments(home);
    let parent_len = cs.len() - 1;
    if is_rooted(home) != is_rooted(canonical) || hs.len() > parent_len {
        return Err(DotfileError::OutsideHome);
    }
    let mut i: usize = 0;
    while i < hs.len()
        invariant
            i <= hs.len() <= parent_len < cs.len(),
            views(cs@) == segments(canonical@),
            views(hs@) == segments(home@),
            rooted(home@) == rooted(canonical@),
            forall|j: int| 0 <= j < i ==> hs@[j]@ == cs@[j]@,
        decreases hs.len() - i,
    {
        if hs[i] != cs[i] {
            proof {
                assert(views(cs@).subrange(0, hs.len() as int)[i as int] != views(hs@)[i as int]);
                assert(views(cs@).subrange(0, hs.len() as int) != views(hs@));
            }
            return Err(DotfileError::OutsideHome);
        }
        i = i + 1;
    }
    assert(views(cs@).subrange(0, hs.len() as int) =~= views(hs@));
    let mut rel: Vec<String> = Vec::new();
    let mut k: usize = hs.len();
    while k < parent_len
        invariant
            hs.len() <= k <= parent_len < cs.len(),
            views(cs@) == segments(canonical@),
            views(rel@) =~= views(cs@).subrange(hs.len() as int, k as int),
        decreases parent_len - k,
    {
        let piece = cs[k].clone();
        let ghost prev = views(rel@);
        rel.push(piece);
        assert(views(rel@) == prev.push(piece@));
        k = k + 1;
    }
    Ok(rel)
}

/// Appends the relative segments to `dest`, taking one leading `.` off the
/// first of them so that the store shows formerly hidden directories plainly.
pub fn remove_config_path_with_dot(relative: &Vec<String>, dest: &mut String)
    ensures
        final(dest)@ == join_all(old(dest)@, strip_first_dot(views(relative@))),
{
    let ghost start = dest@;
    let ghost pieces = strip_first_dot(views(relative@));
    let mut i: usize = 0;
    while i < relative.len()
        invariant
            i <= relative.len(),
            pieces == strip_first_dot(views(relative@)),
            pieces.len() == relative@.len(),
            dest@ == join_all(start, pieces.subrange(0, i as int)),
        decreases relative.len() - i,
    {
        let seg = relative[i].as_str();
        let n = seg.unicode_len();
        assert(pieces.subrange(0, i + 1).drop_last() == pieces.subrange(0, i as int));
        if i == 0 && n > 0 && seg.get_char(0) == '.' {
            let rest = seg.substring_char(1, n);
            assert(rest@ =~= pieces[0]);
            push_piece(dest, rest);
        } else {
            push_piece(dest, seg);
        }
        i = i + 1;
    }
    assert(pieces.subrange(0, relative@.len() as int) == pieces);
}

/// Computes the directory of the store for the file whose canonical path is
/// given: `home/.dotfiles[/tag-<tag>]` followed by the file's parent relative
/// to home, its first segment without a leading `.`.
pub fn build_dotfiles_path(home: &str, tag_name: &str, canonical: &str) -> (r: Result<
    String,
    DotfileError,
>)
    ensures
        r matches Ok(d) ==> destination_dir(home@, tag_name@, canonical@) == Ok::<
            Seq<char>,
            DotfileError,
        >(d@),
        r matches Err(e) ==> destination_dir(home@, tag_name@, canonical@) == Err::<
            Seq<char>,
            DotfileError,
        >(e),
{
    let mut target_dir = home.to_owned();
    proof {
        reveal_strlit(".dotfiles");
        reveal_strlit("tag-");
        assert(".dotfiles"@ =~= store_name());
    }
    push_piece(&mut target_dir, ".dotfiles");
    if tag_name.unicode_len() > 0 {
        let mut tag_dir = "tag-".to_owned();
        tag_dir.append(tag_name);
        assert(tag_dir@ =~= tag_dir_name(tag_name@));
        push_piece(&mut target_dir, tag_dir.as_str());
    }
    assert(target_dir@ == dotfiles_root(home@, tag_name@));
    match get_relative_path_of_the_parent_directory(home, canonical) {
        Ok(rel) => {
            remove_config_path_with_dot(&rel, &mut target_dir);
            Ok(target_dir)
        },
        Err(e) => Err(e),
    }
}

/// The file's new place: its name joined onto the store directory.
pub fn dotfile_target_path(source: &str, target_dir: &str) -> (r: Result<String, DotfileError>)
    ensures
        r matches Ok(t) ==> destination_path(source@, target_dir@) == Ok::<
            Seq<char>,
            DotfileError,
        >(t@),
        r matches Err(e) ==> destination_path(source@, target_dir@) == Err::<
            Seq<char>,
            DotfileError,
        >(e),
{
    match file_name(source) {
        Some(name) => {
            let mut target = target_dir.to_owned();
            push_piece(&mut target, name.as_str());
            Ok(target)
        },
        None => Err(DotfileError::MalformedPath),
    }
}

/// Both paths of a relocation, or the first error on the way to them.
pub open spec fn relocation(
    home: Seq<char>,
    tag: Seq<char>,
    source: Seq<char>,
    canonical: Seq<char>,
) -> Result<(Seq<char>, Seq<char>), DotfileError> {
    match destination_dir(home, tag, canonical) {
        Ok(d) => match destination_path(source, d) {
            Ok(t) => Ok((d, t)),
            Err(e) => Err(e),
        },
        Err(e) => Err(e),
    }
}

/// Plans the relocation of `path`, whose canonical form is `canonical`, into
/// the store under `home`, grouped under `tag_name` unless it is empty.
pub fn create_dotfile(path: &str, tag_name: &str, home: &str, canonical: &str) -> (r: Result<
    Relocation,
    DotfileError,
>)
    ensures
        r matches Ok(p) ==> relocation(home@, tag_name@, path@, canonical@) == Ok::<
            (Seq<char>, Seq<char>),
            DotfileError,
        >((p.target_dir@, p.target_path@)),
        r matches Err(e) ==> relocation(home@, tag_name@, path@, canonical@) == Err::<
            (Seq<char>, Seq<char>),
            DotfileError,
        >(e),
{
    let target_dir = match build_dotfiles_path(home, tag_name, canonical) {
        Ok(d) => d,
        Err(e) => return Err(e),
    };
    match dotfile_target_path(path, target_dir.as_str()) {
        Ok(target_path) => Ok(Relocation { target_dir, target_path }),
        Err(e) => Err(e),
    }
}

} // verus!
