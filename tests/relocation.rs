use rdmk::{
    build_dotfiles_path, create_dotfile, dotfile_target_path, file_name,
    get_relative_path_of_the_parent_directory, home_from, is_rooted, path_segments, push_piece,
    remove_config_path_with_dot, DotfileError,
};

fn strings(v: &[&str]) -> Vec<String> {
    v.iter().map(|s| s.to_string()).collect()
}

#[test]
fn nvim_config_without_tag() {
    let plan = create_dotfile(
        "/home/alice/.config/nvim/init.lua",
        "",
        "/home/alice",
        "/home/alice/.config/nvim/init.lua",
    )
    .unwrap();
    assert_eq!(plan.target_dir, "/home/alice/.dotfiles/config/nvim");
    assert_eq!(plan.target_path, "/home/alice/.dotfiles/config/nvim/init.lua");
}

#[test]
fn bashrc_with_shell_tag() {
    let plan = create_dotfile("/home/alice/.bashrc", "shell", "/home/alice", "/home/alice/.bashrc")
        .unwrap();
    assert_eq!(plan.target_dir, "/home/alice/.dotfiles/tag-shell");
    assert_eq!(plan.target_path, "/home/alice/.dotfiles/tag-shell/.bashrc");
}

#[test]
fn tag_nests_directly_below_store() {
    let plain = build_dotfiles_path("/home/bob", "", "/home/bob/.config/app/settings.toml")
        .unwrap();
    let tagged = build_dotfiles_path("/home/bob", "foo", "/home/bob/.config/app/settings.toml")
        .unwrap();
    assert_eq!(plain, "/home/bob/.dotfiles/config/app");
    assert_eq!(tagged, "/home/bob/.dotfiles/tag-foo/config/app");
}

#[test]
fn leading_dot_only_on_first_segment() {
    let config = build_dotfiles_path("/home/bob", "", "/home/bob/.config/app/settings.toml")
        .unwrap();
    assert_eq!(config, "/home/bob/.dotfiles/config/app");
    let hidden = build_dotfiles_path("/home/bob", "", "/home/bob/projects/.hidden/data").unwrap();
    assert_eq!(hidden, "/home/bob/.dotfiles/projects/.hidden");
}

#[test]
fn two_files_share_a_destination() {
    let a = create_dotfile("/home/bob/.config/x/a.toml", "", "/home/bob", "/home/bob/.config/x/a.toml")
        .unwrap();
    let b = create_dotfile("/home/bob/.config/x/b.toml", "", "/home/bob", "/home/bob/.config/x/b.toml")
        .unwrap();
    assert_eq!(a.target_dir, b.target_dir);
    assert_ne!(a.target_path, b.target_path);
}

#[test]
fn outside_home_is_refused() {
    let r = build_dotfiles_path("/home/alice", "", "/etc/hosts");
    assert_eq!(r, Err(DotfileError::OutsideHome));
    let sibling = build_dotfiles_path("/home/alice", "", "/home/alicia/notes.txt");
    assert_eq!(sibling, Err(DotfileError::OutsideHome));
    let relative_home = build_dotfiles_path("home/alice", "", "/home/alice/.vimrc");
    assert_eq!(relative_home, Err(DotfileError::OutsideHome));
}

#[test]
fn home_with_trailing_slash() {
    let d = build_dotfiles_path("/home/alice/", "", "/home/alice/.config/nvim/init.lua").unwrap();
    assert_eq!(d, "/home/alice/.dotfiles/config/nvim");
}

#[test]
fn root_has_no_parent() {
    assert_eq!(build_dotfiles_path("/home/alice", "", "/"), Err(DotfileError::MalformedPath));
}

#[test]
fn source_without_file_name_is_malformed() {
    assert_eq!(
        dotfile_target_path("/home/alice/..", "/home/alice/.dotfiles"),
        Err(DotfileError::MalformedPath)
    );
    assert_eq!(dotfile_target_path("/", "/x"), Err(DotfileError::MalformedPath));
}

#[test]
fn relative_source_keeps_its_name() {
    let t = dotfile_target_path("notes/todo.txt", "/home/alice/.dotfiles").unwrap();
    assert_eq!(t, "/home/alice/.dotfiles/todo.txt");
    let dot = dotfile_target_path("foo.txt/.", "/d").unwrap();
    assert_eq!(dot, "/d/foo.txt");
}

#[test]
fn missing_home_is_reported() {
    assert_eq!(home_from(None), Err(DotfileError::HomeDirectoryNotFound));
    assert_eq!(home_from(Some("/home/zoe".to_string())), Ok("/home/zoe".to_string()));
}

#[test]
fn relative_parent_segments() {
    let rel = get_relative_path_of_the_parent_directory("/home/alice", "/home/alice/a/b/c.txt")
        .unwrap();
    assert_eq!(rel, strings(&["a", "b"]));
    let empty = get_relative_path_of_the_parent_directory("/home/alice", "/home/alice/c.txt")
        .unwrap();
    assert!(empty.is_empty());
}

#[test]
fn dot_removed_from_first_relative_segment() {
    let mut dest = "/s".to_string();
    remove_config_path_with_dot(&strings(&[".local", ".share", "x"]), &mut dest);
    assert_eq!(dest, "/s/local/.share/x");
    let mut same = "/s".to_string();
    remove_config_path_with_dot(&strings(&[]), &mut same);
    assert_eq!(same, "/s");
}

#[test]
fn segments_skip_empty_and_current() {
    assert_eq!(path_segments("/a//b/./c/"), strings(&["a", "b", "c"]));
    assert_eq!(path_segments("./x/.."), strings(&["x", ".."]));
    assert!(path_segments("/").is_empty());
    assert!(path_segments("").is_empty());
}

#[test]
fn rooted_paths() {
    assert!(is_rooted("/x"));
    assert!(!is_rooted("x/"));
    assert!(!is_rooted(""));
}

#[test]
fn pushing_pieces() {
    let mut p = "/a".to_string();
    push_piece(&mut p, "b");
    assert_eq!(p, "/a/b");
    let mut q = "/".to_string();
    push_piece(&mut q, "b");
    assert_eq!(q, "/b");
    let mut e = String::new();
    push_piece(&mut e, "b");
    assert_eq!(e, "b");
}

#[test]
fn file_names() {
    assert_eq!(file_name("/a/b.txt"), Some("b.txt".to_string()));
    assert_eq!(file_name("a/.."), None);
    assert_eq!(file_name("."), None);
    assert_eq!(file_name(""), None);
}
