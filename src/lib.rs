//! Moves a file into a `~/.dotfiles` store, mirroring where it lived under the
//! home directory, and leaves a symbolic link behind.
//!
//! The library computes every path the relocation needs; the filesystem work
//! itself is done by the caller with the values handed back.

pub mod dotfiles;
pub mod laws;
pub mod paths;


pub use dotfiles::{
    build_dotfiles_path, create_dotfile, dotfile_target_path,
    get_relative_path_of_the_parent_directory, home_from, remove_config_path_with_dot,
    resolve_home, DotfileError, Relocation,
};
pub use paths::{file_name, is_rooted, path_segments, push_piece};
