//! Paths written as strings: `std::path` splits them into components, the
//! library cleans the components, and `std::path` joins what is left.
use lexiclean::{Component, Lexiclean};
use std::path::{Path, PathBuf};

fn clean(path: &Path) -> PathBuf {
    let components: Vec<Component<_>> = path
        .components()
        .map(|component| match component {
            std::path::Component::Prefix(prefix) => Component::Prefix(prefix.as_os_str()),
            std::path::Component::RootDir => Component::RootDir,
            std::path::Component::CurDir => Component::CurDir,
            std::path::Component::ParentDir => Component::ParentDir,
            std::path::Component::Normal(name) => Component::Normal(name),
        })
        .collect();
    components
        .lexiclean()
        .into_iter()
        .map(|component| match component {
            Component::Prefix(text) | Component::Normal(text) => text,
            Component::RootDir => std::path::Component::RootDir.as_os_str(),
            Component::CurDir => std::path::Component::CurDir.as_os_str(),
            Component::ParentDir => std::path::Component::ParentDir.as_os_str(),
        })
        .collect()
}

fn case(path: &str, want: &str) {
    assert_eq!(clean(Path::new(path)), Path::new(want));
}

#[test]
fn empty_path_maps_to_current_dir() {
    case("", ".");
}

#[test]
fn single_current_dir_is_preserved() {
    case(".", ".");
}

#[test]
fn multiple_current_dirs_are_collapsed() {
    case("././.", ".");
}

#[test]
fn leading_parent_dir_is_preserved() {
    case("..", "..");
}

#[test]
fn multiple_parent_dirs_are_preserved() {
    case("../../..", "../../..");
}

#[test]
fn trailing_slash_is_removed() {
    case("foo/", "foo");
}

#[test]
fn leading_current_dir_is_removed() {
    case("./foo", "foo");
}

#[test]
fn trailing_parent_dir_after_current_dir_is_preserved() {
    case("./..", "..");
}

#[test]
fn trailing_current_dir_is_removed() {
    case("foo/.", "foo");
}

#[test]
fn intermediate_current_dir_is_removed() {
    case("foo/./bar", "foo/bar");
}

#[test]
fn multiple_current_dirs_are_removed() {
    case("././.", ".");
}

#[test]
fn parent_dir_after_root_is_removed() {
    case("/..", "/");
}

#[test]
fn current_dir_after_root_is_removed() {
    case("/.", "/");
}

#[test]
fn multiple_slashes_are_removed() {
    case("//foo//bar//", "/foo/bar");
}

#[test]
fn component_test() {
    assert_eq!(
        format!(
            "{:?}",
            Path::new("//foo//bar//")
                .components()
                .collect::<Vec<std::path::Component>>()
        ),
        "[RootDir, Normal(\"foo\"), Normal(\"bar\")]"
    );
}

#[test]
fn normal_after_root_is_preserved() {
    case("/foo", "/foo");
}

#[test]
fn intermediate_parent_dir_is_removed() {
    case("/foo/../bar", "/bar");
}

#[test]
fn trailing_parent_dir_pops_normal() {
    case("/foo/bar/..", "/foo");
}

#[test]
fn trailing_parent_dir_pops_normal_before_current() {
    case("/foo/bar/./..", "/foo");
}

#[test]
fn normal_is_preserved() {
    case("foo", "foo");
}

#[test]
fn parent_dir_after_normal_is_current() {
    case("foo/..", ".");
}

/// `C:\..` cleans to `C:\`. Only a platform with drive letters splits these
/// strings into a prefix and a root, so the components are written out.
#[test]
fn parent_dir_after_disk_is_removed() {
    let path = vec![
        Component::Prefix("C:"),
        Component::RootDir,
        Component::ParentDir,
    ];
    let want = vec![Component::Prefix("C:"), Component::RootDir];
    assert_eq!(path.lexiclean(), want);
}

#[test]
fn current_dir_before_parent_dirs_is_removed() {
    case("./../..", "../..");
}

#[test]
fn parent_dir_climbs_out_of_a_relative_path() {
    case("foo/../..", "..");
    case("foo/bar/../../../baz", "../baz");
}

#[test]
fn parent_dirs_never_climb_above_the_root() {
    case("/../../foo", "/foo");
    case("/foo/../../..", "/");
}

#[test]
fn names_that_only_look_like_markers_are_kept() {
    case("...", "...");
    case("foo/.../bar", "foo/.../bar");
    case(".foo/..bar", ".foo/..bar");
}

#[test]
fn cleaning_a_cleaned_path_changes_nothing() {
    for path in ["", ".", "..", "a/b/../c", "/a/./b/..", "../a/..", "a/../../b"] {
        let once = clean(Path::new(path));
        assert_eq!(clean(&once), once);
    }
}

#[test]
fn cleaned_path_is_written_without_redundant_parts() {
    assert_eq!(clean(Path::new("")).to_str(), Some("."));
    assert_eq!(clean(Path::new("//foo//bar//")).to_str(), Some("/foo/bar"));
    assert_eq!(clean(Path::new("./a/./b/../c/")).to_str(), Some("a/c"));
    assert_eq!(clean(Path::new("a/../../b")).to_str(), Some("../b"));
}
