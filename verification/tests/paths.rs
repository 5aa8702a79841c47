use wots::entry::{is_plain, DirectoryEntry};
use wots::path::{absolute, components, file_name, join, strip_prefix};
use wots::text::{chars_of, slice, split_marks};

fn strings(items: &[&str]) -> Vec<String> {
    items.iter().map(|s| s.to_string()).collect()
}

#[test]
fn join_puts_one_separator_between() {
    assert_eq!(join("/home/u", "a"), "/home/u/a");
    assert_eq!(join("/home/u/", "a"), "/home/u/a");
    assert_eq!(join("/", "a"), "/a");
    assert_eq!(join("", "a"), "a");
    assert_eq!(join(".", "a"), "./a");
    assert_eq!(join("/home/u", ""), "/home/u/");
}

#[test]
fn join_lets_an_absolute_name_stand() {
    assert_eq!(join("/home/u", "/etc/a"), "/etc/a");
}

#[test]
fn strip_prefix_gives_what_lies_under_the_root() {
    assert_eq!(strip_prefix("/proj/a", "/proj"), Some("a".to_string()));
    assert_eq!(strip_prefix("/proj/a/b", "/proj"), Some("a/b".to_string()));
    assert_eq!(strip_prefix("/proj/a", "/proj/"), Some("a".to_string()));
    assert_eq!(strip_prefix("/proj//a", "/proj"), Some("a".to_string()));
    assert_eq!(strip_prefix("./a", "."), Some("a".to_string()));
    assert_eq!(strip_prefix("/a", "/"), Some("a".to_string()));
    assert_eq!(strip_prefix("/proj", "/proj"), Some("".to_string()));
    assert_eq!(strip_prefix("a", ""), Some("a".to_string()));
}

#[test]
fn strip_prefix_rejects_what_lies_elsewhere() {
    assert_eq!(strip_prefix("/projects/a", "/proj"), None);
    assert_eq!(strip_prefix("/other/a", "/proj"), None);
    assert_eq!(strip_prefix("/pro", "/proj"), None);
    assert_eq!(strip_prefix("a", "/proj"), None);
}

#[test]
fn components_drop_empty_and_dot_pieces() {
    assert_eq!(components("/a//b/./c/"), strings(&["a", "b", "c"]));
    assert_eq!(components("./a/../b"), strings(&["a", "..", "b"]));
    assert_eq!(components(""), strings(&[]));
    assert_eq!(components("/"), strings(&[]));
    assert_eq!(components("."), strings(&[]));
    assert_eq!(components(".a/b."), strings(&[".a", "b."]));
}

#[test]
fn file_name_is_the_final_component() {
    assert_eq!(file_name("/proj/a.txt"), Some("a.txt".to_string()));
    assert_eq!(file_name("nvim"), Some("nvim".to_string()));
    assert_eq!(file_name("nvim/"), Some("nvim".to_string()));
    assert_eq!(file_name("./nvim"), Some("nvim".to_string()));
    assert_eq!(file_name("nvim/."), Some("nvim".to_string()));
    assert_eq!(file_name(".bashrc"), Some(".bashrc".to_string()));
}

#[test]
fn file_name_is_missing_where_the_path_names_nothing() {
    assert_eq!(file_name(""), None);
    assert_eq!(file_name("/"), None);
    assert_eq!(file_name("."), None);
    assert_eq!(file_name(".."), None);
    assert_eq!(file_name("a/.."), None);
}

#[test]
fn absolute_puts_a_relative_path_under_the_working_directory() {
    assert_eq!(absolute("/home/u/dots", "nvim"), "/home/u/dots/nvim");
    assert_eq!(absolute("/home/u/dots", "./nvim/"), "/home/u/dots/nvim");
    assert_eq!(absolute("/home/u/dots", "a/../b"), "/home/u/dots/a/../b");
    assert_eq!(absolute("/", "a"), "/a");
}

#[test]
fn absolute_keeps_an_absolute_path() {
    assert_eq!(absolute("/home/u", "/etc/hosts"), "/etc/hosts");
    assert_eq!(absolute("/home/u", "//etc/./hosts/"), "/etc/hosts");
    assert_eq!(absolute("/home/u", "/"), "/");
}

#[test]
fn absolute_of_the_working_directory_is_itself() {
    assert_eq!(absolute("/home/u/dots", "."), "/home/u/dots");
    assert_eq!(absolute("/home/u/dots", "./"), "/home/u/dots");
    assert_eq!(absolute("/home/u/dots", ""), "/home/u/dots");
    assert_eq!(absolute("/", "."), "/");
}

#[test]
fn plain_names_are_what_entries_are_called() {
    assert!(is_plain("a"));
    assert!(is_plain(".bashrc"));
    assert!(is_plain("..."));
    assert!(is_plain("a b"));
    assert!(!is_plain(""));
    assert!(!is_plain("."));
    assert!(!is_plain(".."));
    assert!(!is_plain("a/b"));
    assert!(!is_plain("/"));
}

#[test]
fn entry_is_placed_under_its_root() {
    assert_eq!(
        DirectoryEntry::new("/proj", "a", true),
        Some(DirectoryEntry {
            relative_name: "a".to_string(),
            absolute_path: "/proj/a".to_string(),
            is_directory: true,
        })
    );
    assert_eq!(DirectoryEntry::new("/proj", "a/b", false), None);
    assert_eq!(DirectoryEntry::new("/proj", "..", false), None);
}

#[test]
fn entry_path_gives_back_its_name() {
    for root in ["/proj", "/proj/", "/", ".", ""] {
        let entry = DirectoryEntry::new(root, "a.txt", false).unwrap();
        assert_eq!(file_name(&entry.absolute_path), Some("a.txt".to_string()));
        assert_eq!(strip_prefix(&entry.absolute_path, root), Some("a.txt".to_string()));
    }
}

#[test]
fn chars_and_slices_count_characters() {
    assert_eq!(chars_of("a\u{e9}b"), vec!['a', '\u{e9}', 'b']);
    assert_eq!(slice("a\u{e9}bc", 1, 3), "\u{e9}b");
    assert_eq!(slice("abc", 2, 2), "");
}

#[test]
fn split_marks_every_piece() {
    assert_eq!(split_marks(&chars_of("a/bc//d"), '/'), vec![(0, 1), (2, 4), (5, 5), (6, 7)]);
    assert_eq!(split_marks(&chars_of(""), '/'), vec![(0, 0)]);
    assert_eq!(split_marks(&chars_of("/"), '/'), vec![(0, 0), (1, 1)]);
}
