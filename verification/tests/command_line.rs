use wots::cli::Cli;
use wots::link::LinkRequest;

fn cli(file_name: &str, target: &str) -> Cli {
    Cli {
        file_name: file_name.to_string(),
        target_path: target.to_string(),
        delete: false,
        force: false,
    }
}

#[test]
fn file_name_is_the_last_component_of_the_path() {
    assert_eq!(cli("nvim", "/home/u").file_name(), "nvim");
    assert_eq!(cli("./config/nvim/", "/home/u").file_name(), "nvim");
    assert_eq!(cli("/etc/hosts", "/home/u").file_name(), "hosts");
}

#[test]
fn has_file_name_tells_when_there_is_one() {
    assert!(cli("nvim", "/home/u").has_file_name());
    assert!(!cli(".", "/home/u").has_file_name());
    assert!(!cli("..", "/home/u").has_file_name());
    assert!(!cli("/", "/home/u").has_file_name());
}

#[test]
fn target_is_the_file_name_in_the_target_directory() {
    assert_eq!(cli("nvim", "/home/u").target(), "/home/u/nvim");
    assert_eq!(cli("sub/dir/file.txt", "/home/u/").target(), "/home/u/file.txt");
    assert_eq!(cli("/etc/hosts", "backup").target(), "backup/hosts");
}

#[test]
fn file_name_abs_resolves_against_the_working_directory() {
    assert_eq!(cli("nvim", "/home/u").file_name_abs("/home/u/dots"), "/home/u/dots/nvim");
    assert_eq!(cli("./a/b", "/home/u").file_name_abs("/w"), "/w/a/b");
    assert_eq!(cli("/etc/hosts", "/home/u").file_name_abs("/w"), "/etc/hosts");
    assert_eq!(cli(".", "/home/u").file_name_abs("/home/u/dots"), "/home/u/dots");
}

#[test]
fn whole_directory_is_the_working_directory_itself() {
    assert!(cli(".", "/home/u").is_whole_dir("/home/u/dots"));
    assert!(cli("./", "/home/u").is_whole_dir("/home/u/dots"));
    assert!(cli("/home/u/dots", "/home/u").is_whole_dir("/home/u/dots"));
    assert!(cli("/home/u/dots/", "/home/u").is_whole_dir("/home/u/dots"));
    assert!(!cli("nvim", "/home/u").is_whole_dir("/home/u/dots"));
    assert!(!cli("..", "/home/u").is_whole_dir("/home/u/dots"));
    assert!(!cli("/home/u", "/home/u").is_whole_dir("/home/u/dots"));
}

#[test]
fn request_links_the_absolute_path_under_its_own_name() {
    let args = Cli {
        file_name: "./nvim/".to_string(),
        target_path: "/home/u/.config".to_string(),
        delete: true,
        force: false,
    };
    assert_eq!(
        args.request("/home/u/dots"),
        Some(LinkRequest {
            source: "/home/u/dots/nvim".to_string(),
            target: "/home/u/.config/nvim".to_string(),
            force: false,
            delete: true,
        })
    );
    assert_eq!(args.request("/home/u/dots").unwrap().target, args.target());
}

#[test]
fn request_needs_a_path_that_names_a_file() {
    assert_eq!(cli("..", "/home/u").request("/home/u/dots"), None);
    assert_eq!(cli(".", "/home/u").request("/home/u/dots"), None);
}
