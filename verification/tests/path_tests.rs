use std::path::Path;
use unshare::path::parent;

#[test]
fn parent_of_a_top_level_directory_is_the_root() {
    assert_eq!(parent("/bin"), Some("/"));
}

#[test]
fn the_root_has_no_parent() {
    assert_eq!(parent("/"), None);
    assert_eq!(parent("//"), None);
    assert_eq!(parent("/."), None);
    assert_eq!(parent("/./"), None);
}

#[test]
fn the_empty_path_has_no_parent() {
    assert_eq!(parent(""), None);
}

#[test]
fn parent_drops_the_last_component() {
    assert_eq!(parent("/dev/urandom"), Some("/dev"));
    assert_eq!(parent("/usr/lib/x86_64"), Some("/usr/lib"));
    assert_eq!(parent("/usr/lib"), Some("/usr"));
}

#[test]
fn parent_passes_over_separators_and_dots_at_the_end() {
    assert_eq!(parent("/usr//lib/"), Some("/usr"));
    assert_eq!(parent("/usr/./lib/."), Some("/usr"));
    assert_eq!(parent("/usr/lib///"), Some("/usr"));
    assert_eq!(parent("/usr/.//lib"), Some("/usr"));
}

#[test]
fn parent_keeps_dots_that_belong_to_a_name() {
    assert_eq!(parent("/etc/.config/x"), Some("/etc/.config"));
    assert_eq!(parent("/etc/a./x"), Some("/etc/a."));
    assert_eq!(parent("/etc/../x"), Some("/etc/.."));
    assert_eq!(parent("/etc/.."), Some("/etc"));
}

#[test]
fn parent_of_one_relative_component_is_empty() {
    assert_eq!(parent("bin"), Some(""));
    assert_eq!(parent(".."), Some(""));
    assert_eq!(parent("."), Some(""));
    assert_eq!(parent("./"), Some(""));
    assert_eq!(parent("./bin"), Some("."));
    assert_eq!(parent("usr/lib"), Some("usr"));
}

#[test]
fn parent_counts_characters_not_bytes() {
    assert_eq!(parent("/données/été"), Some("/données"));
    assert_eq!(parent("/données"), Some("/"));
    assert_eq!(parent("/日本/語/"), Some("/日本"));
}

#[test]
fn parent_is_the_parent_of_std_paths() {
    let inputs = [
        "", "/", "//", "///", ".", "..", "./", "../", "/.", "/..", "/./", "/../", "a", "a/", "a//",
        "a/.", "a/..", "a/./", "/a", "/a/", "/a//", "/a/.", "/a/..", "/a/b", "/a//b", "/a/./b",
        "/a/b/", "/a/b/.", "/a/b/./", "/a/b/..", "/a/b//.//", "./a", "./a/b", ".//a", "./.", "././",
        "./..", "../a", "a/b/c/d", "/a/b/c/d", ".a", ".a/b", "a.", "a./b", "/.a", "/a.b/c.d",
        "/sandbox/dev/urandom", "/usr/lib/x86_64-linux-gnu", "//usr//lib//", "/./usr/./lib/./",
        "/données/été", "é", "./é", "/ /", " ", "/a /b ", "...", "/...", ".../...", "/a/.../b",
        ".//", ".///a", "/.//.", "a/.//.", "a/./.", "//a", "///a//b",
    ];
    for input in inputs {
        let expected = Path::new(input).parent().map(|p| p.to_str().unwrap());
        assert_eq!(parent(input), expected, "parent of {:?}", input);
    }
}

#[test]
fn a_parent_is_a_shorter_prefix() {
    let inputs = ["/a/b/c", "/usr//lib/", "a", "./x/y/", "/données/été"];
    for input in inputs {
        let mut path = input;
        while let Some(above) = parent(path) {
            assert!(above.len() < path.len());
            assert!(path.starts_with(above));
            path = above;
        }
    }
}

#[test]
fn parent_is_the_parent_of_every_short_std_path() {
    let alphabet = ['/', '.', 'a', 'é'];
    let mut paths = vec![String::new()];
    let mut from = 0;
    for _ in 0..6 {
        let until = paths.len();
        for i in from..until {
            for c in alphabet {
                let mut longer = paths[i].clone();
                longer.push(c);
                paths.push(longer);
            }
        }
        from = until;
    }
    assert_eq!(paths.len(), 5461);
    for path in &paths {
        let expected = Path::new(path).parent().map(|p| p.to_str().unwrap());
        assert_eq!(parent(path), expected, "parent of {:?}", path);
    }
}
