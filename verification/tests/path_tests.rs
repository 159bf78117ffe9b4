use diskord::path::FsPath;
use std::path::{Component, Path, PathBuf};

fn parts_of(text: &str) -> (bool, String) {
    let path = FsPath::parse(text);
    (path.is_absolute(), path.display())
}

#[test]
fn parse_splits_at_slashes() {
    assert_eq!(parts_of("/tmp/x/a"), (true, "/tmp/x/a".to_string()));
    assert_eq!(FsPath::parse("/tmp/x/a").depth(), 3);
    assert_eq!(parts_of("docs/report.txt"), (false, "docs/report.txt".to_string()));
    assert_eq!(FsPath::parse("docs/report.txt").depth(), 2);
    assert_eq!(parts_of("~"), (false, "~".to_string()));
    assert_eq!(parts_of("~/.local/share"), (false, "~/.local/share".to_string()));
}

#[test]
fn parse_of_the_root_and_of_nothing() {
    assert_eq!(parts_of("/"), (true, "/".to_string()));
    assert_eq!(FsPath::parse("/").depth(), 0);
    assert_eq!(parts_of(""), (false, "".to_string()));
    assert_eq!(FsPath::parse("").depth(), 0);
    assert!(FsPath::parse("/").same_as(&FsPath::root()));
    assert!(FsPath::parse("").same_as(&FsPath::empty()));
    assert!(!FsPath::root().same_as(&FsPath::empty()));
}

#[test]
fn parse_drops_empty_pieces_and_single_dots() {
    assert_eq!(parts_of("//tmp///x/"), (true, "/tmp/x".to_string()));
    assert_eq!(parts_of("/tmp/./x/."), (true, "/tmp/x".to_string()));
    assert_eq!(parts_of("./a"), (false, "a".to_string()));
    assert_eq!(parts_of("a/../b"), (false, "a/../b".to_string()));
    assert_eq!(parts_of("/.hidden/..."), (true, "/.hidden/...".to_string()));
    assert_eq!(FsPath::parse("/a/.b/c.").depth(), 3);
}

#[test]
fn parse_keeps_characters_beyond_ascii() {
    let path = FsPath::parse("/home/zoë/Überraschung/日本語.txt");
    assert_eq!(path.depth(), 4);
    assert_eq!(path.display(), "/home/zoë/Überraschung/日本語.txt");
    assert_eq!(path.file_name().unwrap(), "日本語.txt");
}

#[test]
fn display_then_parse_gives_the_same_path() {
    for text in ["/", "", "/a", "a", "/a/b/c", "a/b", "/home/ann/.local/share/Trash/files/x_1", "~/x"] {
        let path = FsPath::parse(text);
        assert_eq!(path.display(), text);
        assert!(FsPath::parse(&path.display()).same_as(&path));
    }
}

#[test]
fn same_as_compares_components() {
    assert!(FsPath::parse("/a/b").same_as(&FsPath::parse("/a//b/")));
    assert!(!FsPath::parse("/a/b").same_as(&FsPath::parse("a/b")));
    assert!(!FsPath::parse("/a/b").same_as(&FsPath::parse("/a/c")));
    assert!(!FsPath::parse("/a/b").same_as(&FsPath::parse("/a")));
    assert!(!FsPath::parse("/a").same_as(&FsPath::parse("/a/b")));
    assert_eq!(FsPath::parse("/a/b"), FsPath::parse("/a/b/"));
    assert_eq!(FsPath::parse("/a/b").clone(), FsPath::parse("/a/b"));
}

#[test]
fn starts_with_goes_by_whole_components() {
    let cases = [
        ("/home/ann/docs", "/home/ann", true),
        ("/home/ann", "/home/ann", true),
        ("/home/anna", "/home/ann", false),
        ("/home", "/home/ann", false),
        ("/etc/foo", "/home/ann", false),
        ("/etc/foo", "/", true),
        ("/etc/foo", "", true),
        ("etc/foo", "", true),
        ("etc/foo", "/", false),
        ("etc/foo", "/etc", false),
        ("/etc/foo", "etc", false),
        ("etc/foo", "etc", true),
        ("/etc/foo", "~", false),
        ("", "", true),
        ("/", "/", true),
    ];
    for (path, base, expected) in cases {
        assert_eq!(FsPath::parse(path).starts_with(&FsPath::parse(base)), expected, "{:?} {:?}", path, base);
        assert_eq!(Path::new(path).starts_with(Path::new(base)), expected, "std on {:?} {:?}", path, base);
    }
}

#[test]
fn parent_drops_the_last_component() {
    let cases = [
        ("/home/ann/docs", Some("/home/ann")),
        ("/home", Some("/")),
        ("/", None),
        ("a/b", Some("a")),
        ("a", Some("")),
        ("", None),
    ];
    for (path, expected) in cases {
        let parent = FsPath::parse(path).parent().map(|p| p.display());
        assert_eq!(parent, expected.map(|p| p.to_string()), "{:?}", path);
        let std_parent = Path::new(path).parent().map(|p| p.to_string_lossy().into_owned());
        assert_eq!(std_parent, expected.map(|p| p.to_string()), "std on {:?}", path);
    }
}

#[test]
fn file_name_is_the_last_component() {
    let cases = [
        ("/home/ann/report.txt", Some("report.txt")),
        ("/home/ann/", Some("ann")),
        ("report.txt", Some("report.txt")),
        ("/", None),
        ("", None),
        ("/a/..", None),
        ("..", None),
        ("/a/...", Some("...")),
        ("/a/.b", Some(".b")),
    ];
    for (path, expected) in cases {
        assert_eq!(FsPath::parse(path).file_name(), expected.map(|n| n.to_string()), "{:?}", path);
        let std_name = Path::new(path).file_name().map(|n| n.to_string_lossy().into_owned());
        assert_eq!(std_name, expected.map(|n| n.to_string()), "std on {:?}", path);
    }
}

#[test]
fn join_appends_one_component() {
    assert_eq!(FsPath::parse("/t").join("files").display(), "/t/files");
    assert_eq!(FsPath::parse("/t").join("files").join("a.txt_1").display(), "/t/files/a.txt_1");
    assert_eq!(FsPath::parse("~/.local/share").join("Trash").display(), "~/.local/share/Trash");
    assert_eq!(FsPath::root().join("etc").display(), "/etc");
    assert_eq!(FsPath::empty().join("etc").display(), "etc");
    assert_eq!(FsPath::parse("/t").join("files").depth(), 2);
    assert!(FsPath::parse("/t").join("x").parent().unwrap().same_as(&FsPath::parse("/t")));
    assert_eq!(FsPath::parse("/t").join("x").file_name().unwrap(), "x");
}

#[test]
fn child_toward_names_the_direct_child() {
    let root = FsPath::parse("/tmp/x");
    let cases = [
        ("/tmp/x/a/f1", Some("/tmp/x/a")),
        ("/tmp/x/a/b/c/d", Some("/tmp/x/a")),
        ("/tmp/x/f2", Some("/tmp/x/f2")),
        ("/tmp/x", Some("/tmp/x")),
        ("/tmp/xy/f", None),
        ("/tmp", None),
        ("/other/x/a", None),
        ("tmp/x/a", None),
    ];
    for (file, expected) in cases {
        let child = root.child_toward(&FsPath::parse(file)).map(|p| p.display());
        assert_eq!(child, expected.map(|p| p.to_string()), "{:?}", file);
    }
    assert_eq!(FsPath::root().child_toward(&FsPath::parse("/etc/passwd")).unwrap().display(), "/etc");
}

#[test]
fn sorts_before_orders_like_paths() {
    let texts = [
        "/", "/a", "/a/b", "/a/b/c", "/a/c", "/ab", "/a.b", "/a-b", "/A", "/b", "/a/B", "/é", "/z", "/zz", "/日本",
        "/a b", "/a/", "/r/Mid", "/r/alpha", "/r/zeta", "/r/big", "/r/n010", "/r/n002", "/r/n1",
    ];
    for a in texts {
        for b in texts {
            let expected = PathBuf::from(a) < PathBuf::from(b);
            assert_eq!(FsPath::parse(a).sorts_before(&FsPath::parse(b)), expected, "{:?} before {:?}", a, b);
        }
    }
}

#[test]
fn sorts_before_puts_absolute_paths_first() {
    assert!(FsPath::parse("/z").sorts_before(&FsPath::parse("a")));
    assert!(!FsPath::parse("a").sorts_before(&FsPath::parse("/z")));
    assert!(FsPath::parse("a").sorts_before(&FsPath::parse("a/b")));
    assert!(FsPath::parse("").sorts_before(&FsPath::parse("a")));
    assert!(!FsPath::parse("a").sorts_before(&FsPath::parse("a")));
}

#[test]
fn sorts_before_is_a_strict_order_on_samples() {
    let texts = ["/a", "/a/b", "/ab", "/b", "a", "a/b", "", "/", "/a/a", "/é"];
    for a in texts {
        for b in texts {
            let ab = FsPath::parse(a).sorts_before(&FsPath::parse(b));
            let ba = FsPath::parse(b).sorts_before(&FsPath::parse(a));
            assert!(!(ab && ba));
            assert_eq!(ab || ba, a != b);
            for c in texts {
                let bc = FsPath::parse(b).sorts_before(&FsPath::parse(c));
                if ab && bc {
                    assert!(FsPath::parse(a).sorts_before(&FsPath::parse(c)));
                }
            }
        }
    }
}

fn std_parts(text: &str) -> (bool, Vec<String>) {
    let path = Path::new(text);
    let mut parts = Vec::new();
    for component in path.components() {
        match component {
            Component::Normal(name) => parts.push(name.to_string_lossy().into_owned()),
            Component::ParentDir => parts.push("..".to_string()),
            Component::CurDir | Component::RootDir | Component::Prefix(_) => {}
        }
    }
    (path.has_root(), parts)
}

#[test]
fn parse_finds_the_components_that_the_standard_library_finds() {
    let pieces = ["", "/", "//", "a", ".", "..", "b.c", "./", "/.", "é", "...", ".hidden", "x y"];
    for a in pieces {
        for b in pieces {
            for c in pieces {
                for d in pieces {
                    let text = format!("{}{}{}{}", a, b, c, d);
                    let (absolute, parts) = std_parts(&text);
                    let parsed = FsPath::parse(&text);
                    assert_eq!(parsed.is_absolute(), absolute, "for {:?}", text);
                    assert_eq!(parsed.depth(), parts.len(), "for {:?}", text);
                    let mut rebuilt = if absolute { FsPath::root() } else { FsPath::empty() };
                    for part in &parts {
                        rebuilt = rebuilt.join(part);
                    }
                    assert_eq!(parsed, rebuilt, "for {:?}", text);
                }
            }
        }
    }
}
