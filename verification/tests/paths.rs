use panda_dl::paths::{extension, file_name, join, parent, stem};
use std::path::Path;

const PATHS: [&str; 34] = [
    "", "/", "//", ".", "..", "/.", "/..", "./", "../", "a", "a/", "a//", "/a", "//a", "a/b", "a//b",
    "a/./b", "a/.", "a/./", "./a", "././a", "a/..", "/a/b/", "/a/b.torrent/.", ".hidden", ".a.b",
    "a.", "a..", "a.tar.gz", "x/.b", "http://h/p.torrent?q=1", "http://h/p.torrent/", "..a", "é/ü.ß",
];

#[test]
fn names_are_those_of_the_standard_library() {
    for p in PATHS {
        let expected = Path::new(p).file_name().map(|s| s.to_str().unwrap().to_string());
        assert_eq!(file_name(p), expected, "{:?}", p);
    }
}

#[test]
fn extensions_are_those_of_the_standard_library() {
    for p in PATHS {
        let expected = Path::new(p).extension().map(|s| s.to_str().unwrap().to_string());
        assert_eq!(extension(p), expected, "{:?}", p);
    }
}

#[test]
fn stems_are_those_of_the_standard_library() {
    for p in PATHS {
        let expected = Path::new(p).file_stem().map(|s| s.to_str().unwrap().to_string());
        assert_eq!(stem(p), expected, "{:?}", p);
    }
}

#[test]
fn parents_are_those_of_the_standard_library() {
    for p in PATHS {
        let expected = Path::new(p).parent().map(|s| s.to_str().unwrap().to_string());
        assert_eq!(parent(p), expected, "{:?}", p);
    }
}

#[test]
fn joins_are_those_of_the_standard_library() {
    for p in PATHS {
        for q in PATHS {
            let expected = Path::new(p).join(q).to_str().unwrap().to_string();
            assert_eq!(join(p, q), expected, "{:?} and {:?}", p, q);
        }
    }
}

#[test]
fn stem_and_extension_are_the_name() {
    assert_eq!(stem("/d/a.tar.gz").unwrap() + "." + &extension("/d/a.tar.gz").unwrap(), "a.tar.gz");
    assert_eq!(stem("README"), Some("README".to_string()));
    assert_eq!(extension("README"), None);
}

#[test]
fn a_plain_name_stays_in_its_directory() {
    for dir in ["/d", "/d/", "", "rel/ative"] {
        let p = join(dir, "name.bin");
        assert!(p.starts_with(dir));
        assert_eq!(file_name(&p), Some("name.bin".to_string()));
    }
}
