use photo_browser::media::{
    category_of, category_of_ext, ext_lower, is_media_ext, is_one_of, Category,
};
use photo_browser::order::{sort_texts, stable_order};
use photo_browser::photos::is_photo;
use photo_browser::text::{
    chars_of, ends_with, extension_of, join_path, join_text, join_text3, last_part_of, parent_of,
    safe_name, same_text, stem_of,
};

fn strings(list: &[&str]) -> Vec<String> {
    list.iter().map(|s| s.to_string()).collect()
}

#[test]
fn extension_follows_the_last_dot() {
    assert_eq!(extension_of("IMG_1.JPG"), Some("JPG"));
    assert_eq!(extension_of("a.tar.gz"), Some("gz"));
    assert_eq!(extension_of("trailing."), Some(""));
    assert_eq!(extension_of("noext"), None);
    assert_eq!(extension_of(".hidden"), None);
    assert_eq!(extension_of(".hidden.jpg"), Some("jpg"));
    assert_eq!(extension_of(""), None);
    assert_eq!(extension_of("."), None);
    assert_eq!(extension_of(".."), None);
}

#[test]
fn extension_and_stem_agree_with_std_paths() {
    let names = [
        "", ".", "..", "a", "a.b", "a.b.c", ".a", ".a.b", "a.", "a..", "...", "..a", "é.ö", "x.JPG",
        "日本.arw", " .jpg",
    ];
    for n in names {
        let p = std::path::Path::new(n);
        assert_eq!(extension_of(n), p.extension().and_then(|e| e.to_str()), "{n:?}");
        assert_eq!(stem_of(n), p.file_stem().and_then(|e| e.to_str()), "{n:?}");
    }
}

#[test]
fn stem_is_what_precedes_the_extension() {
    assert_eq!(stem_of("DSC001.JPG"), Some("DSC001"));
    assert_eq!(stem_of("a.b.jpg"), Some("a.b"));
    assert_eq!(stem_of(".jpg"), Some(".jpg"));
    assert_eq!(stem_of("plain"), Some("plain"));
    assert_eq!(stem_of(""), None);
    assert_eq!(stem_of("."), None);
}

#[test]
fn safe_names_hold_no_way_out() {
    assert_eq!(safe_name("IMG_1.JPG"), Some("IMG_1.JPG"));
    assert_eq!(safe_name("a.b.c"), Some("a.b.c"));
    assert_eq!(safe_name(""), Some(""));
    assert_eq!(safe_name("."), Some("."));
    assert_eq!(safe_name("../x"), None);
    assert_eq!(safe_name("a/b"), None);
    assert_eq!(safe_name("a\\b"), None);
    assert_eq!(safe_name("a..jpg"), None);
    assert_eq!(safe_name(".."), None);
}

#[test]
fn lower_extension_of_ascii_and_other_names() {
    assert_eq!(ext_lower("IMG_1.JPG"), "jpg");
    assert_eq!(ext_lower("a.Cr2"), "cr2");
    assert_eq!(ext_lower("noext"), "");
    assert_eq!(ext_lower(".jpg"), "");
    assert_eq!(ext_lower("x.ÉÖ"), "éö");
}

#[test]
fn the_folder_and_the_case_do_not_change_the_extension() {
    for dir in ["", "/", "/p", "p.d/q.e/", "./", "..", "/é"] {
        for f in ["IMG.JPG", "img.jpg", "Img.jPg"] {
            assert_eq!(ext_lower(&join_path(dir, "/", f)), "jpg");
        }
        assert_eq!(ext_lower(&join_path(dir, "/", ".jpg")), "");
    }
}

#[test]
fn extensions_of_paths_agree_with_std() {
    let paths = [
        "", "/", "//", ".", "./", "..", "a/..", "a.b/", "a.b//", "a.b/.", "a.b/./", "a/b.c", "a.b/c", "/.x.Y",
        "a/.", "/./.", "a.B/./.", "x/..y", "é/ö.Jpg", "a.b/..",
    ];
    for p in paths {
        let e = std::path::Path::new(p).extension().and_then(|e| e.to_str()).unwrap_or("").to_lowercase();
        assert_eq!(ext_lower(p), e, "{p:?}");
        let name = std::path::Path::new(p).file_name().and_then(|n| n.to_str());
        let last = last_part_of(p);
        assert_eq!(name, if ["", ".", ".."].contains(&last) { None } else { Some(last) }, "{p:?}");
    }
}

#[test]
fn lower_extensions_hold_no_dot_slash_or_capital() {
    for p in ["a.ÀÉ", "x/y.ΑΣ", "b.İI", "c.\u{212A}K", "ß.ẞA", "日.本J", "a.b.ǅ", "é/.JPG"] {
        let e = ext_lower(p);
        assert!(!e.contains('.') && !e.contains('/'), "{p}");
        assert!(!e.chars().any(|c| c.is_ascii_uppercase()), "{p}");
    }
    for c in (0x80..=0x10FFFFu32).filter_map(char::from_u32) {
        for l in c.to_string().to_lowercase().chars() {
            assert!(!l.is_ascii() || l.is_ascii_lowercase(), "{c:?}");
        }
    }
}

#[test]
fn parents_agree_with_std_paths() {
    let paths = [
        "", "/", "//", "/a", "//a", "///a", "/a/", "/a/b", "/a//b", "/a/b//", "/./a", "/a/.", "/a/./b", "/.", "/./",
        ".", "./", "./a", "././a", "..", "../a", "a", "a/", "a/b", "a//b", "a/./b", "a/b/.", "a/..", "é/ö", "/é/ö.d/",
        "a/.b", "./.", ".//a", "/../a",
    ];
    for p in paths {
        let expected = std::path::Path::new(p).parent().and_then(|q| q.to_str());
        assert_eq!(parent_of(p), expected, "{p:?}");
    }
    for dir in ["", "/", "/p", "a/b", "é"] {
        assert_eq!(parent_of(&join_path(dir, "/", "x.jpg")), Some(dir));
    }
}

#[test]
fn paths_are_joined_as_std_joins_them() {
    for dir in ["", "/", "/p", "p/", "a b", "é"] {
        let p = std::path::Path::new(dir).join("x.jpg");
        assert_eq!(join_path(dir, "/", "x.jpg"), p.display().to_string());
    }
}

#[test]
fn media_extensions() {
    for e in ["jpg", "jpeg", "arw", "x3f", "mp4", "webm", "3gp", "m2ts"] {
        assert!(is_media_ext(e), "{e}");
    }
    for e in ["", "JPG", "png", "txt", "jpgs"] {
        assert!(!is_media_ext(e), "{e}");
    }
}

#[test]
fn categories_of_extensions_and_names() {
    assert_eq!(category_of_ext("jpeg"), Some(Category::Jpeg));
    assert_eq!(category_of_ext("pef"), Some(Category::Raw));
    assert_eq!(category_of_ext("mkv"), Some(Category::Video));
    assert_eq!(category_of_ext("JPEG"), None);
    assert_eq!(category_of("IMG.JpEg"), Some(Category::Jpeg));
    assert_eq!(category_of("IMG.DNG"), Some(Category::Raw));
    assert_eq!(category_of("clip.MOV"), Some(Category::Video));
    assert_eq!(category_of("notes.txt"), None);
    assert_eq!(category_of(".jpg"), None);
    assert_eq!(Category::Jpeg.dir_name(), "jpegs");
    assert_eq!(Category::Raw.dir_name(), "raws");
    assert_eq!(Category::Video.dir_name(), "videos");
}

#[test]
fn an_extension_is_in_one_list_only() {
    let lists = [
        vec!["jpg", "jpeg"],
        vec!["arw", "cr2", "cr3", "nef", "dng", "raf", "orf", "rw2", "srw", "pef", "x3f"],
        vec!["mp4", "mov", "m4v", "avi", "mts", "m2ts", "mkv", "3gp", "wmv", "webm"],
    ];
    let kinds = [Category::Jpeg, Category::Raw, Category::Video];
    for (i, list) in lists.iter().enumerate() {
        for e in list {
            assert_eq!(category_of_ext(e), Some(kinds[i]));
            assert!(is_media_ext(e));
        }
    }
}

#[test]
fn photos_by_name() {
    assert!(is_photo("a.jpg"));
    assert!(is_photo("A.JPEG"));
    assert!(is_photo("é.Jpg"));
    assert!(is_photo(".jpg"));
    assert!(!is_photo("a.png"));
    assert!(!is_photo("jpg"));
    assert!(!is_photo("a.jpg.txt"));
}

#[test]
fn sorted_photos_are_the_listed_ones() {
    for n in ["é.jpg", "ß.JPEG", "ﬁ.x.Jpg", "ǰ.pg", "a.jpg", "B.JPEG", "c.Jpg", "d.png", "e.arw", "f.jpgx", "g"] {
        assert_eq!(category_of(n) == Some(Category::Jpeg), is_photo(n), "{n}");
    }
}

#[test]
fn text_helpers() {
    assert_eq!(chars_of("aé日"), vec!['a', 'é', '日']);
    assert!(same_text("abc", "abc"));
    assert!(!same_text("abc", "abd"));
    assert_eq!(join_text("ab", "cd"), "abcd");
    assert_eq!(join_text3("ab", "-", "cd"), "ab-cd");
    assert!(ends_with("photo.JPG", ".JPG"));
    assert!(!ends_with("JPG", ".JPG"));
    assert!(ends_with("x", ""));
    assert!(is_one_of("b", &vec!["a", "b"]));
    assert!(!is_one_of("c", &vec!["a", "b"]));
}

#[test]
fn texts_sort_by_code_points() {
    let list = strings(&["b", "a", "B", "é", "ab", "", "a"]);
    let mut expected = list.clone();
    expected.sort();
    assert_eq!(sort_texts(&list), expected);
    assert_eq!(sort_texts(&list), strings(&["", "B", "a", "a", "ab", "b", "é"]));
}

#[test]
fn many_texts_sort_as_std_sorts_them() {
    let mut x: u32 = 7;
    let mut list: Vec<String> = Vec::new();
    for _ in 0..500 {
        x = x.wrapping_mul(1664525).wrapping_add(1013904223);
        list.push(format!("IMG_{:03}.JPG", (x >> 16) % 300));
    }
    let mut expected = list.clone();
    expected.sort();
    assert_eq!(sort_texts(&list), expected);
}

#[test]
fn equal_keys_keep_their_order() {
    let keys: Vec<Vec<char>> = ["b", "a", "b", "a", "c", "a"].iter().map(|k| k.chars().collect()).collect();
    assert_eq!(stable_order(&keys), vec![1, 3, 5, 0, 2, 4]);
    assert_eq!(stable_order(&Vec::new()), Vec::<usize>::new());
}
