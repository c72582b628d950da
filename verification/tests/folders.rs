use photo_browser::listing::{
    count_media, count_media_files, find_subdir_ci, jpeg_dir_list, media_subfolder, raw_dir_list,
    video_dir_list, Entry, EntryKind,
};
use photo_browser::picker::{
    browse, default_browse_dir, downloads_dir, home_dir, shows, start_dir, BrowseResponse, Found,
};

fn entry(name: &str, kind: EntryKind) -> Entry {
    Entry { name: name.to_string(), kind }
}

/// An entry with as many loose photos as given.
fn found(name: &str, kind: EntryKind, photos: usize) -> Found {
    let entries = (0..photos).map(|i| entry(&format!("{i}.jpg"), EntryKind::File)).collect();
    Found { entry: entry(name, kind), entries, sub: Vec::new() }
}

fn info(name: &str, photos: usize) -> Found {
    found(name, EntryKind::Dir, photos)
}

#[test]
fn subfolders_are_found_whatever_their_case() {
    let list = vec![
        entry("readme.txt", EntryKind::File),
        entry("JPEGs", EntryKind::Dir),
        entry("jpg", EntryKind::Dir),
        entry("RAW", EntryKind::Dir),
        entry("Movies", EntryKind::Dir),
    ];
    assert_eq!(find_subdir_ci(&list, &jpeg_dir_list()), Some(1));
    assert_eq!(find_subdir_ci(&list, &raw_dir_list()), Some(3));
    assert_eq!(find_subdir_ci(&list, &video_dir_list()), Some(4));
    assert_eq!(find_subdir_ci(&list, &vec!["x"]), None);
    assert_eq!(find_subdir_ci(&Vec::new(), &jpeg_dir_list()), None);
}

#[test]
fn a_file_with_a_folder_name_is_passed_over() {
    let list = vec![entry("jpegs", EntryKind::File), entry("jpeg", EntryKind::Other), entry("jpg", EntryKind::Dir)];
    assert_eq!(find_subdir_ci(&list, &jpeg_dir_list()), Some(2));
}

#[test]
fn an_entry_of_unknown_type_ends_the_search() {
    let list = vec![entry("jpegs", EntryKind::Unknown), entry("jpg", EntryKind::Dir)];
    assert_eq!(find_subdir_ci(&list, &jpeg_dir_list()), None);
    let list = vec![entry("other", EntryKind::Unknown), entry("jpg", EntryKind::Dir)];
    assert_eq!(find_subdir_ci(&list, &jpeg_dir_list()), Some(1));
}

#[test]
fn names_beyond_ascii_are_lowered_too() {
    let list = vec![entry("ÉTÉ", EntryKind::Dir)];
    assert_eq!(find_subdir_ci(&list, &vec!["été"]), Some(0));
}

#[test]
fn media_files_are_counted() {
    let list = vec![
        entry("a.JPG", EntryKind::File),
        entry("b.cr2", EntryKind::File),
        entry("c.txt", EntryKind::File),
        entry("d.jpg", EntryKind::Dir),
        entry("e.jpg", EntryKind::Unknown),
        entry("f.mov", EntryKind::File),
    ];
    assert_eq!(count_media_files(&list), 3);
    assert_eq!(media_subfolder(&list), None);
    assert_eq!(count_media(&list, &Vec::new()), 3);
}

#[test]
fn a_sorted_folder_is_counted_in_its_photos() {
    let list = vec![
        entry("notes.txt", EntryKind::File),
        entry("raws", EntryKind::Dir),
        entry("jpegs", EntryKind::Dir),
    ];
    assert_eq!(media_subfolder(&list), Some(2));
    let photos = vec![entry("a.jpg", EntryKind::File), entry("b.jpg", EntryKind::File), entry("c", EntryKind::File)];
    assert_eq!(count_media(&list, &photos), 2);
    assert_eq!(media_subfolder(&Vec::new()), None);
    assert_eq!(count_media(&Vec::new(), &photos), 0);
}

#[test]
fn loose_files_hide_the_subfolder_from_the_count() {
    let list = vec![entry("jpegs", EntryKind::Dir), entry("a.jpg", EntryKind::File)];
    let photos = vec![entry("b.jpg", EntryKind::File), entry("c.jpg", EntryKind::File)];
    assert_eq!(media_subfolder(&list), None);
    assert_eq!(count_media(&list, &photos), 1);
}

#[test]
fn home_comes_from_the_first_variable_that_is_set() {
    let s = |t: &str| Some(t.to_string());
    assert_eq!(home_dir(s("/home/a"), s("C:\\a")), "/home/a");
    assert_eq!(home_dir(None, s("C:\\a")), "C:\\a");
    assert_eq!(home_dir(None, None), "/");
}

#[test]
fn picker_opens_to_the_downloads() {
    assert_eq!(downloads_dir("/home/a", "/"), "/home/a/Downloads");
    assert_eq!(downloads_dir("/", "/"), "/Downloads");
    assert_eq!(downloads_dir("", "/"), "Downloads");
    assert_eq!(downloads_dir("C:\\a", "\\"), "C:\\a\\Downloads");
    assert_eq!(downloads_dir("C:\\", "\\"), "C:\\Downloads");
    assert_eq!(default_browse_dir("/home/a", "/", true), "/home/a/Downloads");
    assert_eq!(default_browse_dir("/home/a", "/", false), "/home/a");
}

#[test]
fn picker_opens_to_what_is_asked_for() {
    assert_eq!(start_dir(Some("/x".to_string()), "/home/a", "/", true), "/x");
    assert_eq!(start_dir(Some(String::new()), "/home/a", "/", true), "/home/a/Downloads");
    assert_eq!(start_dir(None, "/home/a", "/", false), "/home/a");
}

#[test]
fn the_default_folder_is_shown_alike_however_it_is_asked_for() {
    let show = |asked: Option<String>| -> BrowseResponse {
        let list = vec![info("b", 1), info("a", 2)];
        let start = start_dir(asked, "/home/a", "/", true);
        browse(start, "/", Some("/home/a".to_string()), "/home/a".to_string(), &list)
    };
    let text = |r: BrowseResponse| format!("{r:?}");
    let by_none = text(show(None));
    assert!(by_none.contains("/home/a/Downloads/b"));
    assert_eq!(text(show(Some(String::new()))), by_none);
    assert_eq!(text(show(Some("/home/a/Downloads".to_string()))), by_none);
}

#[test]
fn picker_counts_the_photos_of_a_sorted_folder() {
    let photos = vec![entry("a.jpg", EntryKind::File), entry("b.JPG", EntryKind::File)];
    let sorted = Found {
        entry: entry("trip", EntryKind::Dir),
        entries: vec![entry("raws", EntryKind::Dir), entry("jpegs", EntryKind::Dir)],
        sub: photos,
    };
    let r = browse("/".to_string(), "/", None, String::new(), &vec![sorted]);
    assert_eq!(r.entries[0].photos, 2);
    assert_eq!(r.entries[0].path, "/trip");
    assert_eq!(r.parent, None);
}

#[test]
fn picker_shows_folders_that_are_not_hidden() {
    let list = vec![
        found(".git", EntryKind::Dir, 1),
        found("b", EntryKind::Dir, 2),
        found("f.jpg", EntryKind::File, 3),
        found("a", EntryKind::Dir, 4),
        found("link", EntryKind::Other, 5),
        found("odd", EntryKind::Unknown, 6),
    ];
    let shown: Vec<bool> = list.iter().map(|f| shows(&f.entry)).collect();
    assert_eq!(shown, vec![false, true, false, true, false, false]);
    let r = browse(String::new(), "/", None, String::new(), &list);
    let names: Vec<(&str, usize)> = r.entries.iter().map(|e| (e.name.as_str(), e.photos)).collect();
    assert_eq!(names, vec![("a", 4), ("b", 2)]);
}

#[test]
fn picker_sorts_without_regard_to_case() {
    let r = browse(
        "/p".to_string(),
        "/",
        Some("/".to_string()),
        "/home/a".to_string(),
        &vec![info("beta", 1), info("Alpha", 2), info("BETA", 3), info("alpha", 4), info("_x", 5)],
    );
    let names: Vec<(&str, usize)> = r.entries.iter().map(|e| (e.name.as_str(), e.photos)).collect();
    assert_eq!(names, vec![("_x", 5), ("Alpha", 2), ("alpha", 4), ("beta", 1), ("BETA", 3)]);
    assert_eq!(r.entries[0].path, "/p/_x");
    assert_eq!(r.path, "/p");
    assert_eq!(r.parent.as_deref(), Some("/"));
    assert_eq!(r.home, "/home/a");
}

#[test]
fn picker_sorts_as_a_stable_sort_does() {
    let names = ["Zoë", "zoe", "ÉTÉ", "été", "a", "B", "b", "A"];
    let list: Vec<Found> = names.iter().enumerate().map(|(i, n)| info(n, i)).collect();
    let mut expected: Vec<(String, usize)> = list.iter().map(|f| (f.entry.name.clone(), f.entries.len())).collect();
    expected.sort_by(|a, b| a.0.to_lowercase().cmp(&b.0.to_lowercase()));
    let r = browse(String::new(), "/", None, String::new(), &list);
    let got: Vec<(String, usize)> = r.entries.iter().map(|e| (e.name.clone(), e.photos)).collect();
    assert_eq!(got, expected);
}
