use std::collections::{BTreeMap, BTreeSet};

use photo_browser::listing::{count_media, Entry, EntryKind};
use photo_browser::media::Category;
use photo_browser::session::{BuildAction, BuildReply, BuildRun, Session};
use photo_browser::sorting::{plan_sort, Move, SortAction, SortReply, SortReport, SortRun};

/// A folder in memory: its loose files, its subfolders, and names that no folder can have.
#[derive(Clone, Debug, Default, PartialEq)]
struct Folder {
    files: BTreeMap<String, u32>,
    subs: BTreeMap<String, BTreeMap<String, u32>>,
    blocked: BTreeSet<String>,
    stuck: BTreeSet<String>,
}

impl Folder {
    fn with_files(names: &[&str]) -> Folder {
        let mut f = Folder::default();
        for (i, n) in names.iter().enumerate() {
            f.files.insert(n.to_string(), i as u32);
        }
        f
    }

    fn entries(&self) -> Vec<Entry> {
        let files = self.files.keys().map(|n| Entry { name: n.clone(), kind: EntryKind::File });
        let dirs = self.subs.keys().map(|n| Entry { name: n.clone(), kind: EntryKind::Dir });
        files.chain(dirs).collect()
    }

    fn act(&mut self, names: &[String], action: SortAction) -> SortReply {
        match action {
            SortAction::MakeDir(c) => {
                let d = c.dir_name().to_string();
                if self.subs.contains_key(&d) {
                    SortReply::Made(Ok(()))
                } else if self.blocked.contains(&d) {
                    SortReply::Made(Err("File exists".to_string()))
                } else {
                    self.subs.insert(d, BTreeMap::new());
                    SortReply::Made(Ok(()))
                }
            }
            SortAction::Probe(m) => {
                SortReply::Probed(self.subs[m.category.dir_name()].contains_key(&names[m.entry]))
            }
            SortAction::Rename(m) => {
                let n = &names[m.entry];
                if self.stuck.contains(n) {
                    return SortReply::Renamed(false);
                }
                let held = self.files.remove(n).unwrap();
                let old = self.subs.get_mut(m.category.dir_name()).unwrap().insert(n.clone(), held);
                assert_eq!(old, None, "overwrote {n}");
                SortReply::Renamed(true)
            }
            SortAction::Finished => panic!("no action"),
        }
    }
}

fn sort(folder: &mut Folder, root_name: Option<&str>) -> Result<SortReport, String> {
    let names: Vec<String> = folder.entries().into_iter().map(|e| e.name).collect();
    let scan = Ok(folder.entries().into_iter().map(Ok).collect());
    let mut run = SortRun::new(plan_sort("/r", root_name, &scan)?);
    while run.action() != SortAction::Finished {
        let reply = folder.act(&names, run.action());
        run = run.step(reply);
    }
    run.result()
}

fn report(jpegs: usize, raws: usize, videos: usize) -> SortReport {
    SortReport { jpegs, raws, videos }
}

#[test]
fn loose_files_move_into_their_subfolders() {
    let mut f = Folder::with_files(&["a.JPG", "b.jpeg", "c.arw", "d.mov", "notes.txt"]);
    assert_eq!(sort(&mut f, Some("trip")), Ok(report(2, 1, 1)));
    assert_eq!(f.files.keys().collect::<Vec<_>>(), vec!["notes.txt"]);
    assert_eq!(f.subs["jpegs"].keys().collect::<Vec<_>>(), vec!["a.JPG", "b.jpeg"]);
    assert_eq!(f.subs["raws"].keys().collect::<Vec<_>>(), vec!["c.arw"]);
    assert_eq!(f.subs["videos"].keys().collect::<Vec<_>>(), vec!["d.mov"]);
}

#[test]
fn sorting_again_moves_nothing() {
    let mut f = Folder::with_files(&["a.jpg", "b.jpg", "c.nef", "x.txt"]);
    f.subs.insert("jpegs".to_string(), BTreeMap::from([("b.jpg".to_string(), 99)]));
    assert_eq!(sort(&mut f, Some("trip")), Ok(report(1, 1, 0)));
    let once = f.clone();
    assert_eq!(sort(&mut f, Some("trip")), Ok(report(0, 0, 0)));
    assert_eq!(f, once);
}

#[test]
fn a_taken_name_is_not_overwritten() {
    let mut f = Folder::with_files(&["a.jpg"]);
    f.subs.insert("jpegs".to_string(), BTreeMap::from([("a.jpg".to_string(), 7)]));
    assert_eq!(sort(&mut f, None), Ok(report(0, 0, 0)));
    assert_eq!(f.files["a.jpg"], 0);
    assert_eq!(f.subs["jpegs"]["a.jpg"], 7);
}

#[test]
fn a_folder_of_a_kind_keeps_its_files() {
    let mut f = Folder::with_files(&["a.jpg", "b.raf"]);
    assert_eq!(sort(&mut f, Some("JPEGS")), Ok(report(0, 1, 0)));
    assert!(f.files.contains_key("a.jpg"));
    assert!(f.subs["raws"].contains_key("b.raf"));
}

#[test]
fn a_subfolder_that_cannot_be_made_ends_the_sort() {
    let mut f = Folder::with_files(&["a.jpg", "b.nef"]);
    f.blocked.insert("raws".to_string());
    assert_eq!(sort(&mut f, Some("trip")), Err("File exists".to_string()));
    assert!(f.subs["jpegs"].contains_key("a.jpg"));
    assert!(f.files.contains_key("b.nef"));
}

#[test]
fn a_file_that_cannot_be_moved_is_not_counted() {
    let mut f = Folder::with_files(&["a.jpg", "b.jpg"]);
    f.stuck.insert("a.jpg".to_string());
    assert_eq!(sort(&mut f, Some("trip")), Ok(report(1, 0, 0)));
    assert!(f.files.contains_key("a.jpg"));
    assert_eq!(sort(&mut f, Some("trip")), Ok(report(0, 0, 0)));
    assert!(f.files.contains_key("a.jpg") && f.subs["jpegs"].contains_key("b.jpg"));
}

#[test]
fn only_regular_files_are_planned() {
    let scan = Ok(vec![
        Ok(Entry { name: "d.jpg".to_string(), kind: EntryKind::Dir }),
        Ok(Entry { name: "l.jpg".to_string(), kind: EntryKind::Other }),
        Ok(Entry { name: "f.jpg".to_string(), kind: EntryKind::File }),
        Ok(Entry { name: "v.webm".to_string(), kind: EntryKind::File }),
    ]);
    assert_eq!(
        plan_sort("/r", None, &scan),
        Ok(vec![
            Move { entry: 2, category: Category::Jpeg },
            Move { entry: 3, category: Category::Video },
        ])
    );
}

#[test]
fn a_folder_that_cannot_be_listed_is_not_sorted() {
    let scan = Err("Permission denied".to_string());
    assert_eq!(plan_sort("/r", Some("r"), &scan), Err("read /r: Permission denied".to_string()));
}

#[test]
fn the_first_item_that_cannot_be_read_ends_the_plan() {
    let scan = Ok(vec![
        Ok(Entry { name: "a.jpg".to_string(), kind: EntryKind::File }),
        Err("first".to_string()),
        Err("second".to_string()),
    ]);
    assert_eq!(plan_sort("/r", Some("r"), &scan), Err("first".to_string()));
}

#[test]
fn a_reply_out_of_turn_changes_nothing() {
    let run = SortRun::new(vec![Move { entry: 0, category: Category::Raw }]);
    let run = run.step(SortReply::Renamed(true)).step(SortReply::Probed(false));
    assert_eq!(run.action(), SortAction::MakeDir(Category::Raw));
    let run = run.step(SortReply::Made(Ok(())));
    assert_eq!(run.action(), SortAction::Probe(Move { entry: 0, category: Category::Raw }));
    let run = run.step(SortReply::Probed(true));
    assert_eq!(run.action(), SortAction::Finished);
    assert_eq!(run.result(), Ok(SortReport::default()));
}

fn open(folder: &mut Folder, cache: Result<(), String>) -> Result<(Session, SortReport), String> {
    let names: Vec<String> = folder.entries().into_iter().map(|e| e.name).collect();
    let mut run = BuildRun::new("/r".to_string(), Some("r".to_string()));
    loop {
        let reply = match run.action() {
            BuildAction::Scan => BuildReply::Scanned(Ok(folder.entries().into_iter().map(Ok).collect())),
            BuildAction::Sort(a) => BuildReply::Sort(folder.act(&names, a)),
            BuildAction::List => BuildReply::Listed(folder.entries()),
            BuildAction::MakeCache(d) => {
                assert_eq!(d, ".thumb_cache");
                BuildReply::Cached(cache.clone())
            }
            BuildAction::Finished => return run.result().unwrap(),
        };
        run = run.step(reply);
    }
}

#[test]
fn an_opened_folder_is_sorted_and_knows_its_subfolders() {
    let mut f = Folder::with_files(&["a.jpg", "b.nef"]);
    f.subs.insert("Movies".to_string(), BTreeMap::new());
    let (s, r) = open(&mut f, Ok(())).unwrap();
    assert_eq!(r, report(1, 1, 0));
    assert_eq!(s.root, "/r");
    assert_eq!(s.jpeg_dir, "jpegs");
    assert_eq!(s.raw_dir.as_deref(), Some("raws"));
    assert_eq!(s.video_dir.as_deref(), Some("Movies"));
    assert_eq!(s.thumb_cache, ".thumb_cache");
    assert_eq!(s.trash_dir, "_deleted");
}

#[test]
fn opening_again_gives_the_same() {
    let mut f = Folder::with_files(&["a.jpg", "b.nef", "c.txt"]);
    let (s, r) = open(&mut f, Ok(())).unwrap();
    assert_eq!(r, report(1, 1, 0));
    let before = format!("{:?} {:?}", f.files, f.subs);
    let (t, r) = open(&mut f, Ok(())).unwrap();
    assert_eq!(r, report(0, 0, 0));
    assert_eq!(format!("{t:?}"), format!("{s:?}"));
    assert_eq!(format!("{:?} {:?}", f.files, f.subs), before);
}

#[test]
fn the_hint_of_a_sorted_folder_is_its_photos() {
    let mut f = Folder::with_files(&["a.jpg", "b.nef", "c.txt", "d.JPEG", "e.mp4"]);
    assert_eq!(count_media(&f.entries(), &Vec::new()), 4);
    assert_eq!(sort(&mut f, Some("trip")), Ok(report(2, 1, 1)));
    let photos = f.subs["jpegs"].keys();
    let sub = photos.map(|n| Entry { name: n.clone(), kind: EntryKind::File }).collect();
    assert_eq!(count_media(&f.entries(), &sub), 2);
}

#[test]
fn a_folder_without_subfolders_gets_one_for_photos() {
    let (s, r) = open(&mut Folder::default(), Ok(())).unwrap();
    assert_eq!(r, report(0, 0, 0));
    assert_eq!(s.jpeg_dir, "jpegs");
    assert_eq!(s.raw_dir, None);
    assert_eq!(s.video_dir, None);
}

#[test]
fn a_folder_whose_sort_fails_is_not_opened() {
    let mut f = Folder::with_files(&["b.nef"]);
    f.blocked.insert("raws".to_string());
    assert_eq!(open(&mut f, Ok(())).unwrap_err(), "File exists");
}

#[test]
fn a_folder_without_a_cache_is_not_opened() {
    assert_eq!(open(&mut Folder::default(), Err("full".to_string())).unwrap_err(), "full");
}

#[test]
fn an_opening_under_way_has_no_result() {
    assert!(BuildRun::new("/r".to_string(), None).result().is_none());
}
