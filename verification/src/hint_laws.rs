//! What the picker's hint says of a folder that has been sorted.

use vstd::prelude::*;

use crate::listing::{
    is_media_file, jpeg_dir_names, media_count, media_hint,
    subdir_index, subdir_index_is_first, subdir_is_found, EntryKind, EntryView,
};
use crate::media::{category_dirs_differ, name_category, Category};
use crate::sort_laws::{
    came_in, entry_names, is_filed, is_wanted, sort_keeps_every_file,
    sort_makes_the_subfolders_it_needs, sort_moves_what_is_planned, sorted, Folder,
};
use crate::sorting::planned;
use crate::text::{ascii_lower, lowercase};

verus! {

impl Folder {
    /// The listing is all that there is in this folder: its loose files and its subfolders.
    pub open spec fn is_all(self, entries: Seq<EntryView>) -> bool {
        &&& self.is_listed(entries)
        &&& forall|i: int|
            0 <= i < entries.len() ==> (#[trigger] entries[i]).kind == EntryKind::File || (entries[i].kind
                == EntryKind::Dir && self.subs.dom().contains(entries[i].name))
        &&& forall|d: Seq<char>| #[trigger]
            self.subs.dom().contains(d) ==> exists|i: int|
                0 <= i < entries.len() && (#[trigger] entries[i]).kind == EntryKind::Dir && entries[i].name == d
    }
}

/// The listing is all that there is in a folder with the given files.
pub open spec fn lists_files(entries: Seq<EntryView>, files: Map<Seq<char>, int>) -> bool {
    &&& forall|i: int, j: int|
        0 <= i < j < entries.len() ==> (#[trigger] entries[i]).name != (#[trigger] entries[j]).name
    &&& forall|i: int|
        0 <= i < entries.len() ==> (#[trigger] entries[i]).kind == EntryKind::File && files.dom().contains(
            entries[i].name,
        )
    &&& forall|n: Seq<char>| #[trigger]
        files.dom().contains(n) ==> exists|i: int| 0 <= i < entries.len() && (#[trigger] entries[i]).name == n
}

proof fn none_are_media(entries: Seq<EntryView>)
    requires
        forall|i: int| 0 <= i < entries.len() ==> !is_media_file(#[trigger] entries[i]),
    ensures
        media_count(entries) == 0,
    decreases entries.len(),
{
    reveal(Seq::filter);
    if entries.len() > 0 {
        assert(!is_media_file(entries[entries.len() - 1]));
        none_are_media(entries.drop_last());
    }
}

proof fn all_are_media(entries: Seq<EntryView>)
    requires
        forall|i: int| 0 <= i < entries.len() ==> is_media_file(#[trigger] entries[i]),
    ensures
        media_count(entries) == entries.len(),
    decreases entries.len(),
{
    reveal(Seq::filter);
    if entries.len() > 0 {
        assert(is_media_file(entries[entries.len() - 1]));
        all_are_media(entries.drop_last());
    }
}

/// Of the subfolders that a sort makes, only that of photos has a name under which a folder of photos
/// is found.
proof fn photo_folder_is_jpegs(c: Category)
    ensures
        jpeg_dir_names().contains(lowercase(c.dir())) <==> c == Category::Jpeg,
{
    reveal_strlit("jpegs");
    reveal_strlit("jpeg");
    reveal_strlit("jpg");
    reveal_strlit("raws");
    reveal_strlit("videos");
    assert("jpegs"@ =~= seq!['j', 'p', 'e', 'g', 's']);
    assert("raws"@ =~= seq!['r', 'a', 'w', 's']);
    assert("videos"@ =~= seq!['v', 'i', 'd', 'e', 'o', 's']);
    assert(ascii_lower("jpegs"@) =~= "jpegs"@);
    assert(ascii_lower("raws"@) =~= "raws"@);
    assert(ascii_lower("videos"@) =~= "videos"@);
    assert(jpeg_dir_names()[0] == "jpegs"@);
    assert("jpeg"@[0] == 'j' && "jpg"@[0] == 'j' && "jpegs"@[0] == 'j');
    assert("raws"@[0] == 'r' && "videos"@[0] == 'v');
    assert forall|n: Seq<char>| jpeg_dir_names().contains(n) implies n[0] == 'j' by {}
}

/// The photos counted are the loose files that went to the folder of photos.
proof fn filed_photos_are_counted(w: Folder, w2: Folder, sub: Seq<EntryView>)
    requires
        w.subs == Map::<Seq<char>, Map<Seq<char>, int>>::empty(),
        w2.subs.dom().contains(Category::Jpeg.dir()),
        lists_files(sub, w2.subs[Category::Jpeg.dir()]),
        forall|n: Seq<char>| #[trigger]
            w.files.dom().contains(n) ==> (w2.files.dom().contains(n) && w2.files[n] == w.files[n]) || is_filed(
                w,
                w2,
                n,
            ),
        forall|d: Seq<char>, n: Seq<char>| #[trigger]
            w2.holds(d, n) && !w.holds(d, n) ==> came_in(w, w2, d, n),
    ensures
        media_count(sub) == w.gone(w2, Category::Jpeg).len(),
{
    let jpegs = Category::Jpeg.dir();
    let gone = w.gone(w2, Category::Jpeg);
    assert forall|k: int| 0 <= k < sub.len() implies is_media_file(#[trigger] sub[k]) && gone.contains(
        sub[k].name,
    ) by {
        assert(w2.holds(jpegs, sub[k].name) && !w.holds(jpegs, sub[k].name));
        assert(came_in(w, w2, jpegs, sub[k].name));
        category_dirs_differ(name_category(sub[k].name)->0, Category::Jpeg);
    }
    all_are_media(sub);
    let names = entry_names(sub);
    assert(names.no_duplicates()) by {
        assert forall|a: int, b: int| 0 <= a < names.len() && 0 <= b < names.len() && a != b implies names[a]
            != names[b] by {
            if a < b {
                assert(sub[a].name != sub[b].name);
            } else {
                assert(sub[b].name != sub[a].name);
            }
        }
    }
    names.unique_seq_to_set();
    assert(names.to_set() =~= gone) by {
        assert forall|n: Seq<char>| gone.contains(n) implies names.to_set().contains(n) by {
            assert(is_filed(w, w2, n));
            assert(w2.subs[jpegs].dom().contains(n));
            let k = choose|k: int| 0 <= k < sub.len() && (#[trigger] sub[k]).name == n;
            assert(names[k] == n);
        }
        assert forall|n: Seq<char>| names.to_set().contains(n) implies gone.contains(n) by {
            let k = choose|k: int| 0 <= k < names.len() && names[k] == n;
            assert(sub[k].name == n);
        }
    }
}

/// No photo went anywhere without a folder of photos.
proof fn no_photo_is_gone(w: Folder, w2: Folder)
    requires
        !w2.subs.dom().contains(Category::Jpeg.dir()),
        forall|n: Seq<char>| #[trigger]
            w.files.dom().contains(n) ==> (w2.files.dom().contains(n) && w2.files[n] == w.files[n]) || is_filed(
                w,
                w2,
                n,
            ),
    ensures
        w.gone(w2, Category::Jpeg).len() == 0,
{
    let gone = w.gone(w2, Category::Jpeg);
    assert forall|n: Seq<char>| !gone.contains(n) by {
        if gone.contains(n) {
            assert(w.files.dom().contains(n));
            assert(is_filed(w, w2, n));
        }
    }
    assert(gone =~= Set::<Seq<char>>::empty());
}

/// The name is that of the subfolder of a kind.
spec fn is_dir_of_kind(d: Seq<char>) -> bool {
    d == Category::Jpeg.dir() || d == Category::Raw.dir() || d == Category::Video.dir()
}

/// The folder of photos is found exactly where there is one, if the subfolders are those of kinds.
proof fn photo_folder_is_found(w2: Folder, again: Seq<EntryView>)
    requires
        w2.is_all(again),
        forall|d: Seq<char>| #[trigger]
            w2.subs.dom().contains(d) ==> is_dir_of_kind(d),
    ensures
        subdir_index(again, jpeg_dir_names()) is Some <==> w2.subs.dom().contains(Category::Jpeg.dir()),
{
    let jpegs = Category::Jpeg.dir();
    if w2.subs.dom().contains(jpegs) {
        let i = choose|i: int|
            0 <= i < again.len() && (#[trigger] again[i]).kind == EntryKind::Dir && again[i].name == jpegs;
        photo_folder_is_jpegs(Category::Jpeg);
        subdir_is_found(again, jpeg_dir_names(), i);
    }
    if let Some(i) = subdir_index(again, jpeg_dir_names()) {
        subdir_index_is_first(again, jpeg_dir_names());
        let d = again[i].name;
        assert(is_dir_of_kind(d));
        if d == Category::Raw.dir() {
            photo_folder_is_jpegs(Category::Raw);
        } else if d == Category::Video.dir() {
            photo_folder_is_jpegs(Category::Video);
        }
    }
}

/// A sort of a folder of files alone leaves no media files loose, if no file is stuck and the folder
/// is not that of a kind.
proof fn no_media_stays_loose(folder: Seq<char>, entries: Seq<EntryView>, w: Folder, again: Seq<EntryView>)
    requires
        entries.len() <= usize::MAX,
        w.is_listed(entries),
        w.subs == Map::<Seq<char>, Map<Seq<char>, int>>::empty(),
        w.stuck == Set::<Seq<char>>::empty(),
        forall|c: Category| folder != #[trigger] c.dir(),
        sorted(folder, entries, w).0.failure is None,
        sorted(folder, entries, w).1.is_all(again),
    ensures
        media_count(again) == 0,
{
    let w2 = sorted(folder, entries, w).1;
    sort_moves_what_is_planned(folder, entries, w);
    assert forall|i: int| 0 <= i < again.len() implies !is_media_file(#[trigger] again[i]) by {
        let n = again[i].name;
        if again[i].kind == EntryKind::File {
            assert(w2.files.dom().contains(n));
            if let Some(c) = name_category(n) {
                assert(folder != c.dir());
                assert(planned(folder, EntryView { name: n, kind: EntryKind::File }) == Some(c));
                assert(!w.holds(c.dir(), n));
            }
        }
    }
    none_are_media(again);
}

/// Once a folder of files alone is sorted, the picker's hint of it is the number of photos that the
/// sort reported, without the raw files and the videos: if the sort did not fail, no file was
/// stuck, and the folder is not itself the folder of a kind. `again` is the folder's listing after the
/// sort, and `sub` that of its folder of photos, if there is one.
pub proof fn hint_of_sorted_folder(
    folder: Seq<char>,
    entries: Seq<EntryView>,
    w: Folder,
    again: Seq<EntryView>,
    sub: Seq<EntryView>,
)
    requires
        entries.len() <= usize::MAX,
        w.is_listed(entries),
        w.subs == Map::<Seq<char>, Map<Seq<char>, int>>::empty(),
        w.stuck == Set::<Seq<char>>::empty(),
        forall|c: Category| folder != #[trigger] c.dir(),
        sorted(folder, entries, w).0.failure is None,
        sorted(folder, entries, w).1.is_all(again),
        sorted(folder, entries, w).1.subs.dom().contains(Category::Jpeg.dir()) ==> lists_files(
            sub,
            sorted(folder, entries, w).1.subs[Category::Jpeg.dir()],
        ),
    ensures
        media_hint(again, sub) == sorted(folder, entries, w).0.report.jpegs,
{
    let (s2, w2) = sorted(folder, entries, w);
    sort_keeps_every_file(folder, entries, w);
    sort_makes_the_subfolders_it_needs(folder, entries, w);
    no_media_stays_loose(folder, entries, w, again);
    assert forall|d: Seq<char>| #[trigger]
        w2.subs.dom().contains(d) implies is_dir_of_kind(d) by {
        assert(is_wanted(folder, entries, d));
        let k = choose|k: int|
            0 <= k < entries.len() && (planned(folder, #[trigger] entries[k]) matches Some(c) && c.dir() == d);
        let c = planned(folder, entries[k])->0;
        assert(c == Category::Jpeg || c == Category::Raw || c == Category::Video);
    }
    photo_folder_is_found(w2, again);
    assert(s2.report.of(Category::Jpeg) == w.gone(w2, Category::Jpeg).len());
    if w2.subs.dom().contains(Category::Jpeg.dir()) {
        filed_photos_are_counted(w, w2, sub);
    } else {
        no_photo_is_gone(w, w2);
    }
}

} // verus!
