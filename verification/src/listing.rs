//! What a folder's listing tells: its media subfolders, and how many media files it
//! holds.

use vstd::prelude::*;

use crate::media::{is_media_ext, is_one_of, lower_ext_of, name_category, texts};
use crate::text::lowercase;

verus! {

/// What a directory entry is. A symbolic link is `Other`, and `Unknown` an entry whose
/// type could not be told.
#[derive(Clone, Copy, Debug, PartialEq, Eq, Structural)]
pub enum EntryKind {
    File,
    Dir,
    Other,
    Unknown,
}

/// One entry of a folder's listing.
#[derive(Debug)]
pub struct Entry {
    pub name: String,
    pub kind: EntryKind,
}

/// An entry, with its name as a sequence of characters.
pub struct EntryView {
    pub name: Seq<char>,
    pub kind: EntryKind,
}

impl View for Entry {
    type V = EntryView;

    open spec fn view(&self) -> EntryView {
        EntryView { name: self.name@, kind: self.kind }
    }
}

/// The entries of a listing.
pub open spec fn listing_view(entries: Seq<Entry>) -> Seq<EntryView> {
    entries.map_values(|e: Entry| e@)
}

/// Names under which a folder of photos is found, in lower case.
pub open spec fn jpeg_dir_names() -> Seq<Seq<char>> {
    seq!["jpegs"@, "jpeg"@, "jpg"@]
}

/// Names under which a folder of raw files is found, in lower case.
pub open spec fn raw_dir_names() -> Seq<Seq<char>> {
    seq!["raws"@, "raw"@, "arw"@]
}

/// Names under which a folder of videos is found, in lower case.
pub open spec fn video_dir_names() -> Seq<Seq<char>> {
    seq!["videos"@, "video"@, "movies"@]
}

pub fn jpeg_dir_list() -> (r: Vec<&'static str>)
    ensures
        texts(r@) == jpeg_dir_names(),
{
    let r: Vec<&'static str> = vec!["jpegs", "jpeg", "jpg"];
    assert(texts(r@) =~= jpeg_dir_names());
    r
}

pub fn raw_dir_list() -> (r: Vec<&'static str>)
    ensures
        texts(r@) == raw_dir_names(),
{
    let r: Vec<&'static str> = vec!["raws", "raw", "arw"];
    assert(texts(r@) =~= raw_dir_names());
    r
}

pub fn video_dir_list() -> (r: Vec<&'static str>)
    ensures
        texts(r@) == video_dir_names(),
{
    let r: Vec<&'static str> = vec!["videos", "video", "movies"];
    assert(texts(r@) =~= video_dir_names());
    r
}

/// The entry ends the search for a folder with one of the names: it has such a name,
/// whatever its letters' case, and is a folder or cannot be told to be one.
pub open spec fn ends_search(e: EntryView, names: Seq<Seq<char>>) -> bool {
    names.contains(lowercase(e.name)) && (e.kind == EntryKind::Dir || e.kind == EntryKind::Unknown)
}

/// Where the first folder with one of the names stands. The search ends without a
/// result at an entry with such a name whose type could not be told.
pub open spec fn subdir_index(entries: Seq<EntryView>, names: Seq<Seq<char>>) -> Option<int>
    decreases entries.len(),
{
    if entries.len() == 0 {
        None
    } else if ends_search(entries[0], names) {
        if entries[0].kind == EntryKind::Dir {
            Some(0)
        } else {
            None
        }
    } else {
        match subdir_index(entries.drop_first(), names) {
            Some(i) => Some(i + 1),
            None => None,
        }
    }
}

/// The folder found has one of the names and is the first to end the search; where
/// none is found, no entry ends it, or the first to do so is of unknown type.
pub proof fn subdir_index_is_first(entries: Seq<EntryView>, names: Seq<Seq<char>>)
    ensures
        match subdir_index(entries, names) {
            Some(i) => {
                &&& 0 <= i < entries.len()
                &&& entries[i].kind == EntryKind::Dir
                &&& names.contains(lowercase(entries[i].name))
                &&& forall|j: int| 0 <= j < i ==> !ends_search(#[trigger] entries[j], names)
            },
            None => forall|i: int|
                0 <= i < entries.len() && names.contains(lowercase((#[trigger] entries[i]).name)) && entries[i].kind
                    == EntryKind::Dir ==> exists|j: int|
                    0 <= j < i && ends_search(#[trigger] entries[j], names) && entries[j].kind
                        == EntryKind::Unknown,
        },
    decreases entries.len(),
{
    if entries.len() > 0 && !ends_search(entries[0], names) {
        let rest = entries.drop_first();
        subdir_index_is_first(rest, names);
        match subdir_index(rest, names) {
            Some(i) => {
                assert(entries[i + 1] == rest[i]);
                assert forall|j: int| 0 <= j < i + 1 implies !ends_search(#[trigger] entries[j], names) by {
                    if j > 0 {
                        assert(entries[j] == rest[j - 1]);
                    }
                }
            },
            None => {
                assert forall|i: int|
                    0 <= i < entries.len() && names.contains(lowercase((#[trigger] entries[i]).name))
                        && entries[i].kind == EntryKind::Dir implies exists|j: int|
                    0 <= j < i && ends_search(#[trigger] entries[j], names) && entries[j].kind
                        == EntryKind::Unknown by {
                    assert(entries[i] == rest[i - 1]);
                    let j = choose|j: int|
                        0 <= j < i - 1 && ends_search(#[trigger] rest[j], names) && rest[j].kind
                            == EntryKind::Unknown;
                    assert(entries[j + 1] == rest[j]);
                }
            },
        }
    }
}

/// Among entries whose types can all be told, a folder with one of the names is found where there
/// is one.
pub proof fn subdir_is_found(entries: Seq<EntryView>, names: Seq<Seq<char>>, i: int)
    requires
        forall|j: int| 0 <= j < entries.len() ==> (#[trigger] entries[j]).kind != EntryKind::Unknown,
        0 <= i < entries.len(),
        entries[i].kind == EntryKind::Dir,
        names.contains(lowercase(entries[i].name)),
    ensures
        subdir_index(entries, names) is Some,
    decreases entries.len(),
{
    assert(entries[0].kind != EntryKind::Unknown);
    if !ends_search(entries[0], names) {
        let rest = entries.drop_first();
        assert forall|j: int| 0 <= j < rest.len() implies (#[trigger] rest[j]).kind != EntryKind::Unknown by {
            assert(rest[j] == entries[j + 1]);
        }
        assert(rest[i - 1] == entries[i]);
        subdir_is_found(rest, names, i - 1);
    }
}

/// Where in a listing the first folder with one of the names stands, whatever the
/// case of its letters.
pub fn find_subdir_ci(entries: &Vec<Entry>, names: &Vec<&str>) -> (r: Option<usize>)
    ensures
        match r {
            Some(i) => i < entries.len() && subdir_index(listing_view(entries@), texts(names@)) == Some(i as int),
            None => subdir_index(listing_view(entries@), texts(names@)) is None,
        },
{
    let ghost all = listing_view(entries@);
    let ghost list = texts(names@);
    let mut i: usize = 0;
    assert(all.skip(0) =~= all);
    while i < entries.len()
        invariant
            i <= entries.len(),
            all == listing_view(entries@),
            list == texts(names@),
            subdir_index(all, list) == (match subdir_index(all.skip(i as int), list) {
                Some(k) => Some(k + i),
                None => None,
            }),
        decreases entries.len() - i,
    {
        let lower: String = entries[i].name.as_str().to_lowercase();
        assert(all.skip(i as int)[0] == entries@[i as int]@);
        assert(all.skip(i as int).drop_first() =~= all.skip(i + 1));
        if is_one_of(lower.as_str(), names) {
            match entries[i].kind {
                EntryKind::Dir => {
                    return Some(i);
                },
                EntryKind::Unknown => {
                    return None;
                },
                _ => {},
            }
        }
        i = i + 1;
    }
    None
}

/// A regular file that is a photo, a raw file or a video.
pub open spec fn is_media_file(e: EntryView) -> bool {
    e.kind == EntryKind::File && name_category(e.name) is Some
}

/// How many media files a listing holds.
pub open spec fn media_count(entries: Seq<EntryView>) -> nat {
    entries.filter(|e: EntryView| is_media_file(e)).len()
}

/// How many media files a listing holds.
pub fn count_media_files(entries: &Vec<Entry>) -> (r: usize)
    ensures
        r == media_count(listing_view(entries@)),
{
    let ghost all = listing_view(entries@);
    let ghost media = |e: EntryView| is_media_file(e);
    let mut n: usize = 0;
    let mut i: usize = 0;
    proof {
        reveal(Seq::filter);
    }
    while i < entries.len()
        invariant
            i <= entries.len(),
            n <= i,
            all == listing_view(entries@),
            media == (|e: EntryView| is_media_file(e)),
            n == all.take(i as int).filter(media).len(),
        decreases entries.len() - i,
    {
        proof {
            reveal(Seq::filter);
            assert(all.take(i + 1).drop_last() =~= all.take(i as int));
            assert(all.take(i + 1).last() == entries@[i as int]@);
        }
        if entries[i].kind == EntryKind::File {
            let ext: String = lower_ext_of(entries[i].name.as_str());
            if is_media_ext(ext.as_str()) {
                n = n + 1;
            }
        }
        i = i + 1;
    }
    assert(all.take(all.len() as int) =~= all);
    n
}

/// Which entry of a folder's listing its media files are counted in, rather than in the folder
/// itself: its folder of photos, where it has no media files of its own.
pub open spec fn counted_entry(entries: Seq<EntryView>) -> Option<int> {
    if media_count(entries) == 0 {
        subdir_index(entries, jpeg_dir_names())
    } else {
        None
    }
}

/// Which entry of a folder's listing its media files are counted in, rather than in the folder
/// itself.
pub fn media_subfolder(entries: &Vec<Entry>) -> (r: Option<usize>)
    ensures
        match r {
            Some(i) => i < entries.len() && counted_entry(listing_view(entries@)) == Some(i as int),
            None => counted_entry(listing_view(entries@)) is None,
        },
{
    if count_media_files(entries) == 0 {
        find_subdir_ci(entries, &jpeg_dir_list())
    } else {
        None
    }
}

/// The hint of how many media files a folder holds, from its listing and the listing of the entry
/// that [`counted_entry`] gives.
pub open spec fn media_hint(entries: Seq<EntryView>, sub: Seq<EntryView>) -> nat {
    match counted_entry(entries) {
        Some(_) => media_count(sub),
        None => media_count(entries),
    }
}

/// Counts the media files directly in a folder, or those in its folder of photos if it is
/// already sorted. `sub` is the listing of the entry that [`media_subfolder`] gives.
pub fn count_media(entries: &Vec<Entry>, sub: &Vec<Entry>) -> (r: usize)
    ensures
        r == media_hint(listing_view(entries@), listing_view(sub@)),
{
    match media_subfolder(entries) {
        Some(_) => count_media_files(sub),
        None => count_media_files(entries),
    }
}

} // verus!
