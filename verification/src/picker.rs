//! The folder picker: where it starts, and what it shows of a folder.

use vstd::prelude::*;

use crate::listing::{count_media, listing_view, media_hint, Entry, EntryKind, EntryView};
use crate::order::{is_stable_order, key_texts, stable_order, stable_order_is_unique};
use crate::text::{chars_of, join_path, joined, lowercase, optional_text};

verus! {

/// The user's home folder: what the variable `HOME` holds, else what `USERPROFILE` holds, else
/// the root of the file system.
pub open spec fn home_path(home: Option<Seq<char>>, profile: Option<Seq<char>>) -> Seq<char> {
    match (home, profile) {
        (Some(h), _) => h,
        (None, Some(p)) => p,
        (None, None) => "/"@,
    }
}

/// The user's home folder: what the variable `HOME` holds, else what `USERPROFILE` holds, else
/// the root of the file system.
pub fn home_dir(home: Option<String>, profile: Option<String>) -> (r: String)
    ensures
        r@ == home_path(optional_text(home), optional_text(profile)),
{
    match home {
        Some(h) => h,
        None => match profile {
            Some(p) => p,
            None => "/".to_owned(),
        },
    }
}

/// The folder that the picker looks for in the user's home.
pub open spec fn downloads(home: Seq<char>, sep: Seq<char>) -> Seq<char> {
    joined(home, sep, "Downloads"@)
}

/// The folder that the picker looks for in the user's home.
pub fn downloads_dir(home: &str, sep: &str) -> (r: String)
    ensures
        r@ == downloads(home@, sep@),
{
    join_path(home, sep, "Downloads")
}

/// The folder that the picker opens to by default: the downloads in the user's home where they
/// are a folder, else that home.
pub open spec fn default_dir(home: Seq<char>, sep: Seq<char>, has_downloads: bool) -> Seq<char> {
    if has_downloads {
        downloads(home, sep)
    } else {
        home
    }
}

/// The folder that the picker opens to by default: the downloads in the user's home where they
/// are a folder, else that home.
pub fn default_browse_dir(home: &str, sep: &str, has_downloads: bool) -> (r: String)
    ensures
        r@ == default_dir(home@, sep@, has_downloads),
{
    if has_downloads {
        downloads_dir(home, sep)
    } else {
        home.to_owned()
    }
}

/// The folder that the picker opens to: the one asked for, unless none is or its path is
/// empty.
pub open spec fn start_path(
    asked: Option<Seq<char>>,
    home: Seq<char>,
    sep: Seq<char>,
    has_downloads: bool,
) -> Seq<char> {
    match asked {
        Some(p) => if p.len() > 0 {
            p
        } else {
            default_dir(home, sep, has_downloads)
        },
        None => default_dir(home, sep, has_downloads),
    }
}

/// The folder that the picker opens to: the one asked for, unless none is or its path is
/// empty.
pub fn start_dir(asked: Option<String>, home: &str, sep: &str, has_downloads: bool) -> (r: String)
    ensures
        r@ == start_path(optional_text(asked), home@, sep@, has_downloads),
{
    match asked {
        Some(p) => if !p.as_str().is_empty() {
            p
        } else {
            default_browse_dir(home, sep, has_downloads)
        },
        None => default_browse_dir(home, sep, has_downloads),
    }
}

/// The picker shows folders that are not hidden.
pub open spec fn is_shown(e: EntryView) -> bool {
    e.kind == EntryKind::Dir && !(e.name.len() > 0 && e.name[0] == '.')
}

/// Whether the picker shows an entry.
pub fn shows(e: &Entry) -> (r: bool)
    ensures
        r == is_shown(e@),
{
    let hidden: bool = match e.name.as_str().chars().next() {
        Some(c) => c == '.',
        None => false,
    };
    !hidden && e.kind == EntryKind::Dir
}

/// An entry of the listing of a folder that is browsed: the entry and, if it is one that the picker
/// shows, its own listing and the listing of the folder in it that its media files are counted in.
#[derive(Debug)]
pub struct Found {
    pub entry: Entry,
    pub entries: Vec<Entry>,
    pub sub: Vec<Entry>,
}

/// A folder as the picker shows it, with a hint of how many media files it holds.
#[derive(Debug)]
pub struct DirEntryInfo {
    pub name: String,
    pub path: String,
    pub photos: usize,
}

/// A folder as the picker shows it, with its texts as sequences of characters.
pub struct DirEntryInfoView {
    pub name: Seq<char>,
    pub path: Seq<char>,
    pub photos: nat,
}

impl View for DirEntryInfo {
    type V = DirEntryInfoView;

    open spec fn view(&self) -> DirEntryInfoView {
        DirEntryInfoView { name: self.name@, path: self.path@, photos: self.photos as nat }
    }
}

/// A list of folders as the picker shows them.
pub open spec fn infos_view(list: Seq<DirEntryInfo>) -> Seq<DirEntryInfoView> {
    list.map_values(|e: DirEntryInfo| e@)
}

/// An entry of the folder `dir` as the picker shows it: with its path, and with the hint of how many
/// media files it holds.
pub open spec fn info_of(dir: Seq<char>, sep: Seq<char>, f: Found) -> DirEntryInfoView {
    DirEntryInfoView {
        name: f.entry.name@,
        path: joined(dir, sep, f.entry.name@),
        photos: media_hint(listing_view(f.entries@), listing_view(f.sub@)),
    }
}

/// The entries that the picker shows, in the order of the listing.
pub open spec fn shown_infos(dir: Seq<char>, sep: Seq<char>, found: Seq<Found>) -> Seq<DirEntryInfoView> {
    found.filter(|f: Found| is_shown(f.entry@)).map_values(|f: Found| info_of(dir, sep, f))
}

/// What the picker shows of a folder.
#[derive(Debug)]
pub struct BrowseResponse {
    pub path: String,
    pub parent: Option<String>,
    pub home: String,
    pub entries: Vec<DirEntryInfo>,
}

/// A folder as it is found at a path: where it really is, the folder above it, and its listing.
pub struct FolderView {
    pub path: Seq<char>,
    pub parent: Option<Seq<char>>,
    pub found: Seq<Found>,
}

/// The keys by which the picker's folders are sorted: their names in lower case.
pub open spec fn browse_keys(entries: Seq<DirEntryInfoView>) -> Seq<Seq<char>> {
    entries.map_values(|e: DirEntryInfoView| lowercase(e.name))
}

/// `sorted` holds the folders of `entries`, placed as `order` says.
pub open spec fn is_reordered(entries: Seq<DirEntryInfoView>, sorted: Seq<DirEntryInfoView>, order: Seq<usize>) -> bool {
    &&& sorted.len() == order.len()
    &&& forall|k: int| 0 <= k < sorted.len() ==> #[trigger] sorted[k] == entries[order[k] as int]
}

/// `sorted` holds the folders of `entries` in the order of their names, whatever the case
/// of the letters; folders with the same name keep their order.
pub open spec fn is_browse_order(entries: Seq<DirEntryInfoView>, sorted: Seq<DirEntryInfoView>) -> bool {
    exists|order: Seq<usize>| #[trigger]
        is_stable_order(browse_keys(entries), order) && is_reordered(entries, sorted, order)
}

/// There is one order only in which the picker shows the folders of a folder.
pub proof fn browse_order_is_unique(
    entries: Seq<DirEntryInfoView>,
    a: Seq<DirEntryInfoView>,
    b: Seq<DirEntryInfoView>,
)
    requires
        entries.len() <= usize::MAX,
        is_browse_order(entries, a),
        is_browse_order(entries, b),
    ensures
        a == b,
{
    let keys = browse_keys(entries);
    let p = choose|order: Seq<usize>| #[trigger]
        is_stable_order(keys, order) && is_reordered(entries, a, order);
    let q = choose|order: Seq<usize>| #[trigger]
        is_stable_order(keys, order) && is_reordered(entries, b, order);
    stable_order_is_unique(keys, p, q);
    assert(a =~= b);
}

fn shown_among(dir: &str, sep: &str, found: &Vec<Found>) -> (r: Vec<DirEntryInfo>)
    ensures
        infos_view(r@) == shown_infos(dir@, sep@, found@),
{
    let ghost shown = |f: Found| is_shown(f.entry@);
    let ghost info = |f: Found| info_of(dir@, sep@, f);
    let mut r: Vec<DirEntryInfo> = Vec::new();
    let mut i: usize = 0;
    proof {
        reveal(Seq::filter);
        assert(infos_view(r@) =~= found@.take(0).filter(shown).map_values(info));
    }
    while i < found.len()
        invariant
            i <= found.len(),
            shown == (|f: Found| is_shown(f.entry@)),
            info == (|f: Found| info_of(dir@, sep@, f)),
            infos_view(r@) == found@.take(i as int).filter(shown).map_values(info),
        decreases found.len() - i,
    {
        let ghost before = r@;
        let ghost kept = found@.take(i as int).filter(shown);
        let f: &Found = &found[i];
        proof {
            reveal(Seq::filter);
            assert(found@.take(i + 1).drop_last() =~= found@.take(i as int));
            assert(found@.take(i + 1).last() == f);
        }
        if shows(&f.entry) {
            let path: String = join_path(dir, sep, f.entry.name.as_str());
            let photos: usize = count_media(&f.entries, &f.sub);
            r.push(DirEntryInfo { name: f.entry.name.clone(), path, photos });
            proof {
                assert(found@.take(i + 1).filter(shown) == kept.push(*f));
                assert(kept.push(*f).map_values(info) =~= kept.map_values(info).push(info_of(dir@, sep@, *f)));
                assert(infos_view(r@) =~= infos_view(before).push(info_of(dir@, sep@, *f)));
            }
        }
        i = i + 1;
    }
    assert(found@.take(found@.len() as int) =~= found@);
    r
}

fn sort_infos(entries: &Vec<DirEntryInfo>) -> (r: Vec<DirEntryInfo>)
    ensures
        is_browse_order(infos_view(entries@), infos_view(r@)),
{
    let ghost all = infos_view(entries@);
    let mut keys: Vec<Vec<char>> = Vec::new();
    let mut i: usize = 0;
    while i < entries.len()
        invariant
            i <= entries.len(),
            keys@.len() == i,
            forall|k: int| 0 <= k < i ==> (#[trigger] keys@[k])@ == lowercase(entries@[k].name@),
        decreases entries.len() - i,
    {
        let lower: String = entries[i].name.as_str().to_lowercase();
        keys.push(chars_of(lower.as_str()));
        i = i + 1;
    }
    assert(key_texts(keys@) =~= browse_keys(all));
    let order: Vec<usize> = stable_order(&keys);
    let mut sorted: Vec<DirEntryInfo> = Vec::new();
    let mut k: usize = 0;
    while k < order.len()
        invariant
            k <= order.len(),
            sorted@.len() == k,
            all == infos_view(entries@),
            is_stable_order(browse_keys(all), order@),
            forall|l: int| 0 <= l < k ==> (#[trigger] sorted@[l])@ == entries@[order@[l] as int]@,
        decreases order.len() - k,
    {
        let e: &DirEntryInfo = &entries[order[k]];
        sorted.push(DirEntryInfo { name: e.name.clone(), path: e.path.clone(), photos: e.photos });
        k = k + 1;
    }
    assert(is_stable_order(browse_keys(all), order@) && is_reordered(all, infos_view(sorted@), order@));
    sorted
}

/// `r` shows a folder with the given listing: where it is, the folder above it, the user's home, and
/// the folders in it that are not hidden, in the order of their names.
pub open spec fn shows_folder(r: BrowseResponse, folder: FolderView, home: Seq<char>, sep: Seq<char>) -> bool {
    &&& r.path@ == folder.path
    &&& optional_text(r.parent) == folder.parent
    &&& r.home@ == home
    &&& is_browse_order(shown_infos(folder.path, sep, folder.found), infos_view(r.entries@))
}

/// What the picker shows of a folder with the given listing.
pub fn browse(path: String, sep: &str, parent: Option<String>, home: String, found: &Vec<Found>) -> (r:
    BrowseResponse)
    ensures
        shows_folder(
            r,
            (FolderView { path: path@, parent: optional_text(parent), found: found@ }),
            home@,
            sep@,
        ),
{
    let shown: Vec<DirEntryInfo> = shown_among(path.as_str(), sep, found);
    BrowseResponse { path, parent, home, entries: sort_infos(&shown) }
}

/// The folder that the picker opens to by default is shown alike whether it is asked for by no path,
/// by the empty path or by its own. `look` is what the file system holds at a path, as long as
/// it does not change.
pub proof fn default_folder_is_shown_alike(
    home: Seq<char>,
    sep: Seq<char>,
    has_downloads: bool,
    look: spec_fn(Seq<char>) -> FolderView,
    asked: Option<Seq<char>>,
    a: BrowseResponse,
    b: BrowseResponse,
)
    requires
        default_dir(home, sep, has_downloads).len() > 0,
        asked == Some(Seq::<char>::empty()) || asked == Some(default_dir(home, sep, has_downloads)),
        shows_folder(a, look(start_path(None, home, sep, has_downloads)), home, sep),
        shows_folder(b, look(start_path(asked, home, sep, has_downloads)), home, sep),
        look(default_dir(home, sep, has_downloads)).found.len() <= usize::MAX,
    ensures
        a.path@ == b.path@,
        optional_text(a.parent) == optional_text(b.parent),
        a.home@ == b.home@,
        infos_view(a.entries@) == infos_view(b.entries@),
{
    let folder = look(default_dir(home, sep, has_downloads));
    let shown = |f: Found| is_shown(f.entry@);
    filter_is_no_longer(folder.found, shown);
    browse_order_is_unique(
        shown_infos(folder.path, sep, folder.found),
        infos_view(a.entries@),
        infos_view(b.entries@),
    );
}

proof fn filter_is_no_longer<A>(s: Seq<A>, f: spec_fn(A) -> bool)
    ensures
        s.filter(f).len() <= s.len(),
    decreases s.len(),
{
    reveal(Seq::filter);
    if s.len() > 0 {
        filter_is_no_longer(s.drop_last(), f);
    }
}

} // verus!
