//! What a deletion does to the files of the opened folder, for every state of them.
//!
//! A [`Disk`] is the part of a file system that a deletion touches. What the deletion wants
//! done is done to it, as far as it can be, and the deletion is told the truth about it.

use vstd::prelude::*;

use crate::delete::{
    raw_file_exts, raw_file_name, DeleteActionView, DeleteReplyView, DeleteStage, DeleteState,
};
use crate::listing::{jpeg_dir_names, raw_dir_names, EntryView};
use crate::reply::{PlaceView, RefusalView, INTERNAL_ERROR};
use crate::session::{session_dirs_have_their_names, session_of, SessionView};
use crate::text::{
    ascii_lower, extended_name_stays_in_its_folder, file_stem, is_component, is_safe_name, lowercase,
    name_is_stem_dot_extension, safe_name_stays_in_its_folder,
};
use crate::thumbs::thumb_name_is_component;

verus! {

/// The files in the folders of an opened folder, each with a number that stands for what it
/// holds; those that can be neither moved nor removed; and what an attempt to make the folder of
/// deleted files is answered where it fails.
///
/// All that can be moved is a file here. A request's name can be empty or a single dot, and then stands
/// for the folder of photos itself, which a file system can move with all that is in it: what a
/// deletion does to the files is stated of names of files only.
pub struct Disk {
    pub files: Map<PlaceView, int>,
    pub stuck: Set<PlaceView>,
    pub refusal: Option<Seq<char>>,
}

impl Disk {
    /// There is a file at the place.
    pub open spec fn has(self, p: PlaceView) -> bool {
        self.files.dom().contains(p)
    }

    /// The file can be moved.
    pub open spec fn movable(self, p: PlaceView) -> bool {
        self.has(p) && !self.stuck.contains(p)
    }

    /// The disk with the file moved, over whatever is where it goes.
    pub open spec fn moved(self, from: PlaceView, to: PlaceView) -> Disk {
        Disk { files: self.files.remove(from).insert(to, self.files[from]), ..self }
    }

    /// The disk without the file, unless it cannot be removed.
    pub open spec fn without(self, p: PlaceView) -> Disk {
        if self.stuck.contains(p) {
            self
        } else {
            Disk { files: self.files.remove(p), ..self }
        }
    }

    /// What the deletion is told after its action on this disk.
    pub open spec fn answer(self, action: DeleteActionView) -> DeleteReplyView {
        match action {
            DeleteActionView::MakeDir(_) => match self.refusal {
                Some(e) => DeleteReplyView::Made(Err(e)),
                None => DeleteReplyView::Made(Ok(())),
            },
            DeleteActionView::Probe(p) => DeleteReplyView::Probed(self.has(p)),
            DeleteActionView::Rename(p, _) => DeleteReplyView::Renamed(self.movable(p)),
            _ => DeleteReplyView::Removed,
        }
    }

    /// The disk after the deletion's action on it.
    pub open spec fn after(self, action: DeleteActionView) -> Disk {
        match action {
            DeleteActionView::Rename(p, q) => if self.movable(p) {
                self.moved(p, q)
            } else {
                self
            },
            DeleteActionView::Remove(p) => self.without(p),
            _ => self,
        }
    }
}

/// How many actions a deletion has left at most.
pub open spec fn deletion_left(s: DeleteState) -> int {
    let n = raw_file_exts().len() as int;
    match s.stage {
        DeleteStage::MakeTrash => 2 * n + 5,
        DeleteStage::ProbePhoto => 2 * n + 4,
        DeleteStage::MovePhoto => 2 * n + 3,
        DeleteStage::ProbeRaw(i) => 2 * (n - i) + 2,
        DeleteStage::MoveRaw(i) => 2 * (n - i) + 1,
        DeleteStage::DropThumb => 1,
        DeleteStage::Done => 0,
        DeleteStage::Refused(_) => 0,
    }
}

/// Whatever the replies, a deletion ends: every reply that it waits for brings it closer to
/// its end.
pub proof fn every_reply_brings_the_answer_closer(s: DeleteState, reply: DeleteReplyView)
    requires
        s.wf(),
    ensures
        s.step(reply) == s || 0 <= deletion_left(s.step(reply)) < deletion_left(s),
        s.step(reply).wf(),
{
}

/// A deletion moves files into the folder of deleted files only, and removes nothing but the
/// photo's thumbnail.
pub proof fn deletion_only_fills_the_trash(s: DeleteState)
    ensures
        match s.action() {
            DeleteActionView::Rename(p, q) => q == s.trash(p.name) && (p == s.photo() || (s.stage
                matches DeleteStage::MoveRaw(i) && p == s.raw(i))),
            DeleteActionView::Remove(p) => p == s.thumb(),
            DeleteActionView::MakeDir(d) => d == s.session.trash_dir,
            _ => true,
        },
{
}

/// A file is moved only right after it was found to be there.
pub proof fn deletion_moves_only_what_is_there(s: DeleteState, reply: DeleteReplyView, p: PlaceView, q: PlaceView)
    requires
        s.step(reply) != s,
        s.step(reply).action() == DeleteActionView::Rename(p, q),
    ensures
        s.action() == DeleteActionView::Probe(p),
        reply == DeleteReplyView::Probed(true),
{
}

/// The deletion carried out on a disk to its end.
pub open spec fn deleted(s: DeleteState, w: Disk) -> (DeleteState, Disk)
    decreases deletion_left(s),
    when s.wf()
{
    if s.action() is Finished {
        (s, w)
    } else {
        deleted(s.step(w.answer(s.action())), w.after(s.action()))
    }
}

/// Which of the extensions, from number `i` on, the first raw file that is there has.
pub open spec fn first_raw(s: DeleteState, w: Disk, i: int) -> Option<int>
    decreases raw_file_exts().len() - i,
{
    if i >= raw_file_exts().len() {
        None
    } else if w.has(s.raw(i)) {
        Some(i)
    } else {
        first_raw(s, w, i + 1)
    }
}

/// The raw file that goes with the photo, if there is one.
pub open spec fn raw_to_move(s: DeleteState, w: Disk) -> Option<int> {
    if s.has_raws() {
        first_raw(s, w, 0)
    } else {
        None
    }
}

/// The disk, and the names of the files moved, once the raw file and the thumbnail are dealt
/// with.
pub open spec fn raw_dealt_with(s: DeleteState, w: Disk) -> (Seq<Seq<char>>, Disk) {
    match raw_to_move(s, w) {
        Some(i) => if w.movable(s.raw(i)) {
            (
                s.moved.push(s.raw(i).name),
                w.moved(s.raw(i), s.trash(s.raw(i).name)).without(s.thumb()),
            )
        } else {
            (s.moved, w.without(s.thumb()))
        },
        None => (s.moved, w.without(s.thumb())),
    }
}

proof fn drop_thumb(s: DeleteState, w: Disk)
    requires
        s.stage is DropThumb,
    ensures
        deleted(s, w) == (s.at(DeleteStage::Done), w.without(s.thumb())),
{
    let t = s.step(w.answer(s.action()));
    assert(deleted(s, w) == deleted(t, w.after(s.action())));
}

proof fn raws_dealt_with(s: DeleteState, w: Disk, i: int)
    requires
        s.has_raws(),
        0 <= i < raw_file_exts().len(),
        s.stage == DeleteStage::ProbeRaw(i),
    ensures
        ({
            let (t, v) = deleted(s, w);
            match first_raw(s, w, i) {
                Some(k) => if w.movable(s.raw(k)) {
                    &&& t == s.with(s.raw(k).name).at(DeleteStage::Done)
                    &&& v == w.moved(s.raw(k), s.trash(s.raw(k).name)).without(s.thumb())
                } else {
                    t == s.at(DeleteStage::Done) && v == w.without(s.thumb())
                },
                None => t == s.at(DeleteStage::Done) && v == w.without(s.thumb()),
            }
        }),
    decreases raw_file_exts().len() - i,
{
    let t = s.step(w.answer(s.action()));
    assert(deleted(s, w) == deleted(t, w));
    if w.has(s.raw(i)) {
        let u = t.step(w.answer(t.action()));
        assert(deleted(t, w) == deleted(u, w.after(t.action())));
        drop_thumb(u, w.after(t.action()));
    } else if i + 1 < raw_file_exts().len() {
        first_raw_of_stage(s, t, w, i + 1);
        raws_dealt_with(t, w, i + 1);
    } else {
        drop_thumb(t, w);
    }
}

proof fn first_raw_of_stage(s: DeleteState, t: DeleteState, w: Disk, i: int)
    requires
        s.session == t.session,
        s.name == t.name,
    ensures
        first_raw(s, w, i) == first_raw(t, w, i),
    decreases raw_file_exts().len() - i,
{
    if i < raw_file_exts().len() {
        first_raw_of_stage(s, t, w, i + 1);
    }
}

/// What a deletion does and what it is answered, on every disk.
///
/// Without the folder of deleted files, and where the photo is there but cannot be moved, it is
/// refused and nothing has changed. Else the photo, if it is there, has moved into the folder
/// of deleted files; so has the first raw file with the photo's stem that is there, if it can be
/// moved; the photo's thumbnail is gone, if it can be removed; and the answer names the files that
/// were moved, the photo first.
pub proof fn deletion_outcome(session: SessionView, name: Seq<char>, w: Disk)
    ensures
        ({
            let s = DeleteState::start(session, name);
            let (t, v) = deleted(s, w);
            if w.refusal is Some {
                &&& v == w
                &&& t.stage == DeleteStage::Refused(
                    RefusalView { status: INTERNAL_ERROR, message: "trash: "@ + w.refusal->0 },
                )
            } else if w.has(s.photo()) && !w.movable(s.photo()) {
                &&& v == w
                &&& t.stage == DeleteStage::Refused(
                    RefusalView { status: INTERNAL_ERROR, message: "rename jpg failed"@ },
                )
            } else {
                let p = if w.has(s.photo()) {
                    (s.with(name), w.moved(s.photo(), s.trash(name)))
                } else {
                    (s, w)
                };
                &&& t.stage == DeleteStage::Done
                &&& t.moved == raw_dealt_with(p.0, p.1).0
                &&& v == raw_dealt_with(p.0, p.1).1
            }
        }),
{
    let s = DeleteState::start(session, name);
    let s1 = s.step(w.answer(s.action()));
    assert(deleted(s, w) == deleted(s1, w));
    if w.refusal is None {
        let s2 = s1.step(w.answer(s1.action()));
        assert(deleted(s1, w) == deleted(s2, w));
        if !w.has(s.photo()) {
            after_the_photo(s2, s, w);
        } else {
            let s3 = s2.step(w.answer(s2.action()));
            let w3 = w.after(s2.action());
            assert(deleted(s2, w) == deleted(s3, w3));
            if w.movable(s.photo()) {
                after_the_photo(s3, s.with(name), w3);
            }
        }
    }
}

proof fn after_the_photo(s: DeleteState, p: DeleteState, w: Disk)
    requires
        s == p.at(p.raw_stage()),
    ensures
        deleted(s, w).0.stage == DeleteStage::Done,
        deleted(s, w).0.moved == raw_dealt_with(p, w).0,
        deleted(s, w).1 == raw_dealt_with(p, w).1,
{
    if p.has_raws() {
        first_raw_of_stage(s, p, w, 0);
        raws_dealt_with(s, w, 0);
    } else {
        drop_thumb(s, w);
    }
}

/// No file is taken for another: photos, raw files, deleted files and thumbnails are in four
/// different folders.
pub open spec fn folders_differ(s: SessionView) -> bool {
    &&& s.jpeg_dir != s.trash_dir
    &&& s.jpeg_dir != s.thumb_cache
    &&& s.trash_dir != s.thumb_cache
    &&& s.raw_dir matches Some(d) ==> d != s.jpeg_dir && d != s.trash_dir && d != s.thumb_cache
}

/// The texts of lower-case ASCII letters, dots and underscores stay as they are in lower case.
proof fn fixed_names()
    ensures
        lowercase("_deleted"@) == "_deleted"@,
        lowercase(".thumb_cache"@) == ".thumb_cache"@,
        lowercase("jpegs"@) == "jpegs"@,
        "_deleted"@ != ".thumb_cache"@,
        !jpeg_dir_names().contains("_deleted"@),
        !jpeg_dir_names().contains(".thumb_cache"@),
        jpeg_dir_names().contains("jpegs"@),
        !raw_dir_names().contains("_deleted"@),
        !raw_dir_names().contains(".thumb_cache"@),
        forall|n: Seq<char>| jpeg_dir_names().contains(n) ==> !raw_dir_names().contains(n),
{
    reveal_strlit("_deleted");
    reveal_strlit(".thumb_cache");
    reveal_strlit("jpegs");
    reveal_strlit("jpeg");
    reveal_strlit("jpg");
    reveal_strlit("raws");
    reveal_strlit("raw");
    reveal_strlit("arw");
    assert("_deleted"@ =~= seq!['_', 'd', 'e', 'l', 'e', 't', 'e', 'd']);
    assert(".thumb_cache"@ =~= seq!['.', 't', 'h', 'u', 'm', 'b', '_', 'c', 'a', 'c', 'h', 'e']);
    assert("jpegs"@ =~= seq!['j', 'p', 'e', 'g', 's']);
    assert(ascii_lower("_deleted"@) =~= "_deleted"@);
    assert(ascii_lower(".thumb_cache"@) =~= ".thumb_cache"@);
    assert(ascii_lower("jpegs"@) =~= "jpegs"@);
    assert("jpeg"@[0] == 'j' && "jpg"@[0] == 'j' && "raws"@[0] == 'r' && "raw"@[0] == 'r' && "arw"@[0] == 'a');
    assert(jpeg_dir_names()[0] == "jpegs"@);
    assert forall|n: Seq<char>| jpeg_dir_names().contains(n) implies n[0] == 'j' by {}
    assert forall|n: Seq<char>| raw_dir_names().contains(n) implies n[0] == 'r' || n[0] == 'a' by {}
    assert("_deleted"@[0] == '_' && ".thumb_cache"@[0] == '.');
}

/// The folders of an opened folder are four different ones.
pub proof fn session_folders_differ(root: Seq<char>, entries: Seq<EntryView>)
    ensures
        folders_differ(session_of(root, entries)),
{
    session_dirs_have_their_names(root, entries);
    fixed_names();
}

/// A deletion loses no file but the photo's thumbnail and what the folder of deleted files
/// already held under the names of the files moved into it. Every other file is where it was, or is
/// the photo or its raw file and is in the folder of deleted files, with what it held. The photo and
/// the raw file must not have the same name, or the second would replace the first.
pub proof fn deletion_keeps_every_file(session: SessionView, name: Seq<char>, w: Disk, p: PlaceView)
    requires
        folders_differ(session),
        is_component(name),
        forall|i: int|
            0 <= i < raw_file_exts().len() && file_stem(name) is Some ==> name != #[trigger] raw_file_name(
                file_stem(name)->0,
                i,
            ),
        w.has(p),
        p != DeleteState::start(session, name).thumb(),
        p.dir == session.trash_dir ==> p.name != name && forall|i: int|
            0 <= i < raw_file_exts().len() && file_stem(name) is Some ==> p.name != #[trigger] raw_file_name(
                file_stem(name)->0,
                i,
            ),
    ensures
        ({
            let s = DeleteState::start(session, name);
            let v = deleted(s, w).1;
            let q = s.trash(p.name);
            ||| v.has(p) && v.files[p] == w.files[p]
            ||| v.has(q) && v.files[q] == w.files[p] && (p == s.photo() || exists|i: int|
                0 <= i < raw_file_exts().len() && p == #[trigger] s.raw(i))
        }),
{
    let s = DeleteState::start(session, name);
    deletion_outcome(session, name, w);
    if w.refusal is None && !(w.has(s.photo()) && !w.movable(s.photo())) {
        let (s1, w1) = if w.has(s.photo()) {
            (s.with(name), w.moved(s.photo(), s.trash(name)))
        } else {
            (s, w)
        };
        if s1.has_raws() {
            first_raw_is_there(s1, w1, 0);
            if let Some(i) = first_raw(s1, w1, 0) {
                assert(s1.raw(i) == s.raw(i));
                assert(s.raw(i).name == raw_file_name(file_stem(name)->0, i));
            }
        }
    }
}

/// After a deletion that was not refused the photo is not there any more, nor is its thumbnail,
/// unless that one cannot be removed.
pub proof fn deleted_photo_is_gone(session: SessionView, name: Seq<char>, w: Disk)
    requires
        folders_differ(session),
        is_component(name),
    ensures
        ({
            let s = DeleteState::start(session, name);
            let (t, v) = deleted(s, w);
            t.stage is Done ==> !v.has(s.photo()) && (v.has(s.thumb()) ==> w.stuck.contains(s.thumb()))
        }),
{
    let s = DeleteState::start(session, name);
    deletion_outcome(session, name, w);
    if w.refusal is None && !(w.has(s.photo()) && !w.movable(s.photo())) {
        let (s1, w1) = if w.has(s.photo()) {
            (s.with(name), w.moved(s.photo(), s.trash(name)))
        } else {
            (s, w)
        };
        assert(!w1.has(s.photo()));
    }
}

/// A deletion that was not refused takes no file but the photo out of the folder of photos, and puts
/// none there.
pub proof fn deletion_takes_one_photo(session: SessionView, name: Seq<char>, w: Disk, n: Seq<char>)
    requires
        folders_differ(session),
        is_component(name),
        deleted(DeleteState::start(session, name), w).0.stage is Done,
    ensures
        ({
            let p = PlaceView { dir: session.jpeg_dir, name: n };
            deleted(DeleteState::start(session, name), w).1.has(p) <==> w.has(p) && n != name
        }),
{
    deleted_photo_is_gone(session, name, w);
    deletion_outcome(session, name, w);
}

/// What is meant by the first raw file: the file is there, and none with an earlier extension
/// is.
pub proof fn first_raw_is_there(s: DeleteState, w: Disk, i: int)
    requires
        0 <= i,
    ensures
        match first_raw(s, w, i) {
            Some(k) => i <= k < raw_file_exts().len() && w.has(s.raw(k)) && forall|j: int|
                i <= j < k ==> !w.has(#[trigger] s.raw(j)),
            None => forall|j: int| i <= j < raw_file_exts().len() ==> !w.has(#[trigger] s.raw(j)),
        },
    decreases raw_file_exts().len() - i,
{
    if i < raw_file_exts().len() && !w.has(s.raw(i)) {
        first_raw_is_there(s, w, i + 1);
    }
}

/// The place is directly in one of the folders of the opened folder, or is the folder of photos
/// itself where the request's name is empty or a single dot.
pub open spec fn is_inside(s: DeleteState, p: PlaceView) -> bool {
    &&& p.dir == s.session.jpeg_dir || p.dir == s.session.trash_dir || p.dir == s.session.thumb_cache
        || Some(p.dir) == s.session.raw_dir
    &&& is_component(p.name) || (p.name == s.name && (s.name.len() == 0 || s.name == seq!['.']))
}

/// A deletion of a photo with a safe name touches nothing outside the folders of the opened
/// folder.
pub proof fn deletion_stays_in_its_folders(s: DeleteState)
    requires
        s.wf(),
        is_safe_name(s.name),
    ensures
        match s.action() {
            DeleteActionView::Probe(p) => is_inside(s, p),
            DeleteActionView::Rename(p, q) => is_inside(s, p) && is_inside(s, q),
            DeleteActionView::Remove(p) => is_inside(s, p),
            _ => true,
        },
{
    safe_name_stays_in_its_folder(s.name);
    thumb_name_is_component(s.name);
    match s.stage {
        DeleteStage::ProbeRaw(i) => raw_name_is_component(s.name, i),
        DeleteStage::MoveRaw(i) => raw_name_is_component(s.name, i),
        _ => {},
    }
}

proof fn raw_name_is_component(name: Seq<char>, i: int)
    requires
        is_safe_name(name),
        file_stem(name) is Some,
        0 <= i < raw_file_exts().len(),
    ensures
        is_component(raw_file_name(file_stem(name)->0, i)),
{
    let stem = file_stem(name)->0;
    name_is_stem_dot_extension(name);
    assert forall|k: int| 0 <= k < stem.len() implies stem[k] != '/' && stem[k] != '\\' by {
        assert(stem[k] == name[k]);
        assert(name.contains(name[k]));
    }
    let tail = "."@ + raw_file_exts()[i];
    reveal_strlit(".");
    reveal_strlit("ARW");
    reveal_strlit("arw");
    reveal_strlit("CR2");
    reveal_strlit("cr2");
    reveal_strlit("NEF");
    reveal_strlit("nef");
    reveal_strlit("DNG");
    reveal_strlit("dng");
    reveal_strlit("RAF");
    reveal_strlit("raf");
    assert("."@ =~= seq!['.']);
    assert("ARW"@ =~= seq!['A', 'R', 'W']);
    assert("arw"@ =~= seq!['a', 'r', 'w']);
    assert("CR2"@ =~= seq!['C', 'R', '2']);
    assert("cr2"@ =~= seq!['c', 'r', '2']);
    assert("NEF"@ =~= seq!['N', 'E', 'F']);
    assert("nef"@ =~= seq!['n', 'e', 'f']);
    assert("DNG"@ =~= seq!['D', 'N', 'G']);
    assert("dng"@ =~= seq!['d', 'n', 'g']);
    assert("RAF"@ =~= seq!['R', 'A', 'F']);
    assert("raf"@ =~= seq!['r', 'a', 'f']);
    assert(tail.len() == 4);
    assert forall|k: int| 0 <= k < tail.len() implies tail[k] != '/' && tail[k] != '\\' by {
        if k > 0 {
            assert(tail[k] == raw_file_exts()[i][k - 1]);
        }
    }
    extended_name_stays_in_its_folder(stem, tail);
    assert(stem + tail =~= raw_file_name(stem, i));
}

} // verus!
