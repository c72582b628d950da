//! What a deletion does to the photo, to its raw file and to its thumbnail, place by place.

use vstd::prelude::*;

use crate::delete::{
    raw_file_exts, raw_file_name, DeleteActionView, DeleteReplyView, DeleteStage, DeleteState,
};
use crate::delete_laws::{
    deleted, deletion_outcome, first_raw, first_raw_is_there, folders_differ, Disk,
};
use crate::reply::PlaceView;
use crate::session::SessionView;
use crate::text::{file_stem, is_component};

verus! {

/// The file `name` in the folder `dir`.
pub open spec fn at(dir: Seq<char>, name: Seq<char>) -> PlaceView {
    PlaceView { dir, name }
}

/// The extensions under which a photo's raw file is looked for, in their order.
pub proof fn raw_extensions_in_order()
    ensures
        raw_file_exts() == seq![
            "ARW"@, "arw"@, "CR2"@, "cr2"@, "NEF"@, "nef"@, "DNG"@, "dng"@, "RAF"@, "raf"@
        ],
{
}

/// The name of a photo's raw file is the photo's stem, a dot and one of the extensions.
pub proof fn raw_names_by_parts(stem: Seq<char>, i: int)
    ensures
        raw_file_name(stem, i) == stem + seq!['.'] + raw_file_exts()[i],
{
    reveal_strlit(".");
    assert("."@ =~= seq!['.']);
}

/// The photo does not stop the deletion: it is not there, or it can be moved.
pub open spec fn photo_gives_way(session: SessionView, name: Seq<char>, w: Disk) -> bool {
    let p = at(session.jpeg_dir, name);
    w.refusal is None && (w.files.dom().contains(p) ==> !w.stuck.contains(p))
}

/// The names of the files moved so far, once the photo is dealt with.
pub open spec fn photo_moved(session: SessionView, name: Seq<char>, w: Disk) -> Seq<Seq<char>> {
    if w.files.dom().contains(at(session.jpeg_dir, name)) {
        seq![name]
    } else {
        Seq::empty()
    }
}

proof fn first_raw_at(s: DeleteState, w: Disk, i: int, k: int)
    requires
        0 <= i <= k < raw_file_exts().len(),
        w.has(s.raw(k)),
        forall|j: int| i <= j < k ==> !w.has(#[trigger] s.raw(j)),
    ensures
        first_raw(s, w, i) == Some(k),
    decreases k - i,
{
    if i < k {
        assert(!w.has(s.raw(i)));
        first_raw_at(s, w, i + 1, k);
    }
}

proof fn no_first_raw(s: DeleteState, w: Disk, i: int)
    requires
        0 <= i,
        forall|j: int| i <= j < raw_file_exts().len() ==> !w.has(#[trigger] s.raw(j)),
    ensures
        first_raw(s, w, i) is None,
    decreases raw_file_exts().len() - i,
{
    if i < raw_file_exts().len() {
        no_first_raw(s, w, i + 1);
    }
}

/// Where there is a folder of raw files, whatever its name, and in it a file with the photo's stem and
/// one of the extensions, the first of these goes along: it is gone from there and is in the folder of
/// deleted files, with what it held, and its name is answered behind that of the photo.
pub proof fn raw_file_goes_along(
    session: SessionView,
    name: Seq<char>,
    d: Seq<char>,
    stem: Seq<char>,
    k: int,
    w: Disk,
)
    requires
        folders_differ(session),
        session.raw_dir == Some(d),
        file_stem(name) == Some(stem),
        photo_gives_way(session, name, w),
        0 <= k < raw_file_exts().len(),
        w.files.dom().contains(at(d, stem + seq!['.'] + raw_file_exts()[k])),
        !w.stuck.contains(at(d, stem + seq!['.'] + raw_file_exts()[k])),
        forall|j: int|
            0 <= j < k ==> !w.files.dom().contains(at(d, stem + seq!['.'] + #[trigger] raw_file_exts()[j])),
    ensures
        ({
            let raw = stem + seq!['.'] + raw_file_exts()[k];
            let (t, v) = deleted(DeleteState::start(session, name), w);
            &&& t.stage is Done
            &&& t.moved == photo_moved(session, name, w).push(raw)
            &&& !v.files.dom().contains(at(d, raw))
            &&& v.files.dom().contains(at(session.trash_dir, raw))
            &&& v.files[at(session.trash_dir, raw)] == w.files[at(d, raw)]
        }),
{
    let s = DeleteState::start(session, name);
    deletion_outcome(session, name, w);
    let (s1, w1) = after_photo(s, w);
    assert forall|j: int| 0 <= j < raw_file_exts().len() implies #[trigger] s1.raw(j) == at(
        d,
        stem + seq!['.'] + raw_file_exts()[j],
    ) by {
        raw_names_by_parts(stem, j);
    }
    assert(s1.has_raws());
    assert(w1.has(s1.raw(k)));
    assert forall|j: int| 0 <= j < k implies !w1.has(#[trigger] s1.raw(j)) by {
        assert(!w.files.dom().contains(at(d, stem + seq!['.'] + raw_file_exts()[j])));
    }
    first_raw_at(s1, w1, 0, k);
    assert(s1.moved =~= photo_moved(session, name, w));
}

/// The deletion and the disk once the photo is dealt with.
spec fn after_photo(s: DeleteState, w: Disk) -> (DeleteState, Disk) {
    if w.has(s.photo()) {
        (s.with(s.name), w.moved(s.photo(), s.trash(s.name)))
    } else {
        (s, w)
    }
}

/// Where there is no folder of raw files, or no file in it with the photo's stem and one of the
/// extensions, or the first of these is stuck, no raw file goes along: all files there stay as they
/// are, and the photo alone is answered.
pub proof fn no_raw_file_goes_along(session: SessionView, name: Seq<char>, w: Disk, k: int, n: Seq<char>)
    requires
        folders_differ(session),
        photo_gives_way(session, name, w),
        0 <= k <= raw_file_exts().len(),
        session.raw_dir is Some && file_stem(name) is Some ==> forall|j: int|
            0 <= j < k ==> !w.files.dom().contains(
                at(session.raw_dir->0, file_stem(name)->0 + seq!['.'] + #[trigger] raw_file_exts()[j]),
            ),
        session.raw_dir is Some && file_stem(name) is Some && k < raw_file_exts().len() ==> {
            let r = at(session.raw_dir->0, file_stem(name)->0 + seq!['.'] + raw_file_exts()[k]);
            w.files.dom().contains(r) && w.stuck.contains(r)
        },
    ensures
        ({
            let (t, v) = deleted(DeleteState::start(session, name), w);
            &&& t.stage is Done
            &&& t.moved == photo_moved(session, name, w)
            &&& session.raw_dir matches Some(d) ==> (v.files.dom().contains(at(d, n)) <==> w.files.dom().contains(
                at(d, n),
            )) && (w.files.dom().contains(at(d, n)) ==> v.files[at(d, n)] == w.files[at(d, n)])
        }),
{
    let s = DeleteState::start(session, name);
    deletion_outcome(session, name, w);
    let (s1, w1) = after_photo(s, w);
    assert(s1.moved =~= photo_moved(session, name, w));
    if s1.has_raws() {
        let d = session.raw_dir->0;
        let stem = file_stem(name)->0;
        assert forall|j: int| 0 <= j < raw_file_exts().len() implies #[trigger] s1.raw(j) == at(
            d,
            stem + seq!['.'] + raw_file_exts()[j],
        ) by {
            raw_names_by_parts(stem, j);
        }
        assert forall|j: int| 0 <= j < k implies !w1.has(#[trigger] s1.raw(j)) by {
            assert(!w.files.dom().contains(at(d, stem + seq!['.'] + raw_file_exts()[j])));
        }
        if k < raw_file_exts().len() {
            assert(w1.has(s1.raw(k)));
            first_raw_at(s1, w1, 0, k);
        } else {
            no_first_raw(s1, w1, 0);
        }
    }
}

/// A photo that is there and can be moved is in the folder of deleted files after the deletion, with
/// what it held, and its name is answered first: unless its raw file has the same name. It is gone from
/// the folder of photos, and so is its thumbnail, which has `.thumb.jpg` behind the photo's name,
/// from where it was kept, if it is not stuck.
pub proof fn photo_goes_to_the_trash(session: SessionView, name: Seq<char>, w: Disk)
    requires
        folders_differ(session),
        is_component(name),
        w.refusal is None,
        w.files.dom().contains(at(session.jpeg_dir, name)),
        !w.stuck.contains(at(session.jpeg_dir, name)),
        forall|j: int|
            0 <= j < raw_file_exts().len() && file_stem(name) is Some ==> name != file_stem(name)->0 + seq!['.']
                + #[trigger] raw_file_exts()[j],
    ensures
        ({
            let (t, v) = deleted(DeleteState::start(session, name), w);
            let photo = at(session.jpeg_dir, name);
            let trash = at(session.trash_dir, name);
            let thumb = at(session.thumb_cache, name + ".thumb.jpg"@);
            &&& t.stage is Done
            &&& t.moved.len() >= 1 && t.moved[0] == name
            &&& !v.files.dom().contains(photo)
            &&& v.files.dom().contains(trash) && v.files[trash] == w.files[photo]
            &&& !w.stuck.contains(thumb) ==> !v.files.dom().contains(thumb)
        }),
{
    let s = DeleteState::start(session, name);
    deletion_outcome(session, name, w);
    let (s1, w1) = after_photo(s, w);
    if s1.has_raws() {
        first_raw_is_there(s1, w1, 0);
        if let Some(i) = first_raw(s1, w1, 0) {
            raw_names_by_parts(file_stem(name)->0, i);
            assert(s1.raw(i).name == file_stem(name)->0 + seq!['.'] + raw_file_exts()[i]);
            assert(s1.raw(i).name != name);
        }
    }
}

/// A deletion is refused exactly where the folder of deleted files cannot be made, or the photo is there
/// and cannot be moved. It then has done nothing.
pub proof fn deletions_refused(session: SessionView, name: Seq<char>, w: Disk)
    ensures
        ({
            let (t, v) = deleted(DeleteState::start(session, name), w);
            let p = at(session.jpeg_dir, name);
            let stuck = w.files.dom().contains(p) && w.stuck.contains(p);
            &&& t.stage is Done <==> w.refusal is None && !stuck
            &&& w.refusal matches Some(e) ==> v == w && (t.stage matches DeleteStage::Refused(r) && r.status == 500
                && r.message == "trash: "@ + e)
            &&& w.refusal is None && stuck ==> v == w && (t.stage matches DeleteStage::Refused(r) && r.status == 500
                && r.message == "rename jpg failed"@)
        }),
{
    deletion_outcome(session, name, w);
}

/// A deletion leaves every file as it is that is neither the photo nor its thumbnail, and neither in
/// the folder of deleted files nor in that of raw files.
pub proof fn deletion_leaves_the_rest(session: SessionView, name: Seq<char>, w: Disk, p: PlaceView)
    requires
        p != at(session.jpeg_dir, name),
        p != at(session.thumb_cache, name + ".thumb.jpg"@),
        p.dir != session.trash_dir,
        session.raw_dir != Some(p.dir),
    ensures
        ({
            let v = deleted(DeleteState::start(session, name), w).1;
            &&& v.files.dom().contains(p) <==> w.files.dom().contains(p)
            &&& w.files.dom().contains(p) ==> v.files[p] == w.files[p]
        }),
{
    let s = DeleteState::start(session, name);
    deletion_outcome(session, name, w);
    let (s1, w1) = after_photo(s, w);
    if w.refusal is None && !(w.has(s.photo()) && !w.movable(s.photo())) && s1.has_raws() {
        first_raw_is_there(s1, w1, 0);
    }
}

/// Of the raw files one at most is touched by a deletion: one with the photo's stem and one of the
/// extensions.
pub proof fn deletion_leaves_other_raw_files(session: SessionView, name: Seq<char>, w: Disk, d: Seq<char>, n: Seq<char>)
    requires
        folders_differ(session),
        session.raw_dir == Some(d),
        forall|j: int|
            0 <= j < raw_file_exts().len() && file_stem(name) is Some ==> n != file_stem(name)->0 + seq!['.']
                + #[trigger] raw_file_exts()[j],
    ensures
        ({
            let v = deleted(DeleteState::start(session, name), w).1;
            &&& v.files.dom().contains(at(d, n)) <==> w.files.dom().contains(at(d, n))
            &&& w.files.dom().contains(at(d, n)) ==> v.files[at(d, n)] == w.files[at(d, n)]
        }),
{
    let s = DeleteState::start(session, name);
    deletion_outcome(session, name, w);
    let (s1, w1) = after_photo(s, w);
    if s1.has_raws() {
        first_raw_is_there(s1, w1, 0);
        if let Some(i) = first_raw(s1, w1, 0) {
            raw_names_by_parts(file_stem(name)->0, i);
            assert(s1.raw(i).name == file_stem(name)->0 + seq!['.'] + raw_file_exts()[i]);
        }
    }
}

/// A deletion goes from the folder of deleted files to the photo, from there to the raw files, if there
/// can be any, and last to the thumbnail; and a reply to something that it did not ask for changes
/// nothing.
pub proof fn deletion_goes_step_by_step(s: DeleteState, reply: DeleteReplyView)
    requires
        s.wf(),
    ensures
        ({
            let t = s.step(reply);
            let photo = at(s.session.jpeg_dir, s.name);
            let thumb = at(s.session.thumb_cache, s.name + ".thumb.jpg"@);
            let next = if s.session.raw_dir is Some && file_stem(s.name) is Some {
                DeleteActionView::Probe(
                    at(s.session.raw_dir->0, file_stem(s.name)->0 + seq!['.'] + raw_file_exts()[0]),
                )
            } else {
                DeleteActionView::Remove(thumb)
            };
            &&& t.session == s.session && t.name == s.name
            &&& s.stage is MakeTrash ==> s.action() == DeleteActionView::MakeDir(s.session.trash_dir)
            &&& s.stage is MakeTrash && reply == DeleteReplyView::Made(Ok(())) ==> t.action()
                == DeleteActionView::Probe(photo) && t.moved == s.moved
            &&& s.stage is ProbePhoto ==> s.action() == DeleteActionView::Probe(photo)
            &&& s.stage is ProbePhoto && reply == DeleteReplyView::Probed(true) ==> t.action()
                == DeleteActionView::Rename(photo, at(s.session.trash_dir, s.name)) && t.moved == s.moved
            &&& s.stage is ProbePhoto && reply == DeleteReplyView::Probed(false) ==> t.action() == next && t.moved
                == s.moved
            &&& s.stage is MovePhoto && reply == DeleteReplyView::Renamed(true) ==> t.action() == next && t.moved
                == s.moved.push(s.name)
            &&& s.stage matches DeleteStage::ProbeRaw(i) ==> (reply == DeleteReplyView::Probed(false) ==> t.moved
                == s.moved && t.action() == if i + 1 < raw_file_exts().len() {
                DeleteActionView::Probe(
                    at(s.session.raw_dir->0, file_stem(s.name)->0 + seq!['.'] + raw_file_exts()[i + 1]),
                )
            } else {
                DeleteActionView::Remove(thumb)
            })
            &&& s.stage matches DeleteStage::ProbeRaw(i) ==> (reply == DeleteReplyView::Probed(true) ==> t.moved
                == s.moved && t.action() == ({
                let raw = file_stem(s.name)->0 + seq!['.'] + raw_file_exts()[i];
                DeleteActionView::Rename(at(s.session.raw_dir->0, raw), at(s.session.trash_dir, raw))
            }))
            &&& s.stage matches DeleteStage::MoveRaw(i) ==> (reply == DeleteReplyView::Renamed(true) ==> t.action()
                == DeleteActionView::Remove(thumb) && t.moved == s.moved.push(
                file_stem(s.name)->0 + seq!['.'] + raw_file_exts()[i],
            ))
            &&& s.stage is MoveRaw && reply == DeleteReplyView::Renamed(false) ==> t.action()
                == DeleteActionView::Remove(thumb) && t.moved == s.moved
            &&& s.stage is DropThumb && reply == DeleteReplyView::Removed ==> t.stage is Done && t.moved == s.moved
            &&& s.action() is MakeDir && !(reply is Made) ==> t == s
            &&& s.action() is Probe && !(reply is Probed) ==> t == s
            &&& s.action() is Rename && !(reply is Renamed) ==> t == s
            &&& s.action() is Remove && !(reply is Removed) ==> t == s
            &&& s.action() is Finished ==> t == s
        }),
{
    let stem = file_stem(s.name)->0;
    raw_names_by_parts(stem, 0);
    match s.stage {
        DeleteStage::ProbeRaw(i) => {
            raw_names_by_parts(stem, i);
            raw_names_by_parts(stem, i + 1);
        },
        DeleteStage::MoveRaw(i) => raw_names_by_parts(stem, i),
        _ => {},
    }
}

} // verus!
