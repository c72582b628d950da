//! What values stand for, and what the runs come to.

use vstd::prelude::*;

use crate::delete::{
    DeleteAction, DeleteActionView, DeleteReply, DeleteReplyView, DeleteResult, DeleteStage,
    DeleteState,
};
use crate::listing::{listing_view, Entry, EntryView};
use crate::media::{ext_text, path_ext, texts};
use crate::order::{key_texts, string_texts};
use crate::photos::content_type;
use crate::picker::{infos_view, DirEntryInfo};
use crate::reply::{FileReply, Place, Refusal};
use crate::session::{
    session_view, BuildAction, BuildActionView, BuildReply, BuildReplyView, BuildStage, BuildState,
    Session,
};
use crate::sorting::{
    item_view, optional_str, scan_view, Scan, SortReply, SortReplyView, SortReport, SortState,
};
use crate::text::{file_extension, last_part, optional_text};
use crate::thumbs::{ThumbStage, ThumbState};

verus! {

/// An entry, a place, a refusal and a folder that the picker shows stand for their parts.
pub proof fn parts_stand_for_themselves(e: Entry, p: Place, r: Refusal, i: DirEntryInfo)
    ensures
        e@.name == e.name@,
        e@.kind == e.kind,
        p@.dir == p.dir@,
        p@.name == p.name@,
        r@.status == r.status,
        r@.message == r.message@,
        i@.name == i.name@,
        i@.path == i.path@,
        i@.photos == i.photos,
{
}

/// An opened folder stands for its parts.
pub proof fn session_stands_for_its_parts(s: Session)
    ensures
        s@.root == s.root@,
        s@.jpeg_dir == s.jpeg_dir@,
        s.raw_dir is None <==> s@.raw_dir is None,
        s.raw_dir matches Some(d) ==> s@.raw_dir == Some(d@),
        s.video_dir is None <==> s@.video_dir is None,
        s.video_dir matches Some(d) ==> s@.video_dir == Some(d@),
        s@.thumb_cache == s.thumb_cache@,
        s@.trash_dir == s.trash_dir@,
        session_view(Some(s)) == Some(s@),
        session_view(None) is None,
{
}

/// An optional text stands for its characters.
pub proof fn optional_texts_stand_for_texts(s: String, t: &str)
    ensures
        optional_text(Some(s)) == Some(s@),
        optional_text(None) is None,
        optional_str(Some(t)) == Some(t@),
        optional_str(None) is None,
{
}

/// A list stands for the list of what its items stand for, each at its place.
pub proof fn lists_stand_for_lists(
    entries: Seq<Entry>,
    strings: Seq<String>,
    slices: Seq<&str>,
    keys: Seq<Vec<char>>,
    infos: Seq<DirEntryInfo>,
    i: int,
)
    ensures
        listing_view(entries).len() == entries.len(),
        0 <= i < entries.len() ==> listing_view(entries)[i] == entries[i]@,
        string_texts(strings).len() == strings.len(),
        0 <= i < strings.len() ==> string_texts(strings)[i] == strings[i]@,
        texts(slices).len() == slices.len(),
        0 <= i < slices.len() ==> texts(slices)[i] == slices[i]@,
        key_texts(keys).len() == keys.len(),
        0 <= i < keys.len() ==> key_texts(keys)[i] == keys[i]@,
        infos_view(infos).len() == infos.len(),
        0 <= i < infos.len() ==> infos_view(infos)[i] == infos[i]@,
{
}

/// A listing as it is read stands for its items, each read or not as it was.
pub proof fn scans_stand_for_items(scan: Scan, e: Entry, m: String, i: int)
    ensures
        item_view(Ok(e)) == Ok::<EntryView, Seq<char>>(e@),
        item_view(Err(m)) == Err::<EntryView, Seq<char>>(m@),
        scan matches Err(t) ==> (scan_view(scan) matches Err(u) && u == t@),
        scan matches Ok(items) ==> (scan_view(scan) matches Ok(s) && s.len() == items@.len() && (0 <= i < items@.len()
            ==> s[i] == item_view(items@[i]))),
{
}

/// A reply to a sort stands for what it says.
pub proof fn sort_replies_stand_for_replies(r: SortReply)
    ensures
        r matches SortReply::Made(Ok(_)) ==> r@ == SortReplyView::Made(Ok(())),
        r matches SortReply::Made(Err(e)) ==> r@ == SortReplyView::Made(Err(e@)),
        r matches SortReply::Probed(b) ==> r@ == SortReplyView::Probed(b),
        r matches SortReply::Renamed(b) ==> r@ == SortReplyView::Renamed(b),
{
}

/// A reply to an opening, and what an opening wants done, stand for what they say.
pub proof fn build_replies_stand_for_replies(r: BuildReply, a: BuildAction)
    ensures
        r matches BuildReply::Scanned(s) ==> r@ == BuildReplyView::Scanned(scan_view(s)),
        r matches BuildReply::Sort(s) ==> r@ == BuildReplyView::Sort(s@),
        r matches BuildReply::Listed(l) ==> r@ == BuildReplyView::Listed(listing_view(l@)),
        r matches BuildReply::Cached(Ok(_)) ==> r@ == BuildReplyView::Cached(Ok(())),
        r matches BuildReply::Cached(Err(e)) ==> r@ == BuildReplyView::Cached(Err(e@)),
        a is Scan <==> a@ is Scan,
        a is List <==> a@ is List,
        a is Finished <==> a@ is Finished,
        a matches BuildAction::Sort(s) ==> a@ == BuildActionView::Sort(s),
        a matches BuildAction::MakeCache(d) ==> a@ == BuildActionView::MakeCache(d@),
{
}

/// A reply to a deletion, and what a deletion wants done, stand for what they say.
pub proof fn delete_replies_stand_for_replies(r: DeleteReply, a: DeleteAction)
    ensures
        r matches DeleteReply::Made(Ok(_)) ==> r@ == DeleteReplyView::Made(Ok(())),
        r matches DeleteReply::Made(Err(e)) ==> r@ == DeleteReplyView::Made(Err(e@)),
        r matches DeleteReply::Probed(b) ==> r@ == DeleteReplyView::Probed(b),
        r matches DeleteReply::Renamed(b) ==> r@ == DeleteReplyView::Renamed(b),
        r is Removed ==> r@ is Removed,
        a matches DeleteAction::MakeDir(d) ==> a@ == DeleteActionView::MakeDir(d@),
        a matches DeleteAction::Probe(p) ==> a@ == DeleteActionView::Probe(p@),
        a matches DeleteAction::Rename(p, q) ==> a@ == DeleteActionView::Rename(p@, q@),
        a matches DeleteAction::Remove(p) ==> a@ == DeleteActionView::Remove(p@),
        a is Finished <==> a@ is Finished,
{
}

/// A sort comes to its report, or to what it failed with.
pub proof fn sorts_come_to_their_reports(s: SortState, r: Result<SortReport, String>)
    requires
        s.comes_to(r),
    ensures
        r is Ok <==> s.failure is None,
        s.failure is None ==> r->Ok_0 == s.report,
        s.failure matches Some(e) ==> r->Err_0@ == e,
{
}

/// An opening comes to the opened folder with the report, or to what it failed with, and to nothing
/// before its end.
pub proof fn openings_come_to_sessions(b: BuildState, r: Option<Result<(Session, SortReport), String>>)
    requires
        b.comes_to(r),
    ensures
        b.stage matches BuildStage::Built(s, report) ==> (r matches Some(Ok(t)) && t.0@ == s && t.1 == report),
        b.stage matches BuildStage::Failed(e) ==> (r matches Some(Err(m)) && m@ == e),
        r is Some <==> b.action() == BuildActionView::Finished,
{
}

/// A sending comes to the thumbnail or to the refusal, and to nothing before its end.
pub proof fn sendings_come_to_thumbs(s: ThumbState, r: Option<Result<FileReply, Refusal>>)
    requires
        s.comes_to(r),
    ensures
        s.stage matches ThumbStage::Sent(bytes) ==> (r matches Some(Ok(f)) && f.body@ == bytes && f.content_type@
            == "image/jpeg"@ && f.cache_control@ == "public, max-age=86400"@),
        s.stage matches ThumbStage::Refused(no) ==> (r matches Some(Err(e)) && e@ == no),
        r is Some <==> s.action() is Finished,
{
}

/// A deletion comes to the names of the files that were moved, or to the refusal, and to nothing
/// before its end.
pub proof fn deletions_come_to_names(s: DeleteState, r: Option<Result<DeleteResult, Refusal>>)
    requires
        s.comes_to(r),
    ensures
        s.stage is Done ==> (r matches Some(Ok(d)) && d.ok && string_texts(d.deleted@) == s.moved),
        s.stage matches DeleteStage::Refused(no) ==> (r matches Some(Err(e)) && e@ == no),
        r is Some <==> s.action() is Finished,
{
}

/// The text of a file's extension is the extension, and empty without one, for names and for paths;
/// and a file without one is sent as bytes of no type.
pub proof fn extension_texts(name: Seq<char>, path: Seq<char>)
    ensures
        file_extension(name) matches Some(e) ==> ext_text(name) == e,
        file_extension(name) is None ==> ext_text(name).len() == 0,
        path_ext(path) == ext_text(last_part(path)),
        file_extension(name) is None ==> content_type(name) == "application/octet-stream"@,
{
}

} // verus!
