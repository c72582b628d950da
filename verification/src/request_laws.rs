//! What the requests are answered, for all of them.

use vstd::prelude::*;
use vstd::seq_lib::group_to_multiset_ensures;

use crate::images::{
    halves_go_up, image_contents, image_exts, is_image_ext, is_no_format, is_plain, is_thumb,
    is_thumb_of, jpeg_file, outcome, resized, rgb8, scaled_side_is_rounded,
};
use crate::listing::{
    jpeg_dir_names, raw_dir_names, subdir_index, video_dir_names, EntryKind, EntryView,
};
use crate::media::jpeg_exts;
use crate::media_laws::{folder_found, is_passed_over};
use crate::order::{filter_of_multiset, is_sorted, string_texts};
use crate::photos::{
    answers_list, answers_opening, answers_photo, content_type, guessed_type, is_photo_name, lists_nothing,
    lists_photos, photo_place, tells_target, Built, OpenResponse, PhotosResponse,
};
use crate::reply::{is_json_error, FileReply, JsonError, PlaceView, Refusal};
use crate::session::{
    name_refusal, session_of, session_view, sort_stage, AppState, BuildActionView, BuildReplyView,
    BuildStage, BuildState, SessionView,
};
use crate::sorting::{sort_plan, SortAction, SortReplyView, SortReport, SortState};
use crate::text::{all_ascii, ascii_lower, ascii_lower_char, is_safe_name, lowercase};
use crate::text_laws::{
    lowercase_of_capitals, name_of_stem_and_extension, same_but_capitals,
};
use crate::thumbs::{
    is_thumb_reply, not_before, thumb_is_fresh, thumb_name, Stamp, ThumbAction, ThumbReply,
    ThumbStage, ThumbState,
};

verus! {

/// The opened folder is what its listing shows: its folder of photos is the first folder with one of
/// three names in whatever case, or `jpegs` without one; so are those of raw files and of videos, but
/// there may be none. `i`, `j` and `k` are where they stand, or the end of the listing.
pub proof fn session_by_listing(root: Seq<char>, entries: Seq<EntryView>, i: int, j: int, k: int)
    requires
        0 <= i <= entries.len(),
        0 <= j <= entries.len(),
        0 <= k <= entries.len(),
        forall|l: int| 0 <= l < i ==> is_passed_over(#[trigger] entries[l], jpeg_dir_names()),
        forall|l: int| 0 <= l < j ==> is_passed_over(#[trigger] entries[l], raw_dir_names()),
        forall|l: int| 0 <= l < k ==> is_passed_over(#[trigger] entries[l], video_dir_names()),
        i < entries.len() ==> jpeg_dir_names().contains(lowercase(entries[i].name)) && entries[i].kind
            == EntryKind::Dir,
        j < entries.len() ==> raw_dir_names().contains(lowercase(entries[j].name)) && entries[j].kind
            == EntryKind::Dir,
        k < entries.len() ==> video_dir_names().contains(lowercase(entries[k].name)) && entries[k].kind
            == EntryKind::Dir,
    ensures
        ({
            let s = session_of(root, entries);
            &&& s.root == root
            &&& s.jpeg_dir == (if i < entries.len() { entries[i].name } else { "jpegs"@ })
            &&& s.raw_dir == (if j < entries.len() { Some(entries[j].name) } else { None })
            &&& s.video_dir == (if k < entries.len() { Some(entries[k].name) } else { None })
            &&& s.thumb_cache == ".thumb_cache"@
            &&& s.trash_dir == "_deleted"@
        }),
{
    folder_found(entries, jpeg_dir_names(), i);
    folder_found(entries, raw_dir_names(), j);
    folder_found(entries, video_dir_names(), k);
}

/// The folders of an opened one are those found in its listing, each for its own names; where none is
/// found, there is none of raw files and of videos, and that of photos is `jpegs`.
pub proof fn session_by_search(root: Seq<char>, entries: Seq<EntryView>)
    ensures
        ({
            let s = session_of(root, entries);
            &&& match subdir_index(entries, jpeg_dir_names()) {
                Some(i) => s.jpeg_dir == entries[i].name,
                None => s.jpeg_dir == "jpegs"@,
            }
            &&& match subdir_index(entries, raw_dir_names()) {
                Some(i) => s.raw_dir == Some(entries[i].name),
                None => s.raw_dir is None,
            }
            &&& match subdir_index(entries, video_dir_names()) {
                Some(i) => s.video_dir == Some(entries[i].name),
                None => s.video_dir is None,
            }
            &&& s.root == root
        }),
{
}

/// An opening hands the replies to its sort on to it.
pub proof fn opening_hands_replies_on(b: BuildState, s: SortState, r: SortReplyView)
    requires
        b.stage == BuildStage::Sort(s),
    ensures
        ({
            let t = b.step(BuildReplyView::Sort(r));
            let next = s.step(r);
            &&& t.root == b.root && t.root_name == b.root_name
            &&& next.action() != SortAction::Finished ==> t.stage == BuildStage::Sort(next)
            &&& next.action() == SortAction::Finished && next.failure is None ==> t.stage == BuildStage::List(
                next.report,
            )
            &&& next.action() == SortAction::Finished ==> (next.failure matches Some(e) ==> t.stage
                == BuildStage::Failed(e))
        }),
{
}

/// An opening lists the folder first, and fails with the reason where its listing cannot be planned
/// from; else it carries the sort out.
pub proof fn opening_begins(
    root: Seq<char>,
    root_name: Option<Seq<char>>,
    scan: Result<Seq<Result<EntryView, Seq<char>>>, Seq<char>>,
)
    ensures
        ({
            let b = BuildState::start(root, root_name);
            let t = b.step(BuildReplyView::Scanned(scan));
            &&& b.action() == BuildActionView::Scan
            &&& t.root == root
            &&& match sort_plan(root, root_name, scan) {
                Err(e) => t.stage == BuildStage::Failed(e) && t.action() == BuildActionView::Finished,
                Ok(moves) => if moves.len() == 0 {
                    t.action() == BuildActionView::List
                } else {
                    t.action() == BuildActionView::Sort(SortAction::MakeDir(moves[0].category))
                },
            }
        }),
{
}

/// An opening does what its sort wants done, and then lists the folder again; where the sort fails,
/// the opening fails with the same reason.
pub proof fn opening_sorts_first(b: BuildState, s: SortState)
    requires
        b.stage == sort_stage(s),
    ensures
        s.action() != SortAction::Finished ==> b.action() == BuildActionView::Sort(s.action()),
        s.action() == SortAction::Finished && s.failure is None ==> b.action() == BuildActionView::List && b.stage
            == BuildStage::List(s.report),
        s.action() == SortAction::Finished ==> (s.failure matches Some(e) ==> b.stage == BuildStage::Failed(e)),
{
}

/// Behind the sort the folder's new listing decides what is opened, and the folder of the thumbnails
/// is made; the opening fails where that fails, and is at its end otherwise.
pub proof fn opening_ends(
    b: BuildState,
    report: SortReport,
    entries: Seq<EntryView>,
    made: Result<(), Seq<char>>,
)
    requires
        b.stage == BuildStage::List(report),
    ensures
        ({
            let c = b.step(BuildReplyView::Listed(entries));
            let d = c.step(BuildReplyView::Cached(made));
            &&& c.action() == BuildActionView::MakeCache(".thumb_cache"@)
            &&& d.action() == BuildActionView::Finished
            &&& match made {
                Ok(_) => d.stage == BuildStage::Built(session_of(b.root, entries), report),
                Err(e) => d.stage == BuildStage::Failed(e),
            }
        }),
{
}

/// An opening that is at its end stays there, and a reply to something that it did not ask for changes
/// nothing.
pub proof fn opening_takes_answers_only(b: BuildState, reply: BuildReplyView)
    ensures
        b.action() == BuildActionView::Finished ==> b.step(reply) == b,
        b.action() == BuildActionView::Scan && !(reply is Scanned) ==> b.step(reply) == b,
        b.action() is Sort && !(reply is Sort) ==> b.step(reply) == b,
        b.action() == BuildActionView::List && !(reply is Listed) ==> b.step(reply) == b,
        b.action() is MakeCache && !(reply is Cached) ==> b.step(reply) == b,
{
}

/// A request for a file is refused without an opened folder, whatever its name, and with one exactly
/// where the name is not safe.
pub proof fn requests_refused(s: SessionView, name: Seq<char>)
    ensures
        name_refusal(None, name) matches Some(r) && r.status == 409 && r.message == "no folder selected"@,
        is_safe_name(name) ==> name_refusal(Some(s), name) is None,
        !is_safe_name(name) ==> (name_refusal(Some(s), name) matches Some(r) && r.status == 400 && r.message
            == "bad name"@),
{
}

/// The list of photos holds each name of the folder of photos that is that of a photo as often as the
/// folder has it, and no other, sorted; and tells whether there are folders of the other kinds.
pub proof fn photo_list_by_name(r: PhotosResponse, session: SessionView, names: Seq<Seq<char>>, n: Seq<char>)
    requires
        lists_photos(r, session, names),
    ensures
        string_texts(r.files@).to_multiset().count(n) == (if is_photo_name(n) {
            names.to_multiset().count(n)
        } else {
            0
        }),
        string_texts(r.files@).contains(n) <==> names.contains(n) && is_photo_name(n),
        is_sorted(string_texts(r.files@)),
        r.loaded,
        r.root@ == session.root,
        r.raw_available <==> session.raw_dir is Some,
        r.video_available <==> session.video_dir is Some,
{
    broadcast use group_to_multiset_ensures;

    filter_of_multiset(names, |m: Seq<char>| is_photo_name(m));
    let files = string_texts(r.files@);
    assert(files.contains(n) <==> files.to_multiset().count(n) > 0);
    assert(names.contains(n) <==> names.to_multiset().count(n) > 0);
}

/// With an opened folder its photos are listed, whatever they are.
pub proof fn opened_folder_is_listed(s: SessionView, names: Seq<Seq<char>>, r: PhotosResponse)
    ensures
        answers_list(Some(s), names, r) <==> lists_photos(r, s, names),
{
}

/// Without an opened folder nothing is listed.
pub proof fn nothing_is_listed(names: Seq<Seq<char>>, r: PhotosResponse)
    requires
        answers_list(None, names, r) || lists_nothing(r),
    ensures
        !r.loaded,
        r.files@.len() == 0,
        r.root@.len() == 0,
        !r.raw_available,
        !r.video_available,
{
}

/// A path is opened exactly where it is a folder; else the reason is answered as a bad request.
pub proof fn folders_alone_are_opened(found: Result<bool, String>, r: Result<(), JsonError>)
    requires
        tells_target(found, r),
    ensures
        r is Ok <==> found == Ok::<bool, String>(true),
        found == Ok::<bool, String>(false) ==> (r matches Err(e) && e.status == 400 && !e.ok && e.error@
            == "not a directory"@),
        found matches Err(m) ==> (r matches Err(e) && e.status == 400 && !e.ok && e.error@ == "invalid path: "@ + m@),
{
}

/// An opening that succeeded swaps the opened folder and answers what was moved and the list of its
/// photos; one that failed leaves the opened folder and answers the reason as a bad request.
pub proof fn openings_answered(
    before: AppState,
    built: Built,
    names: Seq<Seq<char>>,
    after: AppState,
    r: Result<OpenResponse, JsonError>,
)
    requires
        answers_opening(before, built, names, after, r),
    ensures
        r is Ok <==> (built is Ok && built->Ok_0 is Ok),
        r is Err ==> after == before,
        built matches Ok(Ok(b)) ==> {
            &&& session_view(after.session) == Some(b.0@)
            &&& r->Ok_0.ok
            &&& r->Ok_0.report == b.1
            &&& lists_photos(r->Ok_0.photos, b.0@, names)
        },
        built matches Ok(Err(m)) ==> r->Err_0.status == 400 && !r->Err_0.ok && r->Err_0.error@ == m@,
        built matches Err(m) ==> r->Err_0.status == 400 && !r->Err_0.ok && r->Err_0.error@ == "task failed: "@ + m@,
{
}

/// A photo that was read is sent as it is, as a file of its type, to be kept for an hour; one that was
/// not is not found.
pub proof fn photos_answered(t: Seq<char>, read: Option<Vec<u8>>, r: Result<FileReply, Refusal>)
    requires
        answers_photo(t, read, r),
    ensures
        r is Ok <==> read is Some,
        read matches Some(bytes) ==> r->Ok_0.body@ == bytes@ && r->Ok_0.content_type@ == t && r->Ok_0.cache_control@
            == "public, max-age=3600"@,
        read is None ==> r->Err_0.status == 404 && r->Err_0.message@ == "not found"@,
{
}

/// A photo is in the opened folder's folder of photos, under the name that is asked for.
pub proof fn photos_are_where_they_are(s: SessionView, name: Seq<char>)
    ensures
        photo_place(s, name).dir == s.jpeg_dir,
        photo_place(s, name).name == name,
{
}

/// A file's type goes by its extension: one of photos, written with whatever capitals, is that of a
/// JPEG; an empty one tells nothing; and of any other the guess stands.
pub proof fn type_by_extension(stem: Seq<char>, ext: Seq<char>)
    requires
        stem.len() > 0,
        !ext.contains('.'),
        !(stem == seq!['.'] && ext.len() == 0),
    ensures
        same_but_capitals(ext, "jpg"@) || same_but_capitals(ext, "jpeg"@) ==> content_type(stem + seq!['.'] + ext)
            == "image/jpeg"@,
        ext.len() == 0 ==> content_type(stem + seq!['.'] + ext) == "application/octet-stream"@,
        ext.len() > 0 && !same_but_capitals(ext, "jpg"@) && !same_but_capitals(ext, "jpeg"@) ==> content_type(
            stem + seq!['.'] + ext,
        ) == guessed_type(ext),
{
    name_of_stem_and_extension(stem, ext);
    reveal_strlit("jpg");
    reveal_strlit("jpeg");
    assert("jpg"@.len() == 3 && "jpeg"@.len() == 4);
    assert(jpeg_exts()[0] == "jpg"@ && jpeg_exts()[1] == "jpeg"@);
    if same_but_capitals(ext, "jpg"@) {
        lowercase_of_capitals(ext, "jpg"@);
        ascii_of_capitals(ext, "jpg"@);
    }
    if same_but_capitals(ext, "jpeg"@) {
        lowercase_of_capitals(ext, "jpeg"@);
        ascii_of_capitals(ext, "jpeg"@);
    }
    if all_ascii(ext) && ascii_lower(ext) == "jpg"@ {
        capitals_of_lower(ext, "jpg"@);
    }
    if all_ascii(ext) && ascii_lower(ext) == "jpeg"@ {
        capitals_of_lower(ext, "jpeg"@);
    }
}

proof fn ascii_of_capitals(a: Seq<char>, b: Seq<char>)
    requires
        same_but_capitals(a, b),
        all_ascii(b),
    ensures
        all_ascii(a),
{
    assert forall|i: int| 0 <= i < a.len() implies (#[trigger] a[i]) as int <= 127 by {
        assert(a[i] == b[i] || a[i] as int + 32 == b[i] as int);
        assert(b[i] as int <= 127);
    }
}

proof fn capitals_of_lower(a: Seq<char>, b: Seq<char>)
    requires
        all_ascii(a),
        ascii_lower(a) == b,
    ensures
        same_but_capitals(a, b),
{
    assert forall|i: int| 0 <= i < a.len() implies (#[trigger] a[i]) == b[i] || ('a' as int <= b[i] as int <= 'z' as int
        && a[i] as int + 32 == b[i] as int) by {
        assert(ascii_lower(a)[i] == ascii_lower_char(a[i]));
        assert(a[i] as int <= 127);
    }
}

/// The time of a stamp, in billionths of a second.
pub open spec fn time_of(s: Stamp) -> int {
    s.secs * 1000000000 + s.nanos
}

/// A kept thumbnail is fresh exactly where its time is not before that of its photo. A thumbnail that
/// was changed in an earlier second than its photo never is.
pub proof fn fresh_by_time(a: Stamp, b: Stamp)
    requires
        a.nanos < 1000000000,
        b.nanos < 1000000000,
    ensures
        thumb_is_fresh(Some(Some(a)), Some(Some(b))) <==> time_of(a) >= time_of(b),
        not_before(a, b) <==> time_of(a) >= time_of(b),
        a.secs < b.secs ==> !thumb_is_fresh(Some(Some(a)), Some(Some(b))),
        a.secs > b.secs ==> thumb_is_fresh(Some(Some(a)), Some(Some(b))),
{
}

/// Without a time of its photo a kept thumbnail is fresh; without one of its own it is not, if the
/// photo has one; and it never is where it or its photo is not there.
pub proof fn fresh_without_times(a: Option<Stamp>, b: Stamp)
    ensures
        thumb_is_fresh(Some(a), Some(None)),
        !thumb_is_fresh(Some(None), Some(Some(b))),
        !thumb_is_fresh(None, Some(a)),
        !thumb_is_fresh(Some(a), None),
        !thumb_is_fresh(None, None),
{
}

/// The sending of a thumbnail is of the photo in the folder of photos and of the file in the folder of
/// the thumbnails with `.thumb.jpg` behind the photo's name; it looks at both first.
pub proof fn thumb_sending_begins(session: SessionView, name: Seq<char>)
    ensures
        ({
            let s = ThumbState::start(session, name);
            &&& s.src == (PlaceView { dir: session.jpeg_dir, name })
            &&& s.thumb == (PlaceView { dir: session.thumb_cache, name: name + ".thumb.jpg"@ })
            &&& s.action() == ThumbAction::Stat
        }),
        thumb_name(name) == name + ".thumb.jpg"@,
{
}

/// A fresh thumbnail is read, any other is made first; one that is read is sent, one that cannot be
/// made or read is refused with the reason.
pub proof fn thumb_sending_goes_on(s: ThumbState, reply: ThumbReply)
    ensures
        ({
            let t = s.step(reply);
            &&& t.src == s.src && t.thumb == s.thumb
            &&& s.action() == ThumbAction::Stat ==> match reply {
                ThumbReply::Stated(thumb, src) => t.action() == if thumb_is_fresh(thumb, src) {
                    ThumbAction::Read
                } else {
                    ThumbAction::Generate
                },
                _ => t == s,
            }
            &&& s.action() == ThumbAction::Generate ==> match reply {
                ThumbReply::Generated(Ok(Ok(_))) => t.action() == ThumbAction::Read,
                ThumbReply::Generated(Ok(Err(e))) => t.stage matches ThumbStage::Refused(r) && r.status == 500
                    && r.message == "thumb error: "@ + e@ && t.action() == ThumbAction::Finished,
                ThumbReply::Generated(Err(e)) => t.stage matches ThumbStage::Refused(r) && r.status == 500
                    && r.message == "join error: "@ + e@ && t.action() == ThumbAction::Finished,
                _ => t == s,
            }
            &&& s.action() == ThumbAction::Read ==> match reply {
                ThumbReply::Read(Some(bytes)) => t.stage == ThumbStage::Sent(bytes@) && t.action()
                    == ThumbAction::Finished,
                ThumbReply::Read(None) => t.stage matches ThumbStage::Refused(r) && r.status == 404 && r.message
                    == "not found"@ && t.action() == ThumbAction::Finished,
                _ => t == s,
            }
            &&& s.action() == ThumbAction::Finished ==> t == s
        }),
{
}

/// A thumbnail is sent as a JPEG, as it was read, to be kept for a day.
pub proof fn thumbs_answered(r: FileReply, body: Seq<u8>)
    requires
        is_thumb_reply(r, body),
    ensures
        r.content_type@ == "image/jpeg"@,
        r.cache_control@ == "public, max-age=86400"@,
        r.body@ == body,
{
}

/// The thumbnail of an image with pixels is the JPEG file of its red, green and blue values once it is
/// resized: its longer side is 512 long, and the other as much of that as it was of the longer, rounded
/// from a half upwards, but one at least.
pub proof fn thumbnail_by_size(c: Seq<int>, file: Seq<u8>)
    requires
        is_thumb_of(c, file),
        c[0] > 0,
        c[1] > 0,
    ensures
        ({
            let (w, h, rgb) = rgb8(resized(c, 512));
            let longer = if c[0] >= c[1] { c[0] } else { c[1] };
            &&& jpeg_file(w, h, rgb) == Ok::<Seq<u8>, Seq<char>>(file)
            &&& c[0] >= c[1] ==> w == 512
            &&& c[1] >= c[0] ==> h == 512
            &&& longer <= 65535 && longer != 49 * 1024 ==> {
                let x = (1024 * c[0] + longer) / (2 * longer);
                let y = (1024 * c[1] + longer) / (2 * longer);
                &&& w == if x >= 1 { x } else { 1 }
                &&& h == if y >= 1 { y } else { 1 }
            }
        }),
{
    let (w, h, rgb) = rgb8(resized(c, 512));
    let longer = if c[0] >= c[1] { c[0] } else { c[1] };
    if longer <= 65535 && longer != 49 * 1024 {
        assert(halves_go_up(longer, 512));
        scaled_side_is_rounded(c[0], longer, 512, w as int);
        scaled_side_is_rounded(c[1], longer, 512, h as int);
    }
}

/// A photo is decoded to what its image holds, or to the text of the error.
pub proof fn decoded_photos(img: image::DynamicImage, e: String)
    ensures
        outcome(Ok(img)) == Ok::<Seq<int>, Seq<char>>(image_contents(img)),
        outcome(Err(e)) == Err::<Seq<int>, Seq<char>>(e@),
{
}

/// The extensions of image files, and that they may be written with capitals.
pub proof fn extensions_of_images(a: Seq<char>, b: Seq<char>)
    ensures
        image_exts() == seq![
            "avif"@, "jpg"@, "jpeg"@, "jfif"@, "png"@, "apng"@, "gif"@, "webp"@, "tif"@, "tiff"@, "tga"@, "dds"@,
            "bmp"@, "ico"@, "hdr"@, "exr"@, "pbm"@, "pam"@, "ppm"@, "pgm"@, "pnm"@, "ff"@, "qoi"@
        ],
        ascii_lower(a) == ascii_lower(b) ==> (is_image_ext(a) <==> is_image_ext(b)),
        image_exts().contains(a) && ascii_lower(a) == a ==> is_image_ext(a),
        is_image_ext(a) ==> image_exts().contains(ascii_lower(a)),
{
}

/// A reason that is answered as JSON comes with the status of a bad request, and not as well.
pub proof fn json_errors(r: JsonError, error: Seq<char>)
    ensures
        is_json_error(r, error) <==> r.status == 400 && !r.ok && r.error@ == error,
{
}

/// What was decoded becomes its thumbnail, and what was not stays the error.
pub proof fn thumbnail_of_what_was_decoded(decoded: Result<Seq<int>, Seq<char>>, r: Result<Vec<u8>, String>)
    requires
        is_thumb(decoded, r),
    ensures
        decoded is Ok <==> r is Ok,
        decoded matches Ok(c) ==> is_thumb_of(c, r->Ok_0@),
        decoded matches Err(e) ==> r->Err_0@ == e,
{
}

/// The error of a file without an extension, and that of one whose extension of ASCII letters and
/// digits is not known.
pub proof fn unknown_formats_are_named(ext: Seq<char>, text: Seq<char>)
    requires
        is_no_format(ext, text),
    ensures
        ext.len() == 0 ==> text == "The image format could not be determined"@,
        ext.len() > 0 && (forall|i: int|
            0 <= i < ext.len() ==> 'a' as int <= (#[trigger] ext[i]) as int <= 'z' as int || 'A' as int <= ext[i] as int
                <= 'Z' as int || '0' as int <= ext[i] as int <= '9' as int) ==> text == "The file extension `.\""@ + ext
            + "\"` was not recognized as an image format"@,
{
    if forall|i: int|
        0 <= i < ext.len() ==> 'a' as int <= (#[trigger] ext[i]) as int <= 'z' as int || 'A' as int <= ext[i] as int
            <= 'Z' as int || '0' as int <= ext[i] as int <= '9' as int {
        assert(is_plain(ext));
    }
}

} // verus!
