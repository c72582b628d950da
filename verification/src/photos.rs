//! The photos of the opened folder: listing them, and sending one.

use vstd::prelude::*;

use crate::media::{ext_text, jpeg_exts, name_category, Category};
use crate::order::{filter_of_multiset, is_sorted, sort_texts, sorted_texts_are_unique, string_texts};
use crate::reply::{
    is_json_error, json_err, FileReply, JsonError, Place, PlaceView, Refusal, RefusalView,
    NOT_FOUND,
};
use crate::session::{name_refusal, session_for, session_view, AppState, Session, SessionView};
use crate::sorting::SortReport;
use crate::text::{
    all_ascii, ascii_end_in_uppercase, ascii_lower, ascii_lower_char, ascii_upper,
    ascii_upper_char, ends_with, extension_of, file_extension, file_stem, has_suffix, join_text,
    name_is_stem_dot_extension, suffix_from_last_dot, upper_chars, uppercase,
};

verus! {

/// A name under which a photo is listed: it ends in one of the two extensions, whatever its
/// letters' case.
pub open spec fn is_photo_name(name: Seq<char>) -> bool {
    has_suffix(uppercase(name), ".JPG"@) || has_suffix(uppercase(name), ".JPEG"@)
}

/// Whether a photo is listed under the name.
pub fn is_photo(name: &str) -> (r: bool)
    ensures
        r == is_photo_name(name@),
{
    let upper: String = name.to_uppercase();
    ends_with(upper.as_str(), ".JPG") || ends_with(upper.as_str(), ".JPEG")
}

/// The photos of the opened folder.
#[derive(Debug)]
pub struct PhotosResponse {
    pub loaded: bool,
    pub files: Vec<String>,
    pub root: String,
    pub raw_available: bool,
    pub video_available: bool,
}

/// The names of photos among the names of a folder.
pub open spec fn photo_names(names: Seq<Seq<char>>) -> Seq<Seq<char>> {
    names.filter(|n: Seq<char>| is_photo_name(n))
}

/// `r` lists the photos of an opened folder, of whose folder of photos `names` is the listing:
/// those names of it that are of photos, sorted; and whether there are folders of raw files and
/// of videos.
pub open spec fn lists_photos(r: PhotosResponse, session: SessionView, names: Seq<Seq<char>>) -> bool {
    &&& r.loaded
    &&& is_sorted(string_texts(r.files@))
    &&& string_texts(r.files@).to_multiset() == photo_names(names).to_multiset()
    &&& r.root@ == session.root
    &&& r.raw_available == (session.raw_dir is Some)
    &&& r.video_available == (session.video_dir is Some)
}

/// There is one list only of the photos of an opened folder: as long as its folder of photos
/// stays the same, every request for the list, and the opening of the folder itself, is answered
/// with the same, in whatever order that folder's names are listed.
pub proof fn photo_list_is_unique(
    a: PhotosResponse,
    b: PhotosResponse,
    session: SessionView,
    names: Seq<Seq<char>>,
    again: Seq<Seq<char>>,
)
    requires
        lists_photos(a, session, names),
        lists_photos(b, session, again),
        names.to_multiset() == again.to_multiset(),
    ensures
        string_texts(a.files@) == string_texts(b.files@),
        a.loaded == b.loaded,
        a.root@ == b.root@,
        a.raw_available == b.raw_available,
        a.video_available == b.video_available,
{
    filter_of_multiset(names, |n: Seq<char>| is_photo_name(n));
    filter_of_multiset(again, |n: Seq<char>| is_photo_name(n));
    sorted_texts_are_unique(string_texts(a.files@), string_texts(b.files@));
}

/// `r` says that no folder is open.
pub open spec fn lists_nothing(r: PhotosResponse) -> bool {
    &&& !r.loaded
    &&& r.files@.len() == 0
    &&& r.root@.len() == 0
    &&& !r.raw_available
    &&& !r.video_available
}

fn photos_among(names: &Vec<String>) -> (r: Vec<String>)
    ensures
        string_texts(r@) == photo_names(string_texts(names@)),
{
    let ghost all = string_texts(names@);
    let ghost photo = |n: Seq<char>| is_photo_name(n);
    let mut r: Vec<String> = Vec::new();
    let mut i: usize = 0;
    proof {
        reveal(Seq::filter);
        assert(string_texts(r@) =~= all.take(0).filter(photo));
    }
    while i < names.len()
        invariant
            i <= names.len(),
            all == string_texts(names@),
            photo == (|n: Seq<char>| is_photo_name(n)),
            string_texts(r@) == all.take(i as int).filter(photo),
        decreases names.len() - i,
    {
        let ghost before = r@;
        proof {
            reveal(Seq::filter);
            assert(all.take(i + 1).drop_last() =~= all.take(i as int));
            assert(all.take(i + 1).last() == names@[i as int]@);
        }
        if is_photo(names[i].as_str()) {
            r.push(names[i].clone());
            assert(string_texts(r@) =~= string_texts(before).push(names@[i as int]@));
        }
        i = i + 1;
    }
    assert(all.take(all.len() as int) =~= all);
    r
}

/// Lists the photos of an opened folder, of whose folder of photos `names` is the listing.
pub fn photos_response(session: &Session, names: &Vec<String>) -> (r: PhotosResponse)
    ensures
        lists_photos(r, session@, string_texts(names@)),
{
    let photos: Vec<String> = photos_among(names);
    PhotosResponse {
        loaded: true,
        files: sort_texts(&photos),
        root: session.root.clone(),
        raw_available: session.raw_dir.is_some(),
        video_available: session.video_dir.is_some(),
    }
}

/// `r` lists the photos of the opened folder, if any.
pub open spec fn answers_list(session: Option<SessionView>, names: Seq<Seq<char>>, r: PhotosResponse) -> bool {
    match session {
        Some(s) => lists_photos(r, s, names),
        None => lists_nothing(r),
    }
}

/// Lists the photos of the opened folder, if any, of whose folder of photos `names` is the
/// listing.
pub fn list_photos(session: &Option<Session>, names: &Vec<String>) -> (r: PhotosResponse)
    ensures
        answers_list(session_view(*session), string_texts(names@), r),
{
    match session {
        Some(s) => photos_response(s, names),
        None => PhotosResponse {
            loaded: false,
            files: Vec::new(),
            root: String::new(),
            raw_available: false,
            video_available: false,
        },
    }
}

/// What the opening of a folder is answered.
#[derive(Debug)]
pub struct OpenResponse {
    pub ok: bool,
    pub report: SortReport,
    pub photos: PhotosResponse,
}

/// `r` says whether a path can be opened, and if not, why. `found` is what came of looking it up:
/// whether it is a folder, or why it could not be found.
pub open spec fn tells_target(found: Result<bool, String>, r: Result<(), JsonError>) -> bool {
    match found {
        Ok(true) => r is Ok,
        Ok(false) => r matches Err(e) && is_json_error(e, "not a directory"@),
        Err(m) => r matches Err(e) && is_json_error(e, "invalid path: "@ + m@),
    }
}

/// Whether a path can be opened. `found` is what came of looking it up: whether it is a
/// folder, or why it could not be found.
pub fn open_target(found: Result<bool, String>) -> (r: Result<(), JsonError>)
    ensures
        tells_target(found, r),
{
    match found {
        Ok(is_dir) => if is_dir {
            Ok(())
        } else {
            Err(json_err("not a directory".to_owned()))
        },
        Err(m) => Err(json_err(join_text("invalid path: ", m.as_str()))),
    }
}

/// What came of the opening of a folder, and of the task that it was given to.
pub type Built = Result<Result<(Session, SortReport), String>, String>;

/// `r` answers the opening of a folder, and `after` is the state then: with the folder open, and with
/// what was moved in it and the list of its photos; or as before, with the reason for that.
pub open spec fn answers_opening(
    before: AppState,
    built: Built,
    names: Seq<Seq<char>>,
    after: AppState,
    r: Result<OpenResponse, JsonError>,
) -> bool {
    match built {
        Ok(Ok((session, report))) => {
            &&& session_view(after.session) == Some(session@)
            &&& r matches Ok(o) && o.ok && o.report == report && lists_photos(o.photos, session@, names)
        },
        Ok(Err(m)) => {
            &&& after == before
            &&& r matches Err(e) && is_json_error(e, m@)
        },
        Err(m) => {
            &&& after == before
            &&& r matches Err(e) && is_json_error(e, "task failed: "@ + m@)
        },
    }
}

/// Opens a folder in place of the one that is open. `built` is what came of its preparation, and
/// `names` the listing of its folder of photos. Where the preparation failed, the folder that
/// is open stays so.
pub fn open_folder(state: &mut AppState, built: Built, names: &Vec<String>) -> (r: Result<
    OpenResponse,
    JsonError,
>)
    ensures
        answers_opening(*old(state), built, string_texts(names@), *final(state), r),
{
    match built {
        Ok(Ok((session, report))) => {
            let photos: PhotosResponse = photos_response(&session, names);
            state.session = Some(session);
            Ok(OpenResponse { ok: true, report, photos })
        },
        Ok(Err(m)) => Err(json_err(m)),
        Err(m) => Err(json_err(join_text("task failed: ", m.as_str()))),
    }
}

/// The type that `mime_guess` guesses a file to have from its extension, if that is not empty and
/// not one of the two of photos.
pub uninterp spec fn guessed_type(ext: Seq<char>) -> Seq<char>;

/// One of the two extensions of photos, whatever its letters' case.
pub open spec fn is_jpeg_ext(ext: Seq<char>) -> bool {
    all_ascii(ext) && jpeg_exts().contains(ascii_lower(ext))
}

/// The type that a file is sent as.
pub open spec fn content_type(name: Seq<char>) -> Seq<char> {
    let ext = ext_text(name);
    if ext.len() == 0 {
        "application/octet-stream"@
    } else if is_jpeg_ext(ext) {
        "image/jpeg"@
    } else {
        guessed_type(ext)
    }
}

/// `mime_guess::from_ext`, which is what `mime_guess::from_path` calls with a path's extension, and
/// of what that guesses the first type, or `application/octet-stream` where there is none: a guess
/// after a table of the crate's own. An empty extension has no guess; the two
/// extensions of photos, whatever their letters' case, are in the table.
#[verifier::external_body]
fn guess_type(ext: &str) -> (r: String)
    ensures
        ext@.len() == 0 ==> r@ == "application/octet-stream"@,
        is_jpeg_ext(ext@) ==> r@ == "image/jpeg"@,
        ext@.len() > 0 && !is_jpeg_ext(ext@) ==> r@ == guessed_type(ext@),
{
    mime_guess::from_ext(ext).first_or_octet_stream().as_ref().to_owned()
}

/// Where a photo of the opened folder is.
pub open spec fn photo_place(session: SessionView, name: Seq<char>) -> PlaceView {
    PlaceView { dir: session.jpeg_dir, name }
}

/// The photo that a request asks for, or why it is refused.
pub fn serve_full(session: &Option<Session>, name: &str) -> (r: Result<Place, Refusal>)
    ensures
        match name_refusal(session_view(*session), name@) {
            Some(no) => r matches Err(e) && e@ == no,
            None => r matches Ok(p) && p@ == photo_place(session_view(*session)->0, name@),
        },
{
    match session_for(session, name) {
        Ok(s) => Ok(Place::new(s.jpeg_dir.as_str(), name)),
        Err(e) => Err(e),
    }
}

/// A photo as it is sent: with the type guessed from its name, to be kept for an hour.
pub open spec fn is_photo_reply(r: FileReply, content_type: Seq<char>, body: Seq<u8>) -> bool {
    &&& r.content_type@ == content_type
    &&& r.cache_control@ == "public, max-age=3600"@
    &&& r.body@ == body
}

/// `r` answers the request for a photo: with the file that was read, as one of the given type, or
/// that it was not found.
pub open spec fn answers_photo(
    content_type: Seq<char>,
    read: Option<Vec<u8>>,
    r: Result<FileReply, Refusal>,
) -> bool {
    match read {
        Some(bytes) => r matches Ok(f) && is_photo_reply(f, content_type, bytes@),
        None => r matches Err(e) && e@ == (RefusalView { status: NOT_FOUND, message: "not found"@ }),
    }
}

/// Sends the photo that was read, as a file of the given type; `None` is one that could not be
/// read.
pub fn full_reply_of_type(content_type: String, read: Option<Vec<u8>>) -> (r: Result<FileReply, Refusal>)
    ensures
        answers_photo(content_type@, read, r),
{
    match read {
        Some(bytes) => Ok(
            FileReply {
                content_type,
                cache_control: "public, max-age=3600".to_owned(),
                body: bytes,
            },
        ),
        None => Err(Refusal::new(NOT_FOUND, "not found")),
    }
}

/// Sends the photo that was read at a place; `None` is one that could not be read.
pub fn full_reply(place: &Place, read: Option<Vec<u8>>) -> (r: Result<FileReply, Refusal>)
    ensures
        answers_photo(content_type(place.name@), read, r),
{
    let ext: &str = match extension_of(place.name.as_str()) {
        Some(e) => e,
        None => "",
    };
    proof {
        reveal_strlit("");
        reveal_strlit("jpg");
        reveal_strlit("jpeg");
        assert(""@ =~= Seq::<char>::empty());
    }
    full_reply_of_type(guess_type(ext), read)
}

/// Lower and upper case of ASCII characters agree.
proof fn ascii_cases_agree(c: char)
    requires
        c as int <= 127,
    ensures
        ascii_upper_char(c) == '.' <==> c == '.',
        ascii_upper_char(c) == 'J' <==> ascii_lower_char(c) == 'j',
        ascii_upper_char(c) == 'P' <==> ascii_lower_char(c) == 'p',
        ascii_upper_char(c) == 'E' <==> ascii_lower_char(c) == 'e',
        ascii_upper_char(c) == 'G' <==> ascii_lower_char(c) == 'g',
{
}

/// An ASCII extension is `jpg` in lower case exactly where it is `JPG` in upper case.
#[verifier::spinoff_prover]
proof fn jpg_in_either_case(e: Seq<char>)
    requires
        all_ascii(e),
    ensures
        ascii_lower(e) == "jpg"@ <==> ascii_upper(e) == seq!['J', 'P', 'G'],
{
    let low = ascii_lower(e);
    let up = ascii_upper(e);
    reveal_strlit("jpg");
    assert("jpg"@ =~= seq!['j', 'p', 'g']);
    assert(low.len() == e.len() && up.len() == e.len());
    if e.len() == 3 {
        ascii_cases_agree(e[0]);
        ascii_cases_agree(e[1]);
        ascii_cases_agree(e[2]);
        assert(low =~= seq![ascii_lower_char(e[0]), ascii_lower_char(e[1]), ascii_lower_char(e[2])]);
        assert(up =~= seq![ascii_upper_char(e[0]), ascii_upper_char(e[1]), ascii_upper_char(e[2])]);
        if low == "jpg"@ {
            assert(low[0] == 'j' && low[1] == 'p' && low[2] == 'g');
            assert(up =~= seq!['J', 'P', 'G']);
        }
        if up == seq!['J', 'P', 'G'] {
            assert(up[0] == 'J' && up[1] == 'P' && up[2] == 'G');
            assert(low =~= "jpg"@);
        }
    }
}

/// An ASCII extension is `jpeg` in lower case exactly where it is `JPEG` in upper case.
#[verifier::spinoff_prover]
proof fn jpeg_in_either_case(e: Seq<char>)
    requires
        all_ascii(e),
    ensures
        ascii_lower(e) == "jpeg"@ <==> ascii_upper(e) == seq!['J', 'P', 'E', 'G'],
{
    let low = ascii_lower(e);
    let up = ascii_upper(e);
    reveal_strlit("jpeg");
    assert("jpeg"@ =~= seq!['j', 'p', 'e', 'g']);
    assert(low.len() == e.len() && up.len() == e.len());
    if e.len() == 4 {
        ascii_cases_agree(e[0]);
        ascii_cases_agree(e[1]);
        ascii_cases_agree(e[2]);
        ascii_cases_agree(e[3]);
        assert(low[0] == ascii_lower_char(e[0]) && low[1] == ascii_lower_char(e[1]));
        assert(low[2] == ascii_lower_char(e[2]) && low[3] == ascii_lower_char(e[3]));
        assert(up[0] == ascii_upper_char(e[0]) && up[1] == ascii_upper_char(e[1]));
        assert(up[2] == ascii_upper_char(e[2]) && up[3] == ascii_upper_char(e[3]));
        if low == "jpeg"@ {
            assert(low[0] == 'j' && low[1] == 'p' && low[2] == 'e' && low[3] == 'g');
            assert(up =~= seq!['J', 'P', 'E', 'G']);
        }
        if up == seq!['J', 'P', 'E', 'G'] {
            assert(up[0] == 'J' && up[1] == 'P' && up[2] == 'E' && up[3] == 'G');
            assert(low =~= "jpeg"@);
        }
    }
}

/// A name with an ASCII extension is that of a photo exactly where its extension is one of the two
/// of photos.
#[verifier::spinoff_prover]
proof fn photo_by_extension(name: Seq<char>, e: Seq<char>)
    requires
        file_extension(name) == Some(e),
        all_ascii(e),
    ensures
        is_photo_name(name) <==> jpeg_exts().contains(ascii_lower(e)),
{
    name_is_stem_dot_extension(name);
    let stem = file_stem(name)->0;
    let tail = seq!['.'] + e;
    let up = ascii_upper(e);
    assert(all_ascii(tail)) by {
        assert forall|i: int| 0 <= i < tail.len() implies (#[trigger] tail[i]) as int <= 127 by {
            if i > 0 {
                assert(tail[i] == e[i - 1]);
            }
        }
    }
    assert(name =~= stem + tail);
    ascii_end_in_uppercase(stem, tail);
    assert(ascii_upper(tail) =~= seq!['.'] + up);
    assert(uppercase(name) =~= upper_chars(stem) + seq!['.'] + up);
    assert(!up.contains('.')) by {
        assert forall|i: int| 0 <= i < up.len() implies up[i] != '.' by {
            ascii_cases_agree(e[i]);
            assert(e.contains(e[i]));
        }
    }
    reveal_strlit(".JPG");
    reveal_strlit(".JPEG");
    assert(".JPG"@ =~= seq!['.'] + seq!['J', 'P', 'G']);
    assert(".JPEG"@ =~= seq!['.'] + seq!['J', 'P', 'E', 'G']);
    suffix_from_last_dot(upper_chars(stem), up, seq!['J', 'P', 'G']);
    suffix_from_last_dot(upper_chars(stem), up, seq!['J', 'P', 'E', 'G']);
    jpg_in_either_case(e);
    jpeg_in_either_case(e);
    assert(jpeg_exts()[0] == "jpg"@ && jpeg_exts()[1] == "jpeg"@);
}

/// The sort and the list of photos agree on what a photo is: a file with an extension that is all
/// ASCII is listed as a photo exactly where the sort takes it for one.
pub proof fn sorted_photos_are_listed(name: Seq<char>)
    requires
        file_extension(name) is Some,
        all_ascii(file_extension(name)->0),
    ensures
        name_category(name) == Some(Category::Jpeg) <==> is_photo_name(name),
{
    photo_by_extension(name, file_extension(name)->0);
}

/// A listed photo with an extension that is all ASCII is sent as a JPEG.
pub proof fn listed_photos_are_sent_as_jpegs(name: Seq<char>)
    requires
        file_extension(name) is Some,
        all_ascii(file_extension(name)->0),
        is_photo_name(name),
    ensures
        content_type(name) == "image/jpeg"@,
{
    let e = file_extension(name)->0;
    photo_by_extension(name, e);
    reveal_strlit("jpg");
    reveal_strlit("jpeg");
    assert(ascii_lower(e).len() == e.len());
}

} // verus!
