//! Which names are of photos, raw files and videos, and what a listing tells of them.

use vstd::prelude::*;

use crate::listing::{
    counted_entry, jpeg_dir_names, media_count, media_hint, raw_dir_names, subdir_index,
    video_dir_names, EntryKind, EntryView,
};
use crate::media::{
    ext_category, ext_lists_are_disjoint, jpeg_exts, name_category, path_ext, raw_exts, video_exts,
    Category,
};
use crate::photos::is_photo_name;
use crate::text::{
    all_ascii, ascii_end_in_uppercase, ascii_upper, lowercase, suffix_from_last_dot,
    upper_chars, uppercase,
};
use crate::text_laws::{
    last_part_of_parts, lowercase_by_place, name_of_stem_and_extension,
    name_without_extension, names_of_no_file, same_but_capitals, uppercase_by_place,
};

verus! {

/// The extensions of photos.
proof fn photo_extensions(e: Seq<char>)
    ensures
        jpeg_exts().contains(e) <==> e == "jpg"@ || e == "jpeg"@,
{
    assert(jpeg_exts().len() == 2);
    assert(jpeg_exts()[0] == "jpg"@ && jpeg_exts()[1] == "jpeg"@);
}

/// The extensions of raw files.
proof fn raw_extensions(e: Seq<char>)
    ensures
        raw_exts().contains(e) <==> e == "arw"@ || e == "cr2"@ || e == "cr3"@ || e == "nef"@ || e == "dng"@ || e
            == "raf"@ || e == "orf"@ || e == "rw2"@ || e == "srw"@ || e == "pef"@ || e == "x3f"@,
{
    let x = raw_exts();
    assert(x.len() == 11);
    assert(x[0] == "arw"@ && x[1] == "cr2"@ && x[2] == "cr3"@ && x[3] == "nef"@ && x[4] == "dng"@);
    assert(x[5] == "raf"@ && x[6] == "orf"@ && x[7] == "rw2"@ && x[8] == "srw"@ && x[9] == "pef"@);
    assert(x[10] == "x3f"@);
}

/// The extensions of videos.
proof fn video_extensions(e: Seq<char>)
    ensures
        video_exts().contains(e) <==> e == "mp4"@ || e == "mov"@ || e == "m4v"@ || e == "avi"@ || e == "mts"@ || e
            == "m2ts"@ || e == "mkv"@ || e == "3gp"@ || e == "wmv"@ || e == "webm"@,
{
    let x = video_exts();
    assert(x.len() == 10);
    assert(x[0] == "mp4"@ && x[1] == "mov"@ && x[2] == "m4v"@ && x[3] == "avi"@ && x[4] == "mts"@);
    assert(x[5] == "m2ts"@ && x[6] == "mkv"@ && x[7] == "3gp"@ && x[8] == "wmv"@ && x[9] == "webm"@);
}

/// What kind a lowercase extension stands for.
pub proof fn kind_of_an_extension(e: Seq<char>)
    ensures
        ext_category(e) == Some(Category::Jpeg) <==> e == "jpg"@ || e == "jpeg"@,
        ext_category(e) == Some(Category::Raw) <==> e == "arw"@ || e == "cr2"@ || e == "cr3"@ || e == "nef"@ || e
            == "dng"@ || e == "raf"@ || e == "orf"@ || e == "rw2"@ || e == "srw"@ || e == "pef"@ || e == "x3f"@,
        ext_category(e) == Some(Category::Video) <==> e == "mp4"@ || e == "mov"@ || e == "m4v"@ || e == "avi"@ || e
            == "mts"@ || e == "m2ts"@ || e == "mkv"@ || e == "3gp"@ || e == "wmv"@ || e == "webm"@,
{
    photo_extensions(e);
    raw_extensions(e);
    video_extensions(e);
    ext_lists_are_disjoint(e);
}

/// What kind a file is of depends on its extension in lower case alone: those of photos, of raw files
/// and of videos are these, and no other makes a kind.
pub proof fn kind_of_a_name(stem: Seq<char>, ext: Seq<char>)
    requires
        stem.len() > 0,
        !ext.contains('.'),
        !(stem == seq!['.'] && ext.len() == 0),
    ensures
        ({
            let kind = name_category(stem + seq!['.'] + ext);
            let e = lowercase(ext);
            &&& kind == Some(Category::Jpeg) <==> e == "jpg"@ || e == "jpeg"@
            &&& kind == Some(Category::Raw) <==> e == "arw"@ || e == "cr2"@ || e == "cr3"@ || e == "nef"@ || e
                == "dng"@ || e == "raf"@ || e == "orf"@ || e == "rw2"@ || e == "srw"@ || e == "pef"@ || e == "x3f"@
            &&& kind == Some(Category::Video) <==> e == "mp4"@ || e == "mov"@ || e == "m4v"@ || e == "avi"@ || e
                == "mts"@ || e == "m2ts"@ || e == "mkv"@ || e == "3gp"@ || e == "wmv"@ || e == "webm"@
        }),
{
    name_of_stem_and_extension(stem, ext);
    kind_of_an_extension(lowercase(ext));
}

/// A file without an extension is of no kind.
pub proof fn no_kind_without_extension(name: Seq<char>, rest: Seq<char>)
    requires
        !rest.contains('.'),
        name == rest || name == seq!['.'] + rest || name == seq!['.', '.'],
    ensures
        name_category(name) is None,
{
    let none = Seq::<char>::empty();
    if rest.len() > 0 && name != seq!['.', '.'] {
        name_without_extension(name, rest);
    } else {
        assert(rest.len() == 0 ==> seq!['.'] + rest =~= seq!['.']);
        names_of_no_file(name);
    }
    assert(lowercase(none) =~= none);
    kind_of_an_extension(none);
    extensions_are_not_empty();
    if let Some(c) = ext_category(none) {
        assert(c == Category::Jpeg || c == Category::Raw || c == Category::Video);
    }
}

proof fn extensions_are_not_empty()
    ensures
        ext_category(Seq::<char>::empty()) is None,
{
    reveal_strlit("jpg");
    reveal_strlit("jpeg");
    reveal_strlit("arw");
    reveal_strlit("cr2");
    reveal_strlit("cr3");
    reveal_strlit("nef");
    reveal_strlit("dng");
    reveal_strlit("raf");
    reveal_strlit("orf");
    reveal_strlit("rw2");
    reveal_strlit("srw");
    reveal_strlit("pef");
    reveal_strlit("x3f");
    reveal_strlit("mp4");
    reveal_strlit("mov");
    reveal_strlit("m4v");
    reveal_strlit("avi");
    reveal_strlit("mts");
    reveal_strlit("m2ts");
    reveal_strlit("mkv");
    reveal_strlit("3gp");
    reveal_strlit("wmv");
    reveal_strlit("webm");
    assert("jpg"@.len() == 3);
    assert("jpeg"@.len() == 4);
    assert("arw"@.len() == 3);
    assert("cr2"@.len() == 3);
    assert("cr3"@.len() == 3);
    assert("nef"@.len() == 3);
    assert("dng"@.len() == 3);
    assert("raf"@.len() == 3);
    assert("orf"@.len() == 3);
    assert("rw2"@.len() == 3);
    assert("srw"@.len() == 3);
    assert("pef"@.len() == 3);
    assert("x3f"@.len() == 3);
    assert("mp4"@.len() == 3);
    assert("mov"@.len() == 3);
    assert("m4v"@.len() == 3);
    assert("avi"@.len() == 3);
    assert("mts"@.len() == 3);
    assert("m2ts"@.len() == 4);
    assert("mkv"@.len() == 3);
    assert("3gp"@.len() == 3);
    assert("wmv"@.len() == 3);
    assert("webm"@.len() == 4);
    let none = Seq::<char>::empty();
    photo_extensions(none);
    raw_extensions(none);
    video_extensions(none);
}

/// Files whose extensions differ in the case of ASCII letters only are of the same kind, whatever
/// their stems.
pub proof fn kind_ignores_capitals(stem: Seq<char>, other: Seq<char>, a: Seq<char>, b: Seq<char>)
    requires
        stem.len() > 0,
        other.len() > 0,
        b.len() > 0,
        !b.contains('.'),
        same_but_capitals(a, b),
        forall|k: int| 0 <= k < b.len() ==> (#[trigger] b[k]) as int <= 127,
    ensures
        name_category(stem + seq!['.'] + a) == name_category(other + seq!['.'] + b),
{
    assert forall|k: int| 0 <= k < a.len() implies (#[trigger] a[k]) as int <= 127 by {
        assert(a[k] == b[k] || a[k] as int + 32 == b[k] as int);
        assert(b[k] as int <= 127);
    }
    assert(!a.contains('.')) by {
        assert forall|k: int| 0 <= k < a.len() implies a[k] != '.' by {
            assert(a[k] == b[k] || a[k] as int + 32 == b[k] as int);
            assert(b.contains(b[k]));
        }
    }
    lowercase_by_place(a, 0);
    lowercase_by_place(b, 0);
    assert(lowercase(a) =~= lowercase(b)) by {
        assert forall|k: int| 0 <= k < a.len() implies lowercase(a)[k] == lowercase(b)[k] by {
            lowercase_by_place(a, k);
            lowercase_by_place(b, k);
            assert(a[k] == b[k] || ('a' as int <= b[k] as int <= 'z' as int && a[k] as int + 32 == b[k] as int));
        }
    }
    name_of_stem_and_extension(stem, a);
    name_of_stem_and_extension(other, b);
}

/// The names of the subfolders of the kinds.
pub proof fn dirs_of_the_kinds()
    ensures
        Category::Jpeg.dir() == "jpegs"@,
        Category::Raw.dir() == "raws"@,
        Category::Video.dir() == "videos"@,
{
}

/// The extension of what a path leads to is that of the last name put to the path.
pub proof fn extension_of_a_path(dir: Seq<char>, stem: Seq<char>, ext: Seq<char>)
    requires
        stem.len() > 0,
        !stem.contains('/'),
        !ext.contains('/'),
        !ext.contains('.'),
        !(stem == seq!['.'] && ext.len() == 0),
    ensures
        path_ext(dir + seq!['/'] + (stem + seq!['.'] + ext)) == ext,
        path_ext(stem + seq!['.'] + ext) == ext,
{
    let n = stem + seq!['.'] + ext;
    assert(!n.contains('/')) by {
        assert forall|i: int| 0 <= i < n.len() implies n[i] != '/' by {
            if i < stem.len() {
                assert(stem.contains(stem[i]));
            } else if i > stem.len() {
                assert(ext.contains(ext[i - stem.len() - 1]));
            }
        }
    }
    assert(n.len() >= 2 && seq!['.'].len() == 1);
    last_part_of_parts(dir, n);
    name_of_stem_and_extension(stem, ext);
}

/// A photo is listed under a name of anything, a dot and one of two extensions, written with whatever
/// capitals; and under no other name that ends in a dot and ASCII text without dots.
pub proof fn photo_names_by_parts(stem: Seq<char>, ext: Seq<char>)
    requires
        forall|k: int| 0 <= k < ext.len() ==> (#[trigger] ext[k]) as int <= 127,
        !ext.contains('.'),
    ensures
        is_photo_name(stem + seq!['.'] + ext) <==> same_but_capitals(ext, "jpg"@) || same_but_capitals(ext, "jpeg"@),
{
    let tail = seq!['.'] + ext;
    assert forall|k: int| 0 <= k < tail.len() implies (#[trigger] tail[k]) as int <= 127 by {
        if k > 0 {
            assert(tail[k] == ext[k - 1]);
        }
    }
    let name = stem + seq!['.'] + ext;
    assert(name =~= stem + tail);
    ascii_end_in_uppercase(stem, tail);
    let up = uppercase(ext);
    assert(all_ascii(ext));
    assert(ascii_upper(tail) =~= seq!['.'] + up);
    assert(uppercase(name) =~= upper_chars(stem) + seq!['.'] + up);
    assert(!up.contains('.')) by {
        assert forall|k: int| 0 <= k < up.len() implies up[k] != '.' by {
            uppercase_by_place(ext, k);
            assert(ext.contains(ext[k]));
        }
    }
    reveal_strlit(".JPG");
    reveal_strlit(".JPEG");
    let jpg = seq!['J', 'P', 'G'];
    let jpeg = seq!['J', 'P', 'E', 'G'];
    assert(".JPG"@ =~= seq!['.'] + jpg);
    assert(".JPEG"@ =~= seq!['.'] + jpeg);
    suffix_from_last_dot(upper_chars(stem), up, jpg);
    suffix_from_last_dot(upper_chars(stem), up, jpeg);
    upper_is_jpg(ext);
    upper_is_jpeg(ext);
}

#[verifier::spinoff_prover]
proof fn upper_is_jpg(ext: Seq<char>)
    requires
        forall|k: int| 0 <= k < ext.len() ==> (#[trigger] ext[k]) as int <= 127,
    ensures
        uppercase(ext) == seq!['J', 'P', 'G'] <==> same_but_capitals(ext, "jpg"@),
{
    reveal_strlit("jpg");
    let b = "jpg"@;
    assert(b.len() == 3 && b[0] == 'j' && b[1] == 'p' && b[2] == 'g');
    let u = seq!['J', 'P', 'G'];
    assert(u.len() == 3);
    let up = uppercase(ext);
    assert(up.len() == ext.len()) by {
        if ext.len() > 0 {
            uppercase_by_place(ext, 0);
        } else {
            assert(all_ascii(ext));
        }
    }
    if ext.len() == 3 {
        uppercase_by_place(ext, 0);
        uppercase_by_place(ext, 1);
        uppercase_by_place(ext, 2);
        if up == u {
            assert(up[0] == 'J' && up[1] == 'P' && up[2] == 'G');
            assert forall|i: int| 0 <= i < ext.len() implies (#[trigger] ext[i]) == b[i] || ('a' as int <= b[i] as int
                <= 'z' as int && ext[i] as int + 32 == b[i] as int) by {
                assert(i == 0 || i == 1 || i == 2);
            }
        }
        if same_but_capitals(ext, b) {
            assert(ext[0] == b[0] || ext[0] as int + 32 == b[0] as int);
            assert(ext[1] == b[1] || ext[1] as int + 32 == b[1] as int);
            assert(ext[2] == b[2] || ext[2] as int + 32 == b[2] as int);
            assert(up =~= u);
        }
    }
}

#[verifier::spinoff_prover]
proof fn upper_is_jpeg(ext: Seq<char>)
    requires
        forall|k: int| 0 <= k < ext.len() ==> (#[trigger] ext[k]) as int <= 127,
    ensures
        uppercase(ext) == seq!['J', 'P', 'E', 'G'] <==> same_but_capitals(ext, "jpeg"@),
{
    reveal_strlit("jpeg");
    let b = "jpeg"@;
    assert(b.len() == 4 && b[0] == 'j' && b[1] == 'p' && b[2] == 'e' && b[3] == 'g');
    let u = seq!['J', 'P', 'E', 'G'];
    assert(u.len() == 4);
    let up = uppercase(ext);
    assert(up.len() == ext.len()) by {
        if ext.len() > 0 {
            uppercase_by_place(ext, 0);
        } else {
            assert(all_ascii(ext));
        }
    }
    if ext.len() == 4 {
        uppercase_by_place(ext, 0);
        uppercase_by_place(ext, 1);
        uppercase_by_place(ext, 2);
        uppercase_by_place(ext, 3);
        if up == u {
            assert(up[0] == 'J' && up[1] == 'P' && up[2] == 'E' && up[3] == 'G');
            assert forall|i: int| 0 <= i < ext.len() implies (#[trigger] ext[i]) == b[i] || ('a' as int <= b[i] as int
                <= 'z' as int && ext[i] as int + 32 == b[i] as int) by {
                assert(i == 0 || i == 1 || i == 2 || i == 3);
            }
        }
        if same_but_capitals(ext, b) {
            assert(ext[0] == b[0] || ext[0] as int + 32 == b[0] as int);
            assert(ext[1] == b[1] || ext[1] as int + 32 == b[1] as int);
            assert(ext[2] == b[2] || ext[2] as int + 32 == b[2] as int);
            assert(ext[3] == b[3] || ext[3] as int + 32 == b[3] as int);
            assert(up =~= u);
        }
    }
}

/// A photo is listed under a name exactly where its last characters in upper case are those of one of
/// the two extensions, with the dot before it.
pub proof fn photo_names_by_place(name: Seq<char>)
    ensures
        ({
            let u = uppercase(name);
            let k = u.len() as int;
            is_photo_name(name) <==> (k >= 4 && u[k - 4] == '.' && u[k - 3] == 'J' && u[k - 2] == 'P' && u[k - 1] == 'G')
                || (k >= 5 && u[k - 5] == '.' && u[k - 4] == 'J' && u[k - 3] == 'P' && u[k - 2] == 'E' && u[k - 1]
                == 'G')
        }),
{
    let u = uppercase(name);
    let k = u.len() as int;
    reveal_strlit(".JPG");
    reveal_strlit(".JPEG");
    let jpg = ".JPG"@;
    let jpeg = ".JPEG"@;
    assert(jpg =~= seq!['.', 'J', 'P', 'G']);
    assert(jpeg =~= seq!['.', 'J', 'P', 'E', 'G']);
    if k >= 4 {
        let t = u.skip(k - 4);
        assert(t[0] == u[k - 4] && t[1] == u[k - 3] && t[2] == u[k - 2] && t[3] == u[k - 1]);
        if u[k - 4] == '.' && u[k - 3] == 'J' && u[k - 2] == 'P' && u[k - 1] == 'G' {
            assert(t =~= jpg);
        }
        if t == jpg {
            assert(jpg[0] == '.' && jpg[1] == 'J' && jpg[2] == 'P' && jpg[3] == 'G');
        }
    }
    if k >= 5 {
        let t = u.skip(k - 5);
        assert(t[0] == u[k - 5] && t[1] == u[k - 4] && t[2] == u[k - 3] && t[3] == u[k - 2] && t[4] == u[k - 1]);
        if u[k - 5] == '.' && u[k - 4] == 'J' && u[k - 3] == 'P' && u[k - 2] == 'E' && u[k - 1] == 'G' {
            assert(t =~= jpeg);
        }
        if t == jpeg {
            assert(jpeg[0] == '.' && jpeg[1] == 'J' && jpeg[2] == 'P' && jpeg[3] == 'E' && jpeg[4] == 'G');
        }
    }
}

/// The names, in lower case, under which the folders of the kinds are found.
pub proof fn names_of_the_folders(n: Seq<char>)
    ensures
        jpeg_dir_names().contains(n) <==> n == "jpegs"@ || n == "jpeg"@ || n == "jpg"@,
        raw_dir_names().contains(n) <==> n == "raws"@ || n == "raw"@ || n == "arw"@,
        video_dir_names().contains(n) <==> n == "videos"@ || n == "video"@ || n == "movies"@,
{
    let j = jpeg_dir_names();
    let r = raw_dir_names();
    let v = video_dir_names();
    assert(j.len() == 3 && j[0] == "jpegs"@ && j[1] == "jpeg"@ && j[2] == "jpg"@);
    assert(r.len() == 3 && r[0] == "raws"@ && r[1] == "raw"@ && r[2] == "arw"@);
    assert(v.len() == 3 && v[0] == "videos"@ && v[1] == "video"@ && v[2] == "movies"@);
}

/// The entry has one of the names in lower case, but is known to be no folder; or it has none.
pub open spec fn is_passed_over(e: EntryView, names: Seq<Seq<char>>) -> bool {
    !names.contains(lowercase(e.name)) || e.kind == EntryKind::File || e.kind == EntryKind::Other
}

/// The folder found is the first entry that has one of the names, whatever its case, and is a folder;
/// unless an entry before it has one and cannot be told to be a folder or not. Where all entries
/// are passed over, none is found.
pub proof fn folder_found(entries: Seq<EntryView>, names: Seq<Seq<char>>, i: int)
    requires
        0 <= i <= entries.len(),
        forall|j: int| 0 <= j < i ==> is_passed_over(#[trigger] entries[j], names),
    ensures
        i < entries.len() && names.contains(lowercase(entries[i].name)) && entries[i].kind == EntryKind::Dir
            ==> subdir_index(entries, names) == Some(i),
        i < entries.len() && names.contains(lowercase(entries[i].name)) && entries[i].kind == EntryKind::Unknown
            ==> subdir_index(entries, names) is None,
        i == entries.len() ==> subdir_index(entries, names) is None,
    decreases i,
{
    if i > 0 {
        assert(is_passed_over(entries[0], names));
        let rest = entries.drop_first();
        assert forall|j: int| 0 <= j < i - 1 implies is_passed_over(#[trigger] rest[j], names) by {
            assert(rest[j] == entries[j + 1]);
        }
        if i < entries.len() {
            assert(rest[i - 1] == entries[i]);
        }
        folder_found(rest, names, i - 1);
    }
}

/// An entry more in a listing is one media file more exactly where it is a regular file of a kind.
pub proof fn media_files_one_by_one(entries: Seq<EntryView>, e: EntryView)
    ensures
        media_count(Seq::<EntryView>::empty()) == 0,
        media_count(entries.push(e)) == media_count(entries) + (if e.kind == EntryKind::File && name_category(e.name)
            is Some {
            1nat
        } else {
            0nat
        }),
{
    reveal(Seq::filter);
    assert(entries.push(e).drop_last() =~= entries);
}

/// The hint counts the media files of a folder, if it has any; else those of its folder of photos, if
/// there is one.
pub proof fn hint_by_cases(entries: Seq<EntryView>, sub: Seq<EntryView>)
    ensures
        media_count(entries) > 0 ==> media_hint(entries, sub) == media_count(entries) && counted_entry(entries) is None,
        media_count(entries) == 0 && subdir_index(entries, jpeg_dir_names()) is Some ==> media_hint(entries, sub)
            == media_count(sub) && counted_entry(entries) == subdir_index(entries, jpeg_dir_names()),
        media_count(entries) == 0 && subdir_index(entries, jpeg_dir_names()) is None ==> media_hint(entries, sub) == 0
            && counted_entry(entries) is None,
{
}

} // verus!
