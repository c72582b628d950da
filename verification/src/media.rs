//! Which files are photos, raw files and videos.

use vstd::prelude::*;

use crate::text::{
    all_ascii, ascii_lower, ascii_lower_char, extension_of, file_extension, file_name,
    is_ascii_capital, is_ascii_sign, joined, last_index, last_index_is_last, last_part,
    last_part_of, last_part_of_joined, lowercase, name_is_stem_dot_extension, same_text,
};

verus! {

/// The three kinds of media, each with a subfolder of its own.
#[derive(Clone, Copy, Debug, PartialEq, Eq, Structural)]
pub enum Category {
    Jpeg,
    Raw,
    Video,
}

/// Extensions of photos.
pub open spec fn jpeg_exts() -> Seq<Seq<char>> {
    seq!["jpg"@, "jpeg"@]
}

/// Extensions of raw files.
pub open spec fn raw_exts() -> Seq<Seq<char>> {
    seq![
        "arw"@,
        "cr2"@,
        "cr3"@,
        "nef"@,
        "dng"@,
        "raf"@,
        "orf"@,
        "rw2"@,
        "srw"@,
        "pef"@,
        "x3f"@,
    ]
}

/// Extensions of videos.
pub open spec fn video_exts() -> Seq<Seq<char>> {
    seq![
        "mp4"@,
        "mov"@,
        "m4v"@,
        "avi"@,
        "mts"@,
        "m2ts"@,
        "mkv"@,
        "3gp"@,
        "wmv"@,
        "webm"@,
    ]
}

/// The texts that a list of string slices holds.
pub open spec fn texts(list: Seq<&str>) -> Seq<Seq<char>> {
    list.map_values(|t: &str| t@)
}

/// Whether a text stands in a list.
pub fn is_one_of(s: &str, list: &Vec<&str>) -> (r: bool)
    ensures
        r == texts(list@).contains(s@),
{
    let mut i: usize = 0;
    while i < list.len()
        invariant
            i <= list.len(),
            forall|j: int| 0 <= j < i ==> texts(list@)[j] != s@,
        decreases list.len() - i,
    {
        if same_text(list[i], s) {
            assert(texts(list@)[i as int] == s@);
            return true;
        }
        i = i + 1;
    }
    false
}

fn jpeg_list() -> (r: Vec<&'static str>)
    ensures
        texts(r@) == jpeg_exts(),
{
    let r: Vec<&'static str> = vec!["jpg", "jpeg"];
    assert(texts(r@) =~= jpeg_exts());
    r
}

fn raw_list() -> (r: Vec<&'static str>)
    ensures
        texts(r@) == raw_exts(),
{
    let r: Vec<&'static str> = vec![
        "arw", "cr2", "cr3", "nef", "dng", "raf", "orf", "rw2", "srw", "pef", "x3f",
    ];
    assert(texts(r@) =~= raw_exts());
    r
}

fn video_list() -> (r: Vec<&'static str>)
    ensures
        texts(r@) == video_exts(),
{
    let r: Vec<&'static str> = vec![
        "mp4", "mov", "m4v", "avi", "mts", "m2ts", "mkv", "3gp", "wmv", "webm",
    ];
    assert(texts(r@) =~= video_exts());
    r
}

impl Category {
    /// The name of the subfolder that the files of this kind belong in.
    pub open spec fn dir(self) -> Seq<char> {
        match self {
            Category::Jpeg => "jpegs"@,
            Category::Raw => "raws"@,
            Category::Video => "videos"@,
        }
    }

    /// The name of the subfolder that the files of this kind belong in.
    pub fn dir_name(self) -> (r: &'static str)
        ensures
            r@ == self.dir(),
    {
        match self {
            Category::Jpeg => "jpegs",
            Category::Raw => "raws",
            Category::Video => "videos",
        }
    }
}

/// No two kinds share a subfolder.
pub proof fn category_dirs_differ(a: Category, b: Category)
    ensures
        a.dir() == b.dir() <==> a == b,
{
    reveal_strlit("jpegs");
    reveal_strlit("raws");
    reveal_strlit("videos");
    assert("raws"@.len() == 4 && "jpegs"@.len() == 5 && "videos"@.len() == 6);
}

/// The kind of media that a lowercase extension stands for.
pub open spec fn ext_category(ext: Seq<char>) -> Option<Category> {
    if jpeg_exts().contains(ext) {
        Some(Category::Jpeg)
    } else if raw_exts().contains(ext) {
        Some(Category::Raw)
    } else if video_exts().contains(ext) {
        Some(Category::Video)
    } else {
        None
    }
}

/// The extension of a file name, or the empty text where it has none.
pub open spec fn ext_text(name: Seq<char>) -> Seq<char> {
    match file_extension(name) {
        Some(e) => e,
        None => Seq::empty(),
    }
}

/// The kind of media that a file name stands for.
pub open spec fn name_category(name: Seq<char>) -> Option<Category> {
    ext_category(lowercase(ext_text(name)))
}

/// The extension of the file that a path leads to, or the empty text where it has none.
pub open spec fn path_ext(path: Seq<char>) -> Seq<char> {
    ext_text(last_part(path))
}

/// The lowercase extension of the file that a path leads to; the empty text where it has none. It
/// holds no dot, no `/` and no capital letter of ASCII.
pub fn ext_lower(path: &str) -> (r: String)
    ensures
        r@ == lowercase(path_ext(path@)),
        file_extension(last_part(path@)) is None ==> r@.len() == 0,
        !r@.contains('.'),
        !r@.contains('/'),
        forall|i: int| 0 <= i < r@.len() ==> !is_ascii_capital(#[trigger] r@[i]),
{
    proof {
        let name = last_part(path@);
        let ext = path_ext(path@);
        last_part_holds_no_slash(path@);
        name_is_stem_dot_extension(name);
        assert(!ext.contains('.') && !ext.contains('/')) by {
            assert forall|i: int| 0 <= i < ext.len() implies ext[i] != '.' && ext[i] != '/' by {
                assert(ext.contains(ext[i]));
                assert(ext[i] == name[name.len() - ext.len() + i]);
                assert(name.contains(ext[i]));
            }
        }
        assert(is_ascii_sign('.') && is_ascii_sign('/'));
    }
    lower_ext_of(last_part_of(path))
}

/// The lowercase extension of a file name; the empty text where it has none.
pub fn lower_ext_of(name: &str) -> (r: String)
    ensures
        r@ == lowercase(ext_text(name@)),
        forall|i: int| 0 <= i < r@.len() ==> !is_ascii_capital(#[trigger] r@[i]),
        forall|c: char| is_ascii_sign(c) && #[trigger] r@.contains(c) ==> ext_text(name@).contains(c),
{
    let ext: &str = match extension_of(name) {
        Some(e) => e,
        None => "",
    };
    proof {
        reveal_strlit("");
        assert(""@ =~= Seq::<char>::empty());
        assert(ext@ == ext_text(name@));
    }
    ext.to_lowercase()
}

/// Whether a lowercase extension is one of a photo, a raw file or a video.
pub fn is_media_ext(ext: &str) -> (r: bool)
    ensures
        r == (jpeg_exts().contains(ext@) || raw_exts().contains(ext@) || video_exts().contains(ext@)),
        r == (ext_category(ext@) is Some),
{
    is_one_of(ext, &jpeg_list()) || is_one_of(ext, &raw_list()) || is_one_of(ext, &video_list())
}

/// The kind of media that a lowercase extension stands for.
pub fn category_of_ext(ext: &str) -> (r: Option<Category>)
    ensures
        r == ext_category(ext@),
{
    if is_one_of(ext, &jpeg_list()) {
        Some(Category::Jpeg)
    } else if is_one_of(ext, &raw_list()) {
        Some(Category::Raw)
    } else if is_one_of(ext, &video_list()) {
        Some(Category::Video)
    } else {
        None
    }
}

/// The kind of media that a file name stands for: its extension decides, whatever its
/// letters' case.
pub fn category_of(name: &str) -> (r: Option<Category>)
    ensures
        r == name_category(name@),
{
    let ext: String = lower_ext_of(name);
    category_of_ext(ext.as_str())
}

/// The dot that opens the extension stands at the same place, whatever the case of the letters.
proof fn last_dot_ignores_case(f: Seq<char>, g: Seq<char>)
    requires
        ascii_lower(f) == ascii_lower(g),
    ensures
        f.len() == g.len(),
        forall|i: int| 0 <= i < f.len() ==> (#[trigger] f[i] == '.' <==> g[i] == '.'),
        last_index(f, '.') == last_index(g, '.'),
    decreases f.len(),
{
    assert(ascii_lower(f).len() == f.len() && ascii_lower(g).len() == g.len());
    assert forall|i: int| 0 <= i < f.len() implies (#[trigger] f[i] == '.' <==> g[i] == '.') by {
        assert(ascii_lower(f)[i] == ascii_lower_char(f[i]));
        assert(ascii_lower(g)[i] == ascii_lower_char(g[i]));
    }
    if f.len() > 0 {
        assert(f[f.len() - 1] == '.' <==> g[g.len() - 1] == '.');
        assert(ascii_lower(f.drop_last()) =~= ascii_lower(f).drop_last());
        assert(ascii_lower(g.drop_last()) =~= ascii_lower(g).drop_last());
        last_dot_ignores_case(f.drop_last(), g.drop_last());
    }
}

/// The lowercase extension of a file does not depend on the folder that it is in; nor, if the
/// extension is all ASCII, on the case of the ASCII letters of its name.
pub proof fn ext_lower_ignores_folder_and_case(dir: Seq<char>, f: Seq<char>, g: Seq<char>)
    requires
        !f.contains('/'),
        file_name(f) is Some,
        ascii_lower(f) == ascii_lower(g),
    ensures
        lowercase(path_ext(joined(dir, "/"@, f))) == lowercase(path_ext(f)),
        all_ascii(ext_text(f)) ==> lowercase(path_ext(f)) == lowercase(path_ext(g)),
{
    last_dot_ignores_case(f, g);
    assert(!g.contains('/')) by {
        assert forall|i: int| 0 <= i < g.len() implies g[i] != '/' by {
            assert(ascii_lower(f)[i] == ascii_lower_char(f[i]));
            assert(ascii_lower(g)[i] == ascii_lower_char(g[i]));
            assert(f.contains(f[i]));
        }
    }
    assert(file_name(g) is Some) by {
        if g =~= seq!['.'] {
            assert(f[0] == '.' <==> g[0] == '.');
            assert(f =~= seq!['.']);
        }
        if g =~= seq!['.', '.'] {
            assert(f[0] == '.' <==> g[0] == '.');
            assert(f[1] == '.' <==> g[1] == '.');
            assert(f =~= seq!['.', '.']);
        }
        if g.len() == 0 {
            assert(f =~= Seq::<char>::empty());
        }
    }
    last_part_of_joined(dir, f);
    last_part_of_joined(dir, g);
    last_index_is_last(f, '.');
    let a = ext_text(f);
    let b = ext_text(g);
    if file_extension(f) is Some && all_ascii(a) {
        let i = last_index(f, '.')->0;
        assert(a == f.skip(i + 1) && b == g.skip(i + 1));
        assert forall|k: int| 0 <= k < a.len() implies ascii_lower_char(a[k]) == ascii_lower_char(b[k]) by {
            assert(ascii_lower(f)[i + 1 + k] == ascii_lower_char(f[i + 1 + k]));
            assert(ascii_lower(g)[i + 1 + k] == ascii_lower_char(g[i + 1 + k]));
        }
        assert(ascii_lower(a) =~= ascii_lower(b));
        assert forall|k: int| 0 <= k < b.len() implies (#[trigger] b[k]) as int <= 127 by {
            assert(a[k] as int <= 127);
            assert(ascii_lower_char(a[k]) == ascii_lower_char(b[k]));
        }
    }
}

proof fn last_part_holds_no_slash(path: Seq<char>)
    ensures
        !last_part(path).contains('/'),
    decreases path.len(),
{
    last_index_is_last(path, '/');
    if let Some(i) = last_index(path, '/') {
        last_part_holds_no_slash(path.take(i));
    }
}

/// An extension stands for one kind of media at most.
pub proof fn ext_lists_are_disjoint(ext: Seq<char>)
    ensures
        !(jpeg_exts().contains(ext) && raw_exts().contains(ext)),
        !(jpeg_exts().contains(ext) && video_exts().contains(ext)),
        !(raw_exts().contains(ext) && video_exts().contains(ext)),
{
    reveal_strlit("jpg");
    reveal_strlit("jpeg");
    reveal_strlit("arw");
    reveal_strlit("cr2");
    reveal_strlit("cr3");
    reveal_strlit("nef");
    reveal_strlit("dng");
    reveal_strlit("raf");
    reveal_strlit("orf");
    reveal_strlit("rw2");
    reveal_strlit("srw");
    reveal_strlit("pef");
    reveal_strlit("x3f");
    reveal_strlit("mp4");
    reveal_strlit("mov");
    reveal_strlit("m4v");
    reveal_strlit("avi");
    reveal_strlit("mts");
    reveal_strlit("m2ts");
    reveal_strlit("mkv");
    reveal_strlit("3gp");
    reveal_strlit("wmv");
    reveal_strlit("webm");
    if jpeg_exts().contains(ext) {
        let i = choose|i: int| 0 <= i < jpeg_exts().len() && jpeg_exts()[i] == ext;
        assert("jpg"@[0] == 'j' && "jpg"@[1] == 'p');
        assert("jpeg"@[0] == 'j' && "jpeg"@[1] == 'p');
        assert((ext[0] == 'j' && ext[1] == 'p'));
    }
    if raw_exts().contains(ext) {
        let i = choose|i: int| 0 <= i < raw_exts().len() && raw_exts()[i] == ext;
        assert("arw"@[0] == 'a' && "arw"@[1] == 'r');
        assert("cr2"@[0] == 'c' && "cr2"@[1] == 'r');
        assert("cr3"@[0] == 'c' && "cr3"@[1] == 'r');
        assert("nef"@[0] == 'n' && "nef"@[1] == 'e');
        assert("dng"@[0] == 'd' && "dng"@[1] == 'n');
        assert("raf"@[0] == 'r' && "raf"@[1] == 'a');
        assert("orf"@[0] == 'o' && "orf"@[1] == 'r');
        assert("rw2"@[0] == 'r' && "rw2"@[1] == 'w');
        assert("srw"@[0] == 's' && "srw"@[1] == 'r');
        assert("pef"@[0] == 'p' && "pef"@[1] == 'e');
        assert("x3f"@[0] == 'x' && "x3f"@[1] == '3');
        assert((ext[0] == 'a' && ext[1] == 'r')
            || (ext[0] == 'c' && ext[1] == 'r')
            || (ext[0] == 'n' && ext[1] == 'e')
            || (ext[0] == 'd' && ext[1] == 'n')
            || (ext[0] == 'r' && ext[1] == 'a')
            || (ext[0] == 'o' && ext[1] == 'r')
            || (ext[0] == 'r' && ext[1] == 'w')
            || (ext[0] == 's' && ext[1] == 'r')
            || (ext[0] == 'p' && ext[1] == 'e')
            || (ext[0] == 'x' && ext[1] == '3'));
    }
    if video_exts().contains(ext) {
        let i = choose|i: int| 0 <= i < video_exts().len() && video_exts()[i] == ext;
        assert("mp4"@[0] == 'm' && "mp4"@[1] == 'p');
        assert("mov"@[0] == 'm' && "mov"@[1] == 'o');
        assert("m4v"@[0] == 'm' && "m4v"@[1] == '4');
        assert("avi"@[0] == 'a' && "avi"@[1] == 'v');
        assert("mts"@[0] == 'm' && "mts"@[1] == 't');
        assert("m2ts"@[0] == 'm' && "m2ts"@[1] == '2');
        assert("mkv"@[0] == 'm' && "mkv"@[1] == 'k');
        assert("3gp"@[0] == '3' && "3gp"@[1] == 'g');
        assert("wmv"@[0] == 'w' && "wmv"@[1] == 'm');
        assert("webm"@[0] == 'w' && "webm"@[1] == 'e');
        assert((ext[0] == 'm' && ext[1] == 'p')
            || (ext[0] == 'm' && ext[1] == 'o')
            || (ext[0] == 'm' && ext[1] == '4')
            || (ext[0] == 'a' && ext[1] == 'v')
            || (ext[0] == 'm' && ext[1] == 't')
            || (ext[0] == 'm' && ext[1] == '2')
            || (ext[0] == 'm' && ext[1] == 'k')
            || (ext[0] == '3' && ext[1] == 'g')
            || (ext[0] == 'w' && ext[1] == 'm')
            || (ext[0] == 'w' && ext[1] == 'e'));
    }
}

} // verus!
