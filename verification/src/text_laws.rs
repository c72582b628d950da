//! What is meant by the parts of names and paths, for all texts.
//!
//! A name is taken as it is put together, from a stem, a dot and an extension, or a path from a folder
//! and what is in it; and it is said what comes of it.

use vstd::prelude::*;

use crate::text::{
    all_ascii, file_extension, file_name, file_stem, has_suffix, is_component, is_safe_name,
    joined, last_index_is_last, last_index_of_join, last_part, lowercase, parent,
    trimmed, uppercase,
};

verus! {

/// The texts are the same, but that the first may have capital letters of ASCII where the second has
/// small ones.
pub open spec fn same_but_capitals(a: Seq<char>, b: Seq<char>) -> bool {
    &&& a.len() == b.len()
    &&& forall|i: int|
        0 <= i < a.len() ==> (#[trigger] a[i]) == b[i] || ('a' as int <= b[i] as int <= 'z' as int && a[i] as int
            + 32 == b[i] as int)
}

/// ASCII text in lower case has small letters for capitals, and all else at its place.
pub proof fn lowercase_by_place(s: Seq<char>, i: int)
    requires
        forall|k: int| 0 <= k < s.len() ==> (#[trigger] s[k]) as int <= 127,
        0 <= i < s.len(),
    ensures
        lowercase(s).len() == s.len(),
        'A' as int <= s[i] as int <= 'Z' as int ==> lowercase(s)[i] as int == s[i] as int + 32,
        !('A' as int <= s[i] as int <= 'Z' as int) ==> lowercase(s)[i] == s[i],
{
    assert(all_ascii(s));
}

/// ASCII text in upper case has capitals for small letters, and all else at its place.
pub proof fn uppercase_by_place(s: Seq<char>, i: int)
    requires
        forall|k: int| 0 <= k < s.len() ==> (#[trigger] s[k]) as int <= 127,
        0 <= i < s.len(),
    ensures
        uppercase(s).len() == s.len(),
        'a' as int <= s[i] as int <= 'z' as int ==> uppercase(s)[i] as int == s[i] as int - 32,
        !('a' as int <= s[i] as int <= 'z' as int) ==> uppercase(s)[i] == s[i],
{
    assert(all_ascii(s));
}

/// Text that is all small ASCII letters and digits is what any writing of it with capitals is in
/// lower case.
pub proof fn lowercase_of_capitals(a: Seq<char>, b: Seq<char>)
    requires
        same_but_capitals(a, b),
        forall|k: int|
            0 <= k < b.len() ==> 'a' as int <= (#[trigger] b[k]) as int <= 'z' as int || '0' as int <= b[k] as int
                <= '9' as int,
    ensures
        lowercase(a) == b,
{
    assert forall|k: int| 0 <= k < a.len() implies (#[trigger] a[k]) as int <= 127 by {
        assert(a[k] == b[k] || a[k] as int + 32 == b[k] as int);
        assert(b[k] as int <= 'z' as int);
    }
    assert forall|k: int| 0 <= k < a.len() implies lowercase(a)[k] == b[k] by {
        lowercase_by_place(a, k);
        assert(a[k] == b[k] || a[k] as int + 32 == b[k] as int);
    }
    if a.len() > 0 {
        lowercase_by_place(a, 0);
    }
    assert(lowercase(a) =~= b);
}

/// A text ends in another exactly where it is some text with the other behind it.
pub proof fn suffix_is_the_end(a: Seq<char>, b: Seq<char>, s: Seq<char>)
    ensures
        has_suffix(a + b, b),
        has_suffix(s, b) ==> s == s.take(s.len() - b.len()) + b,
{
    assert((a + b).skip((a + b).len() - b.len()) =~= b);
    if has_suffix(s, b) {
        assert(s =~= s.take(s.len() - b.len()) + s.skip(s.len() - b.len()));
    }
}

/// A name of a stem, a dot and an extension without dots has that stem and that extension: unless the
/// stem is empty, or the name is that of the folder above.
pub proof fn name_of_stem_and_extension(stem: Seq<char>, ext: Seq<char>)
    requires
        stem.len() > 0,
        !ext.contains('.'),
        !(stem == seq!['.'] && ext.len() == 0),
    ensures
        file_extension(stem + seq!['.'] + ext) == Some(ext),
        file_stem(stem + seq!['.'] + ext) == Some(stem),
{
    let n = stem + seq!['.'] + ext;
    last_index_of_join(stem, '.', ext);
    if n == seq!['.', '.'] {
        assert(n[0] == '.');
        assert(stem =~= seq!['.']);
    }
    assert(n.len() >= 2);
    assert(seq!['.'].len() == 1);
    assert(n.skip(stem.len() as int + 1) =~= ext);
    assert(n.take(stem.len() as int) =~= stem);
}

/// A name without a dot, or whose only dot opens it, has no extension and is its own stem.
pub proof fn name_without_extension(name: Seq<char>, rest: Seq<char>)
    requires
        !rest.contains('.'),
        rest.len() > 0,
        name == rest || name == seq!['.'] + rest,
    ensures
        file_extension(name) is None,
        file_stem(name) == Some(name),
{
    last_index_is_last(name, '.');
    assert(rest[0] != '.') by {
        assert(rest.contains(rest[0]));
    }
    if name == rest {
        assert(seq!['.'][0] == '.' && seq!['.', '.'][0] == '.');
    } else {
        last_index_of_join(Seq::empty(), '.', rest);
        assert(Seq::<char>::empty() + seq!['.'] + rest =~= name);
        assert(name[1] == rest[0]);
        assert(seq!['.', '.'][1] == '.');
        assert(seq!['.'].len() == 1);
    }
}

/// The empty name and the names of a folder's self and of the one above have neither a stem nor an
/// extension.
pub proof fn names_of_no_file(name: Seq<char>)
    requires
        name.len() == 0 || name == seq!['.'] || name == seq!['.', '.'],
    ensures
        file_extension(name) is None,
        file_stem(name) is None,
        file_name(name) is None,
{
    if name.len() == 0 {
        assert(name =~= Seq::<char>::empty());
    }
}

/// All other names are names of files.
pub proof fn names_of_files(name: Seq<char>)
    requires
        name.len() > 0,
        name != seq!['.'],
        name != seq!['.', '.'],
    ensures
        file_name(name) == Some(name),
        file_stem(name) is Some,
        !name.contains('/') && !name.contains('\\') ==> is_component(name),
{
}

/// What stands last in a path is what was put behind its last `/`, but for parts that are empty or a
/// single dot.
pub proof fn last_part_of_parts(head: Seq<char>, part: Seq<char>)
    requires
        !part.contains('/'),
    ensures
        last_part(part) == part,
        part.len() > 0 && part != seq!['.'] ==> last_part(head + seq!['/'] + part) == part,
        last_part(head + seq!['/']) == last_part(head),
        last_part(head + seq!['/', '.']) == last_part(head),
{
    last_index_is_last(part, '/');
    last_index_of_join(head, '/', part);
    let p = head + seq!['/'] + part;
    assert(p.skip(head.len() as int + 1) =~= part);
    let none = Seq::<char>::empty();
    last_index_of_join(head, '/', none);
    assert(head + seq!['/'] + none =~= head + seq!['/']);
    assert((head + seq!['/']).take(head.len() as int) =~= head);
    let dot = seq!['.'];
    assert(!dot.contains('/'));
    last_index_of_join(head, '/', dot);
    assert(head + seq!['/'] + dot =~= head + seq!['/', '.']);
    assert((head + seq!['/', '.']).take(head.len() as int) =~= head);
    assert((head + seq!['/', '.']).skip(head.len() as int + 1) =~= dot);
}

/// A path loses the parts at its end that are empty or a single dot, but not the root.
pub proof fn trimmed_of_parts(head: Seq<char>, part: Seq<char>)
    requires
        !part.contains('/'),
    ensures
        trimmed(part) == part,
        part.len() > 0 && part != seq!['.'] ==> trimmed(head + seq!['/'] + part) == head + seq!['/'] + part,
        head.len() > 0 ==> trimmed(head + seq!['/']) == trimmed(head),
        head.len() > 0 ==> trimmed(head + seq!['/', '.']) == trimmed(head),
        trimmed(seq!['/']) == seq!['/'],
        trimmed(seq!['/', '.']) == seq!['/'],
{
    last_index_is_last(part, '/');
    last_index_of_join(head, '/', part);
    assert((head + seq!['/'] + part).skip(head.len() as int + 1) =~= part);
    let none = Seq::<char>::empty();
    last_index_of_join(head, '/', none);
    assert(head + seq!['/'] + none =~= head + seq!['/']);
    assert((head + seq!['/']).take(head.len() as int) =~= head);
    let dot = seq!['.'];
    assert(!dot.contains('/'));
    last_index_of_join(head, '/', dot);
    assert(head + seq!['/'] + dot =~= head + seq!['/', '.']);
    assert((head + seq!['/', '.']).take(head.len() as int) =~= head);
    assert((head + seq!['/', '.']).skip(head.len() as int + 1) =~= dot);
    last_index_of_join(none, '/', none);
    assert(none + seq!['/'] + none =~= seq!['/']);
    assert(seq!['/'].take(1) =~= seq!['/']);
    last_index_of_join(none, '/', dot);
    assert(none + seq!['/'] + dot =~= seq!['/', '.']);
    assert(seq!['/', '.'].skip(1) =~= dot);
    assert(seq!['/', '.'].take(1) =~= seq!['/']);
}

/// The folder above a path is the path without its last part: the root above what is directly in it,
/// the empty path above a lone name, and none above the root or the empty path.
pub proof fn parent_of_parts(head: Seq<char>, part: Seq<char>)
    requires
        !part.contains('/'),
        part.len() > 0,
    ensures
        parent(part) == Some(Seq::<char>::empty()),
        part != seq!['.'] && head.len() > 0 ==> parent(head + seq!['/'] + part) == Some(trimmed(head)),
        part != seq!['.'] ==> parent(seq!['/'] + part) == Some(seq!['/']),
        head.len() > 0 ==> parent(head + seq!['/']) == parent(head),
        head.len() > 0 ==> parent(head + seq!['/', '.']) == parent(head),
        parent(seq!['/']) is None,
        parent(seq!['/', '.']) is None,
        parent(Seq::<char>::empty()) is None,
{
    last_index_is_last(part, '/');
    last_index_of_join(head, '/', part);
    assert((head + seq!['/'] + part).skip(head.len() as int + 1) =~= part);
    assert((head + seq!['/'] + part).take(head.len() as int) =~= head);
    let none = Seq::<char>::empty();
    last_index_of_join(none, '/', part);
    assert(none + seq!['/'] + part =~= seq!['/'] + part);
    assert((seq!['/'] + part).skip(1) =~= part);
    assert((seq!['/'] + part).take(1) =~= seq!['/']);
    last_index_of_join(head, '/', none);
    assert(head + seq!['/'] + none =~= head + seq!['/']);
    assert((head + seq!['/']).take(head.len() as int) =~= head);
    let dot = seq!['.'];
    assert(!dot.contains('/'));
    last_index_of_join(head, '/', dot);
    assert(head + seq!['/'] + dot =~= head + seq!['/', '.']);
    assert((head + seq!['/', '.']).take(head.len() as int) =~= head);
    assert((head + seq!['/', '.']).skip(head.len() as int + 1) =~= dot);
    last_index_of_join(none, '/', none);
    assert(none + seq!['/'] + none =~= seq!['/']);
    last_index_of_join(none, '/', dot);
    assert(none + seq!['/'] + dot =~= seq!['/', '.']);
    assert(seq!['/', '.'].skip(1) =~= dot);
}

/// A name is joined to a folder's path with one separator between them: with none where the path is
/// empty or ends in one. `c` is the separator.
pub proof fn joined_with_one_separator(dir: Seq<char>, c: char, name: Seq<char>)
    ensures
        dir.len() == 0 ==> joined(dir, seq![c], name) == name,
        dir.len() > 0 && (dir[dir.len() - 1] == c || dir[dir.len() - 1] == '/') ==> joined(dir, seq![c], name)
            == dir + name,
        dir.len() > 0 && dir[dir.len() - 1] != c && dir[dir.len() - 1] != '/' ==> joined(dir, seq![c], name)
            == dir + seq![c] + name,
{
    reveal_strlit("/");
    assert("/"@ =~= seq!['/']);
    if dir.len() == 0 {
        assert(dir + name =~= name);
    } else {
        let last = dir.skip(dir.len() - 1);
        assert(last.len() == 1 && last[0] == dir[dir.len() - 1]);
        if last[0] == c {
            assert(last =~= seq![c]);
        } else {
            assert(seq![c][0] == c);
        }
        if last[0] == '/' {
            assert(last =~= seq!['/']);
        } else {
            assert(seq!['/'][0] == '/');
        }
    }
}

/// Whatever the separator is, it stands between a folder's path and a name, unless the path is empty
/// or ends in it or in `/`.
pub proof fn joined_with_any_separator(dir: Seq<char>, sep: Seq<char>, name: Seq<char>, head: Seq<char>)
    ensures
        joined(Seq::empty(), sep, name) == name,
        (head + sep).len() > 0 ==> joined(head + sep, sep, name) == head + sep + name,
        joined(head + seq!['/'], sep, name) == head + seq!['/'] + name,
        dir.len() > 0 && !has_suffix(dir, sep) && dir[dir.len() - 1] != '/' ==> joined(dir, sep, name) == dir + sep + name,
{
    reveal_strlit("/");
    assert("/"@ =~= seq!['/']);
    assert(Seq::<char>::empty() + name =~= name);
    suffix_is_the_end(head, sep, dir);
    suffix_is_the_end(head, seq!['/'], dir);
    if dir.len() > 0 {
        let last = dir.skip(dir.len() - 1);
        assert(last.len() == 1 && last[0] == dir[dir.len() - 1]);
        assert(seq!['/'][0] == '/');
    }
}

/// A name is not safe if a separator or two dots in a row stand anywhere in it, and is safe
/// otherwise.
pub proof fn safe_names_by_parts(a: Seq<char>, b: Seq<char>, name: Seq<char>)
    ensures
        !is_safe_name(a + seq!['/'] + b),
        !is_safe_name(a + seq!['\\'] + b),
        !is_safe_name(a + seq!['.', '.'] + b),
        (forall|i: int| 0 <= i < name.len() ==> (#[trigger] name[i]) != '/' && name[i] != '\\' && !(name[i] == '.'
            && i + 1 < name.len() && name[i + 1] == '.')) ==> is_safe_name(name),
{
    let k = a.len() as int;
    let s = a + seq!['/'] + b;
    assert(s[k] == '/');
    assert(s.contains(s[k]));
    let t = a + seq!['\\'] + b;
    assert(t[k] == '\\');
    assert(t.contains(t[k]));
    let u = a + seq!['.', '.'] + b;
    assert(u[k] == '.' && u[k + 1] == '.');
    if forall|i: int| 0 <= i < name.len() ==> (#[trigger] name[i]) != '/' && name[i] != '\\' && !(name[i] == '.'
        && i + 1 < name.len() && name[i + 1] == '.') {
        assert(!name.contains('/') && !name.contains('\\'));
        assert forall|i: int| 0 <= i && i + 1 < name.len() implies !(#[trigger] name[i] == '.' && name[i + 1]
            == '.') by {}
    }
}

} // verus!
