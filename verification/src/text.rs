//! Text and file names.

use vstd::prelude::*;

verus! {

/// What `str::to_lowercase` makes of a text that is not all ASCII.
pub uninterp spec fn unicode_lowercase(s: Seq<char>) -> Seq<char>;

/// What `char::to_uppercase` makes of a character beyond ASCII: one character or several.
pub uninterp spec fn unicode_upper_char(c: char) -> Seq<char>;

/// Every character is one of ASCII.
pub open spec fn all_ascii(s: Seq<char>) -> bool {
    forall|i: int| 0 <= i < s.len() ==> (#[trigger] s[i]) as int <= 127
}

/// `'A'` to `'Z'` become `'a'` to `'z'`; every other character stays.
pub open spec fn ascii_lower_char(c: char) -> char {
    if 'A' as int <= c as int && c as int <= 'Z' as int {
        (c as int + 32) as char
    } else {
        c
    }
}

/// `'a'` to `'z'` become `'A'` to `'Z'`; every other character stays.
pub open spec fn ascii_upper_char(c: char) -> char {
    if 'a' as int <= c as int && c as int <= 'z' as int {
        (c as int - 32) as char
    } else {
        c
    }
}

/// [`ascii_lower_char`] of each character.
pub open spec fn ascii_lower(s: Seq<char>) -> Seq<char> {
    s.map_values(|c: char| ascii_lower_char(c))
}

/// [`ascii_upper_char`] of each character.
pub open spec fn ascii_upper(s: Seq<char>) -> Seq<char> {
    s.map_values(|c: char| ascii_upper_char(c))
}

/// A text in lower case.
pub open spec fn lowercase(s: Seq<char>) -> Seq<char> {
    if all_ascii(s) {
        ascii_lower(s)
    } else {
        unicode_lowercase(s)
    }
}

/// A character in upper case, which can be more than one character.
pub open spec fn upper_char(c: char) -> Seq<char> {
    if c as int <= 127 {
        seq![ascii_upper_char(c)]
    } else {
        unicode_upper_char(c)
    }
}

/// [`upper_char`] of each character, one behind the other.
pub open spec fn upper_chars(s: Seq<char>) -> Seq<char>
    decreases s.len(),
{
    if s.len() == 0 {
        Seq::empty()
    } else {
        upper_chars(s.drop_last()) + upper_char(s.last())
    }
}

/// A text in upper case.
pub open spec fn uppercase(s: Seq<char>) -> Seq<char> {
    if all_ascii(s) {
        ascii_upper(s)
    } else {
        upper_chars(s)
    }
}

/// A capital letter of ASCII.
pub open spec fn is_ascii_capital(c: char) -> bool {
    'A' as int <= c as int <= 'Z' as int
}

/// A character of ASCII that is no letter.
pub open spec fn is_ascii_sign(c: char) -> bool {
    &&& c as int <= 127
    &&& !is_ascii_capital(c)
    &&& !('a' as int <= c as int <= 'z' as int)
}

/// `str::to_lowercase`: the lowercase equivalent of a text. ASCII text is mapped letter by
/// letter; any other text after the tables of Unicode, so that the result depends on the text
/// alone. A text in lower case holds no capital letter of ASCII; and since only letters are mapped,
/// and to letters and their marks, it holds no other character of ASCII but those that the text
/// holds.
pub assume_specification[ str::to_lowercase ](s: &str) -> (r: String)
    ensures
        all_ascii(s@) ==> r@ == ascii_lower(s@),
        !all_ascii(s@) ==> r@ == unicode_lowercase(s@),
        forall|i: int| 0 <= i < r@.len() ==> !is_ascii_capital(#[trigger] r@[i]),
        forall|c: char| is_ascii_sign(c) && #[trigger] r@.contains(c) ==> s@.contains(c),
;

/// `str::to_uppercase`: the uppercase equivalent of a text, which is that of each of its
/// characters. Those of ASCII are mapped letter by letter; any other after the tables of Unicode,
/// so that the result depends on the character alone.
pub assume_specification[ str::to_uppercase ](s: &str) -> (r: String)
    ensures
        all_ascii(s@) ==> r@ == ascii_upper(s@),
        !all_ascii(s@) ==> r@ == upper_chars(s@),
        s@.len() == 1 && !all_ascii(s@) ==> r@ == unicode_upper_char(s@[0]),
;

/// The text of an optional string.
pub open spec fn optional_text(s: Option<String>) -> Option<Seq<char>> {
    match s {
        Some(t) => Some(t@),
        None => None,
    }
}

/// The characters of a text.
pub fn chars_of(s: &str) -> (r: Vec<char>)
    ensures
        r@ == s@,
{
    let mut r: Vec<char> = Vec::new();
    for c in it: s.chars()
        invariant
            it.seq() == s@,
            r@ == s@.take(it.index()),
    {
        r.push(c);
        assert(s@.take(it.index() + 1) =~= s@.take(it.index()).push(c));
    }
    assert(s@.take(s@.len() as int) =~= s@);
    r
}

/// Whether two texts are the same.
pub fn same_text(a: &str, b: &str) -> (r: bool)
    ensures
        r == (a@ == b@),
{
    a.to_owned() == b.to_owned()
}

/// Two texts, one behind the other.
pub fn join_text(a: &str, b: &str) -> (r: String)
    ensures
        r@ == a@ + b@,
{
    let mut r: String = a.to_owned();
    r.append(b);
    r
}

/// Three texts, one behind the other.
pub fn join_text3(a: &str, b: &str, c: &str) -> (r: String)
    ensures
        r@ == a@ + b@ + c@,
{
    let mut r: String = join_text(a, b);
    r.append(c);
    r
}

/// The text ends in `suffix`.
pub open spec fn has_suffix(s: Seq<char>, suffix: Seq<char>) -> bool {
    suffix.len() <= s.len() && s.skip(s.len() - suffix.len()) == suffix
}

/// Whether a text ends in `suffix`.
pub fn ends_with(s: &str, suffix: &str) -> (r: bool)
    ensures
        r == has_suffix(s@, suffix@),
{
    let a: Vec<char> = chars_of(s);
    let b: Vec<char> = chars_of(suffix);
    if b.len() > a.len() {
        return false;
    }
    let off: usize = a.len() - b.len();
    let mut i: usize = 0;
    while i < b.len()
        invariant
            a@ == s@,
            b@ == suffix@,
            off + b.len() == a.len(),
            i <= b.len(),
            forall|j: int| 0 <= j < i ==> a@[off + j] == b@[j],
        decreases b.len() - i,
    {
        if a[off + i] != b[i] {
            assert(s@.skip(s@.len() - suffix@.len())[i as int] == a@[off + i]);
            return false;
        }
        i = i + 1;
    }
    assert(s@.skip(s@.len() - suffix@.len()) =~= suffix@);
    true
}

/// Where a character stands for the last time in a text.
pub open spec fn last_index(s: Seq<char>, c: char) -> Option<int>
    decreases s.len(),
{
    if s.len() == 0 {
        None
    } else if s.last() == c {
        Some(s.len() - 1)
    } else {
        last_index(s.drop_last(), c)
    }
}

/// What [`last_index`] says: the character stands there and not behind it.
pub proof fn last_index_is_last(s: Seq<char>, c: char)
    ensures
        match last_index(s, c) {
            Some(i) => 0 <= i < s.len() && s[i] == c && !s.skip(i + 1).contains(c),
            None => !s.contains(c),
        },
    decreases s.len(),
{
    if s.len() > 0 {
        if s.last() == c {
            assert(s.skip(s.len() as int) =~= Seq::<char>::empty());
        } else {
            let t = s.drop_last();
            last_index_is_last(t, c);
            match last_index(t, c) {
                Some(i) => {
                    let rest = s.skip(i + 1);
                    let part = t.skip(i + 1);
                    assert forall|j: int| 0 <= j < rest.len() implies rest[j] != c by {
                        if j < part.len() {
                            assert(part[j] == rest[j]);
                            assert(part.contains(part[j]));
                        }
                    }
                },
                None => {
                    assert forall|j: int| 0 <= j < s.len() implies s[j] != c by {
                        if j < t.len() {
                            assert(t[j] == s[j]);
                            assert(t.contains(t[j]));
                        }
                    }
                },
            }
        }
    }
}

/// Where a character parts two texts and does not stand in the second, it stands there for the last
/// time.
pub proof fn last_index_of_join(a: Seq<char>, c: char, b: Seq<char>)
    requires
        !b.contains(c),
    ensures
        last_index(a + seq![c] + b, c) == Some(a.len() as int),
    decreases b.len(),
{
    let s = a + seq![c] + b;
    if b.len() == 0 {
        assert(s.last() == c);
    } else {
        assert(s.last() == b.last());
        assert(b.contains(b.last()));
        let t = b.drop_last();
        assert(s.drop_last() =~= a + seq![c] + t);
        assert(!t.contains(c)) by {
            if t.contains(c) {
                let j = choose|j: int| 0 <= j < t.len() && t[j] == c;
                assert(b[j] == c);
            }
        }
        last_index_of_join(a, c, t);
    }
}

/// Two texts, one behind the other, in upper case.
proof fn upper_chars_of_join(a: Seq<char>, b: Seq<char>)
    ensures
        upper_chars(a + b) == upper_chars(a) + upper_chars(b),
    decreases b.len(),
{
    if b.len() == 0 {
        assert(a + b =~= a);
        assert(upper_chars(a) + upper_chars(b) =~= upper_chars(a));
    } else {
        assert((a + b).drop_last() =~= a + b.drop_last());
        assert((a + b).last() == b.last());
        upper_chars_of_join(a, b.drop_last());
        assert(upper_chars(a + b) =~= upper_chars(a) + upper_chars(b));
    }
}

/// ASCII text in upper case is mapped letter by letter.
proof fn upper_chars_of_ascii(s: Seq<char>)
    requires
        all_ascii(s),
    ensures
        upper_chars(s) == ascii_upper(s),
    decreases s.len(),
{
    if s.len() > 0 {
        assert(s[s.len() - 1] as int <= 127);
        assert(all_ascii(s.drop_last())) by {
            assert forall|i: int| 0 <= i < s.len() - 1 implies (#[trigger] s.drop_last()[i]) as int <= 127 by {
                assert(s[i] as int <= 127);
            }
        }
        upper_chars_of_ascii(s.drop_last());
        assert(upper_chars(s) =~= ascii_upper(s));
    } else {
        assert(upper_chars(s) =~= ascii_upper(s));
    }
}

/// ASCII text at the end of another keeps its place in upper case, and is mapped letter by letter.
pub proof fn ascii_end_in_uppercase(a: Seq<char>, b: Seq<char>)
    requires
        all_ascii(b),
    ensures
        uppercase(a + b) == upper_chars(a) + ascii_upper(b),
{
    upper_chars_of_join(a, b);
    upper_chars_of_ascii(b);
    if all_ascii(a + b) {
        upper_chars_of_ascii(a + b);
    }
}

/// Where the last dot of a text is known, a text that opens with its only dot ends the first exactly
/// where it is all that stands from that dot on.
pub proof fn suffix_from_last_dot(a: Seq<char>, b: Seq<char>, x: Seq<char>)
    requires
        !b.contains('.'),
        !x.contains('.'),
    ensures
        has_suffix(a + seq!['.'] + b, seq!['.'] + x) <==> b == x,
{
    let s = a + seq!['.'] + b;
    let t = seq!['.'] + x;
    last_index_of_join(a, '.', b);
    if has_suffix(s, t) {
        let k = s.len() - t.len();
        assert(s =~= s.take(k) + s.skip(k));
        assert(s =~= s.take(k) + seq!['.'] + x);
        last_index_of_join(s.take(k), '.', x);
        assert(b =~= s.skip(a.len() as int + 1));
        assert(x =~= s.skip(k + 1));
    }
    if b == x {
        assert(s.skip(s.len() - t.len()) =~= t);
    }
}

/// Where a character stands for the last time among the first `n`.
fn find_last(s: &Vec<char>, n: usize, c: char) -> (r: Option<usize>)
    requires
        n <= s.len(),
    ensures
        match r {
            Some(i) => i < n && last_index(s@.take(n as int), c) == Some(i as int),
            None => last_index(s@.take(n as int), c) is None,
        },
{
    let mut i: usize = n;
    while i > 0
        invariant
            i <= n <= s.len(),
            last_index(s@.take(n as int), c) == last_index(s@.take(i as int), c),
        decreases i,
    {
        i = i - 1;
        assert(s@.take(i + 1).drop_last() =~= s@.take(i as int));
        if s[i] == c {
            return Some(i);
        }
    }
    None
}

/// What stands last in a path: the part behind its last `/`. A part that is empty or a single dot
/// counts for nothing, unless it is the first.
pub open spec fn last_part(path: Seq<char>) -> Seq<char>
    decreases path.len(),
{
    proof {
        last_index_is_last(path, '/');
    }
    match last_index(path, '/') {
        Some(i) => {
            let part = path.skip(i + 1);
            if part.len() == 0 || part == seq!['.'] {
                last_part(path.take(i))
            } else {
                part
            }
        },
        None => path,
    }
}

/// Whether the part of a path from `i` to `n` is empty or a single dot.
fn is_void(chars: &Vec<char>, i: usize, n: usize) -> (r: bool)
    requires
        i <= n <= chars.len(),
    ensures
        ({
            let part = chars@.subrange(i as int, n as int);
            r <==> part.len() == 0 || part == seq!['.']
        }),
{
    proof {
        let part = chars@.subrange(i as int, n as int);
        assert(seq!['.'].len() == 1 && seq!['.'][0] == '.');
        if i + 1 == n {
            assert(part[0] == chars@[i as int]);
            if chars@[i as int] == '.' {
                assert(part =~= seq!['.']);
            }
        }
    }
    i == n || (i + 1 == n && chars[i] == '.')
}

/// What stands last in a path.
pub fn last_part_of<'a>(path: &'a str) -> (r: &'a str)
    ensures
        r@ == last_part(path@),
{
    let chars: Vec<char> = chars_of(path);
    let mut n: usize = chars.len();
    assert(chars@.take(n as int) =~= path@);
    loop
        invariant
            chars@ == path@,
            n <= chars.len(),
            last_part(path@) == last_part(chars@.take(n as int)),
        decreases n,
    {
        let ghost head = chars@.take(n as int);
        match find_last(&chars, n, '/') {
            Some(i) => {
                assert(head.take(i as int) =~= chars@.take(i as int));
                assert(head.skip(i + 1) =~= chars@.subrange(i + 1, n as int));
                if is_void(&chars, i + 1, n) {
                    n = i;
                } else {
                    assert(head.skip(i + 1) =~= path@.subrange(i + 1, n as int));
                    return path.substring_char(i + 1, n);
                }
            },
            None => {
                assert(head =~= path@.subrange(0, n as int));
                return path.substring_char(0, n);
            },
        }
    }
}

/// A folder's path and a name in it, as one path. `sep` is what the components of a path are parted
/// by.
pub open spec fn joined(dir: Seq<char>, sep: Seq<char>, name: Seq<char>) -> Seq<char> {
    if dir.len() == 0 || has_suffix(dir, sep) || has_suffix(dir, "/"@) {
        dir + name
    } else {
        dir + sep + name
    }
}

/// A folder's path and a name in it, as one path.
pub fn join_path(dir: &str, sep: &str, name: &str) -> (r: String)
    ensures
        r@ == joined(dir@, sep@, name@),
{
    if dir.is_empty() || ends_with(dir, sep) || ends_with(dir, "/") {
        join_text(dir, name)
    } else {
        join_text3(dir, sep, name)
    }
}

/// What stands last in a path that a name was joined to is the name.
pub proof fn last_part_of_joined(dir: Seq<char>, name: Seq<char>)
    requires
        !name.contains('/'),
        file_name(name) is Some,
    ensures
        last_part(joined(dir, "/"@, name)) == name,
        last_part(name) == name,
{
    reveal_strlit("/");
    assert("/"@ =~= seq!['/']);
    last_index_is_last(name, '/');
    if dir.len() > 0 {
        let p = joined(dir, "/"@, name);
        let d = if has_suffix(dir, "/"@) {
            dir.drop_last()
        } else {
            dir
        };
        if has_suffix(dir, "/"@) {
            assert(dir.skip(dir.len() - 1)[0] == '/');
            assert(dir =~= d + seq!['/']);
        }
        assert(p =~= d + seq!['/'] + name);
        last_index_of_join(d, '/', name);
        assert(p.skip(d.len() as int + 1) =~= name);
        if name.len() == 0 {
            assert(name =~= Seq::<char>::empty());
        }
    } else {
        assert(dir + name =~= name);
    }
}

/// A path without the parts at its end that are empty or a single dot.
pub open spec fn trimmed(path: Seq<char>) -> Seq<char>
    decreases path.len(),
{
    proof {
        last_index_is_last(path, '/');
    }
    match last_index(path, '/') {
        Some(i) => {
            let part = path.skip(i + 1);
            if part.len() == 0 || part == seq!['.'] {
                if i == 0 {
                    path.take(1)
                } else {
                    trimmed(path.take(i))
                }
            } else {
                path
            }
        },
        None => path,
    }
}

/// The folder above a path, as `std::path::Path::parent` defines it where `/` parts the components:
/// the path without its [`last_part`]. There is none above the root and above the empty path.
pub open spec fn parent(path: Seq<char>) -> Option<Seq<char>>
    decreases path.len(),
{
    proof {
        last_index_is_last(path, '/');
    }
    match last_index(path, '/') {
        Some(i) => {
            let part = path.skip(i + 1);
            if part.len() == 0 || part == seq!['.'] {
                if i == 0 {
                    None
                } else {
                    parent(path.take(i))
                }
            } else if i == 0 {
                Some(path.take(1))
            } else {
                Some(trimmed(path.take(i)))
            }
        },
        None => if path.len() == 0 {
            None
        } else {
            Some(Seq::empty())
        },
    }
}

/// How long the path of the first `len` characters is without the parts at its end that are empty or a
/// single dot.
fn trimmed_len(chars: &Vec<char>, len: usize) -> (r: usize)
    requires
        len <= chars.len(),
    ensures
        r <= len,
        chars@.take(r as int) == trimmed(chars@.take(len as int)),
{
    let mut n: usize = len;
    loop
        invariant
            n <= len <= chars.len(),
            trimmed(chars@.take(len as int)) == trimmed(chars@.take(n as int)),
        decreases n,
    {
        let ghost head = chars@.take(n as int);
        match find_last(chars, n, '/') {
            Some(i) => {
                assert(head.skip(i + 1) =~= chars@.subrange(i + 1, n as int));
                assert(head.take(i as int) =~= chars@.take(i as int));
                assert(head.take(1) =~= chars@.take(1));
                if !is_void(chars, i + 1, n) {
                    return n;
                } else if i == 0 {
                    return 1;
                }
                n = i;
            },
            None => {
                return n;
            },
        }
    }
}

/// The folder above a path.
pub fn parent_of<'a>(path: &'a str) -> (r: Option<&'a str>)
    ensures
        r is Some <==> parent(path@) is Some,
        r matches Some(p) ==> parent(path@) == Some(p@),
{
    let chars: Vec<char> = chars_of(path);
    let mut n: usize = chars.len();
    assert(chars@.take(n as int) =~= path@);
    loop
        invariant
            chars@ == path@,
            n <= chars.len(),
            parent(path@) == parent(chars@.take(n as int)),
        decreases n,
    {
        let ghost head = chars@.take(n as int);
        match find_last(&chars, n, '/') {
            Some(i) => {
                assert(head.skip(i + 1) =~= chars@.subrange(i + 1, n as int));
                assert(head.take(i as int) =~= chars@.take(i as int));
                assert(head.take(1) =~= path@.subrange(0, 1));
                if is_void(&chars, i + 1, n) {
                    if i == 0 {
                        return None;
                    }
                    n = i;
                } else if i == 0 {
                    return Some(path.substring_char(0, 1));
                } else {
                    let m: usize = trimmed_len(&chars, i);
                    assert(chars@.take(m as int) =~= path@.subrange(0, m as int));
                    return Some(path.substring_char(0, m));
                }
            },
            None => {
                if n == 0 {
                    return None;
                }
                assert(path@.subrange(0, 0) =~= Seq::<char>::empty());
                return Some(path.substring_char(0, 0));
            },
        }
    }
}

/// The folder above what a name in a folder leads to is that folder.
pub proof fn parent_of_joined(dir: Seq<char>, name: Seq<char>)
    requires
        !name.contains('/'),
        file_name(name) is Some,
        trimmed(dir) == dir,
    ensures
        parent(joined(dir, "/"@, name)) == Some(dir),
{
    reveal_strlit("/");
    assert("/"@ =~= seq!['/']);
    last_index_is_last(name, '/');
    if name.len() == 0 {
        assert(name =~= Seq::<char>::empty());
    }
    let p = joined(dir, "/"@, name);
    if dir.len() == 0 {
        assert(p =~= name);
        assert(dir =~= Seq::<char>::empty());
    } else if has_suffix(dir, "/"@) {
        let d = dir.drop_last();
        assert(dir.skip(dir.len() - 1)[0] == '/');
        assert(dir =~= d + seq!['/'] + Seq::<char>::empty());
        last_index_of_join(d, '/', Seq::<char>::empty());
        assert(dir.skip(d.len() as int + 1).len() == 0);
        trimmed_is_no_longer(d);
        assert(dir.take(d.len() as int) =~= d);
        assert(d.len() == 0);
        assert(p =~= d + seq!['/'] + name);
        last_index_of_join(d, '/', name);
        assert(p.skip(1) =~= name);
        assert(p.take(1) =~= dir);
    } else {
        assert(p =~= dir + seq!['/'] + name);
        last_index_of_join(dir, '/', name);
        assert(p.skip(dir.len() as int + 1) =~= name);
        assert(p.take(dir.len() as int) =~= dir);
    }
}

proof fn trimmed_is_no_longer(path: Seq<char>)
    ensures
        trimmed(path).len() <= path.len(),
    decreases path.len(),
{
    last_index_is_last(path, '/');
    if let Some(i) = last_index(path, '/') {
        trimmed_is_no_longer(path.take(i));
    }
}

/// The last component of a path that holds no separator: the name itself, but
/// nothing for the empty path and for the two names that mean a folder's self and its parent.
pub open spec fn file_name(name: Seq<char>) -> Option<Seq<char>> {
    if name == Seq::<char>::empty() || name == seq!['.'] || name == seq!['.', '.'] {
        None
    } else {
        Some(name)
    }
}

/// Where the last dot of a file name parts its stem from its extension: a dot that
/// opens the name parts nothing.
pub open spec fn extension_dot(name: Seq<char>) -> Option<int> {
    match last_index(name, '.') {
        Some(i) => if i > 0 {
            Some(i)
        } else {
            None
        },
        None => None,
    }
}

/// The extension of a file name, as `std::path::Path::extension` defines it: what
/// stands behind the last dot, if a dot stands behind the first character.
pub open spec fn file_extension(name: Seq<char>) -> Option<Seq<char>> {
    match (file_name(name), extension_dot(name)) {
        (Some(f), Some(i)) => Some(f.skip(i + 1)),
        _ => None,
    }
}

/// The stem of a file name, as `std::path::Path::file_stem` defines it: what stands
/// before the last dot, or the whole name where it has no extension.
pub open spec fn file_stem(name: Seq<char>) -> Option<Seq<char>> {
    match (file_name(name), extension_dot(name)) {
        (Some(f), Some(i)) => Some(f.take(i)),
        (Some(f), None) => Some(f),
        (None, _) => None,
    }
}

/// Where a file name is parted into stem and extension, and whether it names a file
/// at all.
fn split_name(name: &str) -> (r: (bool, Option<usize>))
    ensures
        r.0 == (file_name(name@) is Some),
        r.1 is Some ==> r.1->0 < name@.len(),
        match r.1 {
            Some(i) => extension_dot(name@) == Some(i as int),
            None => extension_dot(name@) is None,
        },
{
    let chars: Vec<char> = chars_of(name);
    let n: usize = chars.len();
    let named: bool = !(n == 0 || (n == 1 && chars[0] == '.') || (n == 2 && chars[0] == '.'
        && chars[1] == '.'));
    proof {
        if n == 1 && chars@[0] == '.' {
            assert(name@ =~= seq!['.']);
        }
        if n == 2 && chars@[0] == '.' && chars@[1] == '.' {
            assert(name@ =~= seq!['.', '.']);
        }
        if n == 0 {
            assert(name@ =~= Seq::<char>::empty());
        }
        last_index_is_last(name@, '.');
    }
    assert(chars@.take(n as int) =~= name@);
    let dot: Option<usize> = match find_last(&chars, n, '.') {
        Some(i) => if i > 0 {
            Some(i)
        } else {
            None
        },
        None => None,
    };
    (named, dot)
}

/// The extension of a file name, without its dot.
pub fn extension_of<'a>(name: &'a str) -> (r: Option<&'a str>)
    ensures
        r is Some <==> file_extension(name@) is Some,
        r matches Some(e) ==> file_extension(name@) == Some(e@),
{
    let (named, dot): (bool, Option<usize>) = split_name(name);
    match dot {
        Some(i) => if named {
            let n: usize = name.unicode_len();
            Some(name.substring_char(i + 1, n))
        } else {
            None
        },
        None => None,
    }
}

/// The stem of a file name.
pub fn stem_of<'a>(name: &'a str) -> (r: Option<&'a str>)
    ensures
        r is Some <==> file_stem(name@) is Some,
        r matches Some(e) ==> file_stem(name@) == Some(e@),
{
    let (named, dot): (bool, Option<usize>) = split_name(name);
    if !named {
        None
    } else {
        match dot {
            Some(i) => Some(name.substring_char(0, i)),
            None => Some(name),
        }
    }
}

/// A name that no path can leave its folder with: neither separator stands in it,
/// nor two dots in a row.
pub open spec fn is_safe_name(name: Seq<char>) -> bool {
    &&& has_no_separator(name)
    &&& forall|i: int| 0 <= i && i + 1 < name.len() ==> !(#[trigger] name[i] == '.' && name[i + 1] == '.')
}

/// Neither of the characters that part the components of a path stands in the text.
pub open spec fn has_no_separator(s: Seq<char>) -> bool {
    !s.contains('/') && !s.contains('\\')
}

/// The name itself where it is safe, else nothing.
pub fn safe_name<'a>(name: &'a str) -> (r: Option<&'a str>)
    ensures
        r is Some <==> is_safe_name(name@),
        r matches Some(n) ==> n@ == name@,
{
    let chars: Vec<char> = chars_of(name);
    let mut i: usize = 0;
    while i < chars.len()
        invariant
            chars@ == name@,
            i <= chars.len(),
            forall|j: int| 0 <= j < i ==> chars@[j] != '/' && chars@[j] != '\\',
            forall|j: int|
                0 <= j < i && j + 1 < chars@.len() ==> !(#[trigger] chars@[j] == '.' && chars@[j + 1]
                    == '.'),
        decreases chars.len() - i,
    {
        if chars[i] == '/' || chars[i] == '\\' {
            return None;
        }
        if chars[i] == '.' && i + 1 < chars.len() && chars[i + 1] == '.' {
            return None;
        }
        i = i + 1;
    }
    Some(name)
}

/// A name that is one component of a path: joined to a folder it is directly in that folder.
pub open spec fn is_component(name: Seq<char>) -> bool {
    has_no_separator(name) && file_name(name) == Some(name)
}

/// A safe name is one component of a path, unless it is empty or a single dot: those two name
/// the folder itself.
pub proof fn safe_name_stays_in_its_folder(name: Seq<char>)
    requires
        is_safe_name(name),
    ensures
        is_component(name) || name.len() == 0 || name == seq!['.'],
{
    if name == seq!['.', '.'] {
        assert(name[0] == '.' && name[1] == '.');
    }
    if name.len() == 0 {
        assert(name =~= Seq::<char>::empty());
    }
}

/// A safe name with more text behind it, in which neither separator stands, is one
/// component of a path.
pub proof fn extended_name_stays_in_its_folder(name: Seq<char>, tail: Seq<char>)
    requires
        has_no_separator(name),
        has_no_separator(tail),
        tail.len() > 2,
    ensures
        is_component(name + tail),
{
    let n = name + tail;
    assert forall|i: int| 0 <= i < n.len() implies n[i] != '/' && n[i] != '\\' by {
        if i < name.len() {
            assert(name.contains(name[i]));
        } else {
            assert(tail.contains(tail[i - name.len()]));
        }
    }
    assert(n.len() > seq!['.', '.'].len());
    assert(n.len() > seq!['.'].len());
}

/// A file name is its stem, a dot and its extension, where it has an extension.
pub proof fn name_is_stem_dot_extension(name: Seq<char>)
    ensures
        file_extension(name) matches Some(e) ==> file_stem(name) matches Some(s) && name == s + seq!['.'] + e
            && s.len() > 0 && !e.contains('.'),
        file_extension(name) is None ==> file_stem(name) == file_name(name),
{
    last_index_is_last(name, '.');
    if let Some(e) = file_extension(name) {
        let i = extension_dot(name)->0;
        assert(name =~= name.take(i) + seq!['.'] + name.skip(i + 1));
    }
}

} // verus!
