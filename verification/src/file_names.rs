//! File names: the last name of a path, its stem and its extension.
//!
//! What separates the names of a path depends on the platform. A slash does on every one; what a
//! backslash, a colon or two slashes in front mean is the platform's own.

use vstd::prelude::*;

use crate::text;

verus! {

/// The last piece that names something: empty pieces and `.` name nothing, and `..` has no name
/// of its own.
pub open spec fn last_name(pieces: Seq<Seq<char>>) -> Option<Seq<char>>
    decreases pieces.len(),
{
    if pieces.len() == 0 {
        None
    } else if pieces.last().len() == 0 || pieces.last() == seq!['.'] {
        last_name(pieces.drop_last())
    } else if pieces.last() == seq!['.', '.'] {
        None
    } else {
        Some(pieces.last())
    }
}

/// The last name of a path.
pub open spec fn name_in(path: Seq<char>) -> Option<Seq<char>> {
    last_name(text::split_on(path, '/'))
}

/// The position of the last `c` in `s`.
pub open spec fn last_at(s: Seq<char>, c: char) -> Option<int>
    decreases s.len(),
{
    if s.len() == 0 {
        None
    } else if s.last() == c {
        Some(s.len() - 1)
    } else {
        last_at(s.drop_last(), c)
    }
}

/// A name up to its last dot; a dot at the beginning does not count.
pub open spec fn stem_of(name: Seq<char>) -> Seq<char> {
    match last_at(name, '.') {
        Some(i) => if i > 0 {
            name.take(i)
        } else {
            name
        },
        None => name,
    }
}

/// What follows the last dot of a name; a dot at the beginning does not count.
pub open spec fn extension_of(name: Seq<char>) -> Option<Seq<char>> {
    match last_at(name, '.') {
        Some(i) => if i > 0 {
            Some(name.skip(i + 1))
        } else {
            None
        },
        None => None,
    }
}

/// The extension of a file's name, or nothing.
pub open spec fn extension_or_empty(name: Option<Seq<char>>) -> Seq<char> {
    match name {
        Some(n) => match extension_of(n) {
            Some(ext) => ext,
            None => Seq::empty(),
        },
        None => Seq::empty(),
    }
}

/// Whether a path means the same on every platform.
pub open spec fn is_portable(path: Seq<char>) -> bool {
    &&& !path.contains('\\')
    &&& !path.contains(':')
    &&& !seq!['/', '/'].is_prefix_of(path)
}

/// Whether `name` can be the last name of a path: the platform decides where it has a say.
pub open spec fn is_name_of(path: Seq<char>, name: Option<Seq<char>>) -> bool {
    &&& is_portable(path) ==> name == name_in(path)
    &&& name matches Some(n) ==> n.len() > 0
}

/// `std::path::Path::file_name`: the last name of a path, which is never empty. Repeated and
/// trailing separators and `.` do not count, and a path that ends in `..` has none. For a path
/// with a backslash, a colon or two slashes in front the platform decides, and nothing more is
/// said.
#[verifier::external_body]
pub(crate) fn file_name(path: &str) -> (r: Option<String>)
    ensures
        is_name_of(path@, text::opt_string(r)),
{
    match std::path::Path::new(path).file_name() {
        Some(name) => Some(name.to_string_lossy().into_owned()),
        None => None,
    }
}

/// The position of the last `c` in `chars`.
fn find_last(chars: &Vec<char>, c: char) -> (r: Option<usize>)
    ensures
        match r {
            Some(i) => i < chars@.len() && last_at(chars@, c) == Some(i as int),
            None => last_at(chars@, c) is None,
        },
{
    let mut n: usize = chars.len();
    assert(chars@.take(n as int) == chars@);
    while n > 0
        invariant
            n <= chars@.len(),
            last_at(chars@, c) == last_at(chars@.take(n as int), c),
        decreases n,
    {
        assert(chars@.take(n as int).last() == chars@[n - 1]);
        assert(chars@.take(n as int).drop_last() == chars@.take(n - 1));
        if chars[n - 1] == c {
            return Some(n - 1);
        }
        n = n - 1;
    }
    None
}

/// A name up to its last dot; a dot at the beginning does not count.
pub fn stem(name: &str) -> (r: String)
    ensures
        r@ == stem_of(name@),
{
    let chars = text::chars_of(name);
    match find_last(&chars, '.') {
        Some(i) => if i > 0 {
            assert(chars@.take(i as int) == chars@.subrange(0, i as int));
            text::string_between(&chars, 0, i)
        } else {
            name.to_owned()
        },
        None => name.to_owned(),
    }
}

/// What follows the last dot of a name, or nothing; a dot at the beginning does not count.
pub fn extension(name: &str) -> (r: String)
    ensures
        r@ == extension_or_empty(Some(name@)),
{
    let chars = text::chars_of(name);
    match find_last(&chars, '.') {
        Some(i) => if i > 0 {
            let n: usize = chars.len();
            assert(i < n);
            let r = text::string_between(&chars, i + 1, n);
            assert(r@ == chars@.skip(i + 1));
            r
        } else {
            String::new()
        },
        None => String::new(),
    }
}

// ---------------------------------------------------------------------------
// What holds of every name
// ---------------------------------------------------------------------------

/// The last position of a character is a position.
pub proof fn lemma_last_at(s: Seq<char>, c: char)
    ensures
        last_at(s, c) matches Some(i) ==> 0 <= i < s.len() && s[i] == c,
    decreases s.len(),
{
    if s.len() > 0 && s.last() != c {
        lemma_last_at(s.drop_last(), c);
    }
}

/// The last dot of a text that ends in a piece without dots stands before that piece.
pub proof fn lemma_last_dot(front: Seq<char>, ext: Seq<char>)
    requires
        !ext.contains('.'),
    ensures
        last_at(front + seq!['.'] + ext, '.') == Some(front.len() as int),
    decreases ext.len(),
{
    let s = front + seq!['.'] + ext;
    if ext.len() > 0 {
        let less = ext.drop_last();
        assert(ext[ext.len() - 1] != '.');
        assert(!less.contains('.')) by {
            if less.contains('.') {
                let i = choose|i: int| 0 <= i < less.len() && less[i] == '.';
                assert(ext[i] == '.');
            }
        }
        lemma_last_dot(front, less);
        assert(s.drop_last() == front + seq!['.'] + less);
        assert(s.last() == ext.last());
    } else {
        assert(s.last() == '.');
    }
}

/// The last name of pieces is one of them, and not empty.
pub proof fn lemma_last_name(pieces: Seq<Seq<char>>)
    ensures
        last_name(pieces) matches Some(name) ==> {
            &&& name.len() > 0
            &&& name != seq!['.']
            &&& exists|i: int| 0 <= i < pieces.len() && pieces[i] == name
        },
    decreases pieces.len(),
{
    if pieces.len() > 0 {
        let front = pieces.drop_last();
        lemma_last_name(front);
        if let Some(name) = last_name(pieces) {
            if pieces.last().len() == 0 || pieces.last() == seq!['.'] {
                let i = choose|i: int| 0 <= i < front.len() && front[i] == name;
                assert(pieces[i] == name);
            } else {
                assert(pieces[pieces.len() - 1] == name);
            }
        }
    }
}

/// The name of a path is what follows its last slash; a slash or a `.` at the end adds nothing,
/// and a `..` at the end leaves no name.
pub proof fn law_last_name_of_a_path(dir: Seq<char>, name: Seq<char>)
    requires
        name.len() > 0,
        !name.contains('/'),
        name != "."@,
        name != ".."@,
    ensures
        name_in(name) == Some(name),
        name_in(dir + "/"@ + name) == Some(name),
        name_in(dir + "/"@) == name_in(dir),
        name_in(dir + "/."@) == name_in(dir),
        name_in(dir + "/.."@) is None,
        name_in(Seq::empty()) is None,
        name_in("."@) is None,
        name_in(".."@) is None,
{
    reveal_strlit(".");
    reveal_strlit("..");
    reveal_strlit("/");
    reveal_strlit("/.");
    reveal_strlit("/..");
    assert("."@ == seq!['.']);
    assert(".."@ == seq!['.', '.']);
    let none = Seq::<char>::empty();
    let dot = seq!['.'];
    let dots = seq!['.', '.'];
    assert(dir + "/"@ + name == dir + seq!['/'] + name);
    assert(dir + "/"@ == dir + seq!['/'] + none);
    assert(dir + "/."@ == dir + seq!['/'] + dot);
    assert(dir + "/.."@ == dir + seq!['/'] + dots);
    text::law_splitting_cuts_at_the_separator(dir, name, '/');
    text::law_splitting_cuts_at_the_separator(name, name, '/');
    text::law_splitting_cuts_at_the_separator(dir, none, '/');
    text::law_splitting_cuts_at_the_separator(dir, dot, '/');
    text::law_splitting_cuts_at_the_separator(dot, dot, '/');
    text::law_splitting_cuts_at_the_separator(dir, dots, '/');
    text::law_splitting_cuts_at_the_separator(dots, dots, '/');
    let pieces = text::split_on(dir, '/');
    assert(text::split_on(none, '/') == seq![none]);
    assert((pieces + seq![name]).last() == name);
    assert((pieces + seq![none]).drop_last() == pieces);
    assert((pieces + seq![dot]).drop_last() == pieces);
    assert((pieces + seq![none]).last() == none);
    assert((pieces + seq![dot]).last() == dot);
    assert((pieces + seq![dots]).last() == dots);
    assert(seq![none].drop_last() == Seq::<Seq<char>>::empty());
    assert(last_name(seq![none].drop_last()) is None);
    assert(seq![dot].drop_last() == Seq::<Seq<char>>::empty());
    assert(last_name(seq![dot].drop_last()) is None);
}

/// A name is stem, dot and extension: the extension is what follows the last dot, and the stem what
/// stands before it. A name without dots, or with one at its beginning only, is all stem.
pub proof fn law_name_is_stem_and_extension(stem: Seq<char>, ext: Seq<char>)
    requires
        stem.len() > 0,
        !ext.contains('.'),
    ensures
        stem_of(stem + "."@ + ext) == stem,
        extension_of(stem + "."@ + ext) == Some(ext),
        stem_of(ext) == ext && extension_of(ext) is None,
        stem_of("."@ + ext) == "."@ + ext && extension_of("."@ + ext) is None,
        extension_or_empty(Some(stem + "."@ + ext)) == ext,
        extension_or_empty(Some(ext)) == Seq::<char>::empty(),
        extension_or_empty(Some("."@ + ext)) == Seq::<char>::empty(),
        extension_or_empty(None) == Seq::<char>::empty(),
{
    reveal_strlit(".");
    assert("."@ == seq!['.']);
    let whole = stem + seq!['.'] + ext;
    let none = Seq::<char>::empty();
    lemma_last_dot(stem, ext);
    assert(whole.take(stem.len() as int) == stem);
    assert(whole.skip(stem.len() as int + 1) == ext);
    lemma_last_at(ext, '.');
    if let Some(i) = last_at(ext, '.') {
        assert(ext[i] == '.');
    }
    lemma_last_dot(none, ext);
    assert(none + seq!['.'] + ext == "."@ + ext);
}

} // verus!
