//! Text primitives: every function works on Unicode scalar values and states its result over
//! the sequence of characters.

use vstd::prelude::*;
use vstd::string::*;
use vstd::utf8::*;

verus! {

/// `String::push` appends the given character to the end of the string.
pub assume_specification[ String::push ](s: &mut String, c: char)
    ensures
        final(s)@ == old(s)@.push(c),
;

/// The views of a sequence of strings.
pub open spec fn texts(parts: Seq<String>) -> Seq<Seq<char>> {
    Seq::new(parts.len(), |i: int| parts[i]@)
}

/// The view of an optional text.
pub open spec fn opt_text(s: Option<&str>) -> Option<Seq<char>> {
    match s {
        Some(t) => Some(t@),
        None => None,
    }
}

/// The view of an optional string.
pub open spec fn opt_string(s: Option<String>) -> Option<Seq<char>> {
    match s {
        Some(t) => Some(t@),
        None => None,
    }
}

/// An optional string as an optional text.
pub fn as_text(s: &Option<String>) -> (r: Option<&str>)
    ensures
        opt_text(r) == opt_string(*s),
{
    match s {
        Some(t) => Some(t.as_str()),
        None => None,
    }
}

// ---------------------------------------------------------------------------
// Moving between strings and character vectors
// ---------------------------------------------------------------------------

/// The characters of `s`, in order.
pub fn chars_of(s: &str) -> (r: Vec<char>)
    ensures
        r@ == s@,
{
    let mut out: Vec<char> = Vec::new();
    for c in it: s.chars()
        invariant
            out@ == s@.take(it.index() as int),
            it.seq() == s@,
    {
        out.push(c);
    }
    out
}

/// The string made of `chars[from..to]`.
pub fn string_between(chars: &Vec<char>, from: usize, to: usize) -> (r: String)
    requires
        from <= to <= chars@.len(),
    ensures
        r@ == chars@.subrange(from as int, to as int),
{
    let mut out = String::new();
    for i in from..to
        invariant
            from <= i <= to <= chars@.len(),
            out@ == chars@.subrange(from as int, i as int),
    {
        out.push(chars[i]);
        assert(chars@.subrange(from as int, i + 1) == chars@.subrange(from as int, i as int).push(
            chars@[i as int],
        ));
    }
    out
}

/// `a` followed by `b`.
pub fn concat2(a: &str, b: &str) -> (r: String)
    ensures
        r@ == a@ + b@,
{
    let mut out = a.to_owned();
    out.append(b);
    out
}

/// `a`, `b` and `c`, one after the other.
pub fn concat3(a: &str, b: &str, c: &str) -> (r: String)
    ensures
        r@ == a@ + b@ + c@,
{
    let mut out = concat2(a, b);
    out.append(c);
    out
}

/// Whether `a` and `b` hold the same characters.
pub fn same_text(a: &str, b: &str) -> (r: bool)
    ensures
        r == (a@ == b@),
{
    let left = a.to_owned();
    let right = b.to_owned();
    left == right
}

// ---------------------------------------------------------------------------
// Character classes
// ---------------------------------------------------------------------------

/// The characters with the Unicode property `White_Space`.
pub open spec fn is_white_space_spec(c: char) -> bool {
    ||| '\u{0009}' <= c <= '\u{000d}'
    ||| c == '\u{0020}'
    ||| c == '\u{0085}'
    ||| c == '\u{00a0}'
    ||| c == '\u{1680}'
    ||| '\u{2000}' <= c <= '\u{200a}'
    ||| c == '\u{2028}'
    ||| c == '\u{2029}'
    ||| c == '\u{202f}'
    ||| c == '\u{205f}'
    ||| c == '\u{3000}'
}

/// Whether `c` has the Unicode property `White_Space`.
pub fn is_white_space(c: char) -> (r: bool)
    ensures
        r == is_white_space_spec(c),
{
    ('\u{0009}' <= c && c <= '\u{000d}') || c == '\u{0020}' || c == '\u{0085}' || c == '\u{00a0}'
        || c == '\u{1680}' || ('\u{2000}' <= c && c <= '\u{200a}') || c == '\u{2028}' || c
        == '\u{2029}' || c == '\u{202f}' || c == '\u{205f}' || c == '\u{3000}'
}

/// `c` with `A`..`Z` mapped to `a`..`z` and everything else kept.
pub open spec fn ascii_lower_spec(c: char) -> char {
    if 'A' <= c <= 'Z' {
        ((c as u8) + 32) as u8 as char
    } else {
        c
    }
}

/// Lowers one ASCII letter; keeps every other character.
pub fn ascii_lower(c: char) -> (r: char)
    ensures
        r == ascii_lower_spec(c),
{
    if 'A' <= c && c <= 'Z' {
        ((c as u8) + 32) as char
    } else {
        c
    }
}

/// `s` with every ASCII letter lowered.
pub open spec fn ascii_lowered(s: Seq<char>) -> Seq<char> {
    Seq::new(s.len(), |i: int| ascii_lower_spec(s[i]))
}

/// The copy of `s` with ASCII letters lowered.
pub fn to_ascii_lowercase(s: &str) -> (r: String)
    ensures
        r@ == ascii_lowered(s@),
{
    let mut out = String::new();
    for c in it: s.chars()
        invariant
            out@ == ascii_lowered(s@).take(it.index() as int),
            it.seq() == s@,
    {
        out.push(ascii_lower(c));
    }
    out
}

/// What `str::to_lowercase` makes of a text.
pub uninterp spec fn unicode_lowercase(s: Seq<char>) -> Seq<char>;

/// `str::to_lowercase`, the Unicode lowercase of the whole text. ASCII characters lower one for
/// one: a text that begins with ASCII characters has a lowercase that begins with those
/// characters lowered, and an all-ASCII text has nothing else in it.
#[verifier::external_body]
pub(crate) fn to_lowercase(s: &str) -> (r: String)
    ensures
        r@ == unicode_lowercase(s@),
        forall|k: int|
            0 <= k <= s@.len() && is_ascii_chars(#[trigger] s@.take(k)) ==> ascii_lowered(
                s@.take(k),
            ).is_prefix_of(r@),
        is_ascii_chars(s@) ==> r@ == ascii_lowered(s@),
{
    s.to_lowercase()
}

// ---------------------------------------------------------------------------
// Trimming
// ---------------------------------------------------------------------------

/// `s` without its leading white space.
pub open spec fn trimmed_start(s: Seq<char>) -> Seq<char>
    decreases s.len(),
{
    if s.len() > 0 && is_white_space_spec(s.first()) {
        trimmed_start(s.drop_first())
    } else {
        s
    }
}

/// `s` without its trailing white space.
pub open spec fn trimmed_end(s: Seq<char>) -> Seq<char>
    decreases s.len(),
{
    if s.len() > 0 && is_white_space_spec(s.last()) {
        trimmed_end(s.drop_last())
    } else {
        s
    }
}

/// `s` without white space at either end.
pub open spec fn trimmed(s: Seq<char>) -> Seq<char> {
    trimmed_end(trimmed_start(s))
}

/// The number of leading white-space characters.
fn leading_white_space(chars: &Vec<char>) -> (n: usize)
    ensures
        n <= chars@.len(),
        trimmed_start(chars@) == chars@.skip(n as int),
{
    let mut n: usize = 0;
    assert(chars@.skip(0) == chars@);
    while n < chars.len() && is_white_space(chars[n])
        invariant
            n <= chars@.len(),
            trimmed_start(chars@) == trimmed_start(chars@.skip(n as int)),
        decreases chars@.len() - n,
    {
        assert(chars@.skip(n as int).drop_first() == chars@.skip(n + 1));
        n = n + 1;
    }
    n
}

/// The copy of `s` without leading white space.
pub fn trim_start(s: &str) -> (r: String)
    ensures
        r@ == trimmed_start(s@),
{
    let chars = chars_of(s);
    let n = leading_white_space(&chars);
    string_between(&chars, n, chars.len())
}

/// The copy of `s` without white space at either end.
pub fn trim(s: &str) -> (r: String)
    ensures
        r@ == trimmed(s@),
{
    let chars = chars_of(s);
    let n = leading_white_space(&chars);
    let mut m: usize = chars.len();
    assert(chars@.skip(n as int) == chars@.subrange(n as int, m as int));
    while m > n && is_white_space(chars[m - 1])
        invariant
            n <= m <= chars@.len(),
            trimmed(s@) == trimmed_end(chars@.subrange(n as int, m as int)),
        decreases m,
    {
        assert(chars@.subrange(n as int, m as int).drop_last() == chars@.subrange(
            n as int,
            m - 1,
        ));
        m = m - 1;
    }
    string_between(&chars, n, m)
}

/// `s` without the run of `c` at its beginning.
pub open spec fn without_leading(s: Seq<char>, c: char) -> Seq<char>
    decreases s.len(),
{
    if s.len() > 0 && s.first() == c {
        without_leading(s.drop_first(), c)
    } else {
        s
    }
}

/// `s` without the run of `c` at its end.
pub open spec fn without_trailing(s: Seq<char>, c: char) -> Seq<char>
    decreases s.len(),
{
    if s.len() > 0 && s.last() == c {
        without_trailing(s.drop_last(), c)
    } else {
        s
    }
}

/// The copy of `s` without the run of `c` at its beginning.
pub fn drop_leading(s: &str, c: char) -> (r: String)
    ensures
        r@ == without_leading(s@, c),
{
    let chars = chars_of(s);
    let mut n: usize = 0;
    assert(chars@.skip(0) == chars@);
    while n < chars.len() && chars[n] == c
        invariant
            n <= chars@.len(),
            without_leading(chars@, c) == without_leading(chars@.skip(n as int), c),
        decreases chars@.len() - n,
    {
        assert(chars@.skip(n as int).drop_first() == chars@.skip(n + 1));
        n = n + 1;
    }
    assert(chars@.skip(n as int) == chars@.subrange(n as int, chars@.len() as int));
    string_between(&chars, n, chars.len())
}

/// The copy of `s` without the run of `c` at its end.
pub fn drop_trailing(s: &str, c: char) -> (r: String)
    ensures
        r@ == without_trailing(s@, c),
{
    let chars = chars_of(s);
    let mut m: usize = chars.len();
    assert(chars@.take(m as int) == chars@);
    while m > 0 && chars[m - 1] == c
        invariant
            m <= chars@.len(),
            without_trailing(chars@, c) == without_trailing(chars@.take(m as int), c),
        decreases m,
    {
        assert(chars@.take(m as int).drop_last() == chars@.take(m - 1));
        m = m - 1;
    }
    assert(chars@.take(m as int) == chars@.subrange(0, m as int));
    string_between(&chars, 0, m)
}

/// Trimming an ASCII text leaves an ASCII text.
pub proof fn lemma_trimmed_ascii(s: Seq<char>)
    requires
        is_ascii_chars(s),
    ensures
        is_ascii_chars(trimmed(s)),
{
    lemma_trimmed_start_ascii(s);
    lemma_trimmed_end_ascii(trimmed_start(s));
}

proof fn lemma_trimmed_start_ascii(s: Seq<char>)
    requires
        is_ascii_chars(s),
    ensures
        is_ascii_chars(trimmed_start(s)),
    decreases s.len(),
{
    if s.len() > 0 && is_white_space_spec(s.first()) {
        lemma_trimmed_start_ascii(s.drop_first());
    }
}

proof fn lemma_trimmed_end_ascii(s: Seq<char>)
    requires
        is_ascii_chars(s),
    ensures
        is_ascii_chars(trimmed_end(s)),
    decreases s.len(),
{
    if s.len() > 0 && is_white_space_spec(s.last()) {
        lemma_trimmed_end_ascii(s.drop_last());
    }
}

// ---------------------------------------------------------------------------
// Searching
// ---------------------------------------------------------------------------

/// Whether `pat` stands in `s` at position `i`.
pub open spec fn occurs_at(s: Seq<char>, pat: Seq<char>, i: int) -> bool {
    0 <= i && i + pat.len() <= s.len() && s.subrange(i, i + pat.len()) == pat
}

/// Whether `pat` stands somewhere in `s`.
pub open spec fn occurs_in(s: Seq<char>, pat: Seq<char>) -> bool {
    exists|i: int| occurs_at(s, pat, i)
}

/// Whether `pat` stands in `chars` at position `i`.
fn matches_at(chars: &Vec<char>, pat: &Vec<char>, i: usize) -> (r: bool)
    requires
        i <= chars@.len(),
    ensures
        r == occurs_at(chars@, pat@, i as int),
{
    let n: usize = chars.len();
    if pat.len() > n - i {
        return false;
    }
    for j in 0..pat.len()
        invariant
            n == chars@.len(),
            i + pat@.len() <= n,
            forall|k: int| 0 <= k < j ==> chars@[i + k] == pat@[k],
    {
        if chars[i + j] != pat[j] {
            assert(chars@.subrange(i as int, i + pat@.len())[j as int] != pat@[j as int]);
            return false;
        }
    }
    assert(chars@.subrange(i as int, i + pat@.len()) == pat@);
    true
}

/// The first position at or after `from` where `pat` stands in `chars`.
pub fn find_from(chars: &Vec<char>, pat: &Vec<char>, from: usize) -> (r: Option<usize>)
    requires
        from <= chars@.len(),
    ensures
        match r {
            Some(i) => {
                &&& from <= i
                &&& occurs_at(chars@, pat@, i as int)
                &&& forall|k: int| from <= k < i ==> !occurs_at(chars@, pat@, k)
            },
            None => forall|k: int| from <= k ==> !occurs_at(chars@, pat@, k),
        },
{
    let mut i: usize = from;
    loop
        invariant
            from <= i <= chars@.len(),
            forall|k: int| from <= k < i ==> !occurs_at(chars@, pat@, k),
        decreases chars@.len() - i,
    {
        if matches_at(chars, pat, i) {
            return Some(i);
        }
        if i == chars.len() {
            return None;
        }
        i = i + 1;
    }
}

/// Whether `pat` stands somewhere in `s`.
pub fn contains(s: &str, pat: &str) -> (r: bool)
    ensures
        r == occurs_in(s@, pat@),
{
    match find_from(&chars_of(s), &chars_of(pat), 0) {
        Some(i) => {
            assert(occurs_at(s@, pat@, i as int));
            true
        },
        None => {
            assert forall|k: int| !occurs_at(s@, pat@, k) by {
                if k < 0 {
                }
            }
            false
        },
    }
}

/// Whether `s` begins with `prefix`.
pub fn starts_with(s: &str, prefix: &str) -> (r: bool)
    ensures
        r == prefix@.is_prefix_of(s@),
{
    let chars = chars_of(s);
    let pat = chars_of(prefix);
    matches_at(&chars, &pat, 0)
}

/// The first position at or after `from` where `pat` stands in `s`, if there is one.
pub open spec fn first_at(s: Seq<char>, pat: Seq<char>, from: int) -> Option<int>
    decreases s.len() - from + 1,
{
    if from < 0 || from + pat.len() > s.len() {
        None
    } else if occurs_at(s, pat, from) {
        Some(from)
    } else {
        first_at(s, pat, from + 1)
    }
}

/// `first_at` gives the least position, and `None` only where there is none.
pub proof fn lemma_first_at(s: Seq<char>, pat: Seq<char>, from: int)
    requires
        0 <= from,
    ensures
        match first_at(s, pat, from) {
            Some(i) => {
                &&& from <= i
                &&& occurs_at(s, pat, i)
                &&& forall|k: int| from <= k < i ==> !occurs_at(s, pat, k)
            },
            None => forall|k: int| from <= k ==> !occurs_at(s, pat, k),
        },
    decreases s.len() - from + 1,
{
    if from + pat.len() <= s.len() && !occurs_at(s, pat, from) {
        lemma_first_at(s, pat, from + 1);
    }
}

/// `s` from position `from` on, with every occurrence of `pat`, taken left to right without
/// overlap, replaced by `with`.
pub open spec fn replaced_from(s: Seq<char>, pat: Seq<char>, with: Seq<char>, from: int) -> Seq<
    char,
>
    decreases s.len() - from,
    when pat.len() > 0 && 0 <= from <= s.len()
{
    match first_at(s, pat, from) {
        Some(i) => if from <= i && i + pat.len() <= s.len() {
            s.subrange(from, i) + with + replaced_from(s, pat, with, i + pat.len())
        } else {
            s.skip(from)
        },
        None => s.skip(from),
    }
}

/// `s` with every occurrence of `pat` replaced by `with`.
pub open spec fn replaced(s: Seq<char>, pat: Seq<char>, with: Seq<char>) -> Seq<char> {
    replaced_from(s, pat, with, 0)
}

/// The copy of `s` with every occurrence of `pat` replaced by `with`.
pub fn replace_all(s: &str, pat: &str, with: &str) -> (r: String)
    requires
        pat@.len() > 0,
    ensures
        r@ == replaced(s@, pat@, with@),
{
    let chars = chars_of(s);
    let needle = chars_of(pat);
    let n: usize = chars.len();
    let mut out = String::new();
    let mut from: usize = 0;
    loop
        invariant
            n == chars@.len(),
            chars@ == s@,
            needle@ == pat@,
            pat@.len() > 0,
            from <= chars@.len(),
            replaced(s@, pat@, with@) == out@ + replaced_from(s@, pat@, with@, from as int),
        decreases chars@.len() - from,
    {
        proof {
            lemma_first_at(s@, pat@, from as int);
        }
        match find_from(&chars, &needle, from) {
            Some(i) => {
                assert(first_at(s@, pat@, from as int) == Some(i as int)) by {
                    let j = first_at(s@, pat@, from as int);
                    assert(j is Some);
                    if j->0 < i {
                        assert(!occurs_at(chars@, needle@, j->0));
                    }
                    if i < j->0 {
                        assert(!occurs_at(s@, pat@, i as int));
                    }
                }
                out.append(string_between(&chars, from, i).as_str());
                out.append(with);
                assert(i + needle@.len() <= n);
                from = i + needle.len();
            },
            None => {
                assert(first_at(s@, pat@, from as int) is None) by {
                    if first_at(s@, pat@, from as int) is Some {
                        let j = first_at(s@, pat@, from as int)->0;
                        assert(!occurs_at(chars@, needle@, j));
                    }
                }
                out.append(string_between(&chars, from, chars.len()).as_str());
                assert(chars@.subrange(from as int, chars@.len() as int) == s@.skip(from as int));
                return out;
            },
        }
    }
}

// ---------------------------------------------------------------------------
// Splitting and joining
// ---------------------------------------------------------------------------

/// The pieces of `s` between the occurrences of `sep`: always at least one.
pub open spec fn split_on(s: Seq<char>, sep: char) -> Seq<Seq<char>>
    decreases s.len(),
{
    if s.len() == 0 {
        seq![Seq::empty()]
    } else {
        let before = split_on(s.drop_last(), sep);
        if s.last() == sep {
            before.push(Seq::empty())
        } else {
            before.drop_last().push(before.last().push(s.last()))
        }
    }
}

/// `parts` one after the other with `sep` between neighbours.
pub open spec fn joined(parts: Seq<Seq<char>>, sep: Seq<char>) -> Seq<char>
    decreases parts.len(),
{
    if parts.len() == 0 {
        Seq::empty()
    } else if parts.len() == 1 {
        parts[0]
    } else {
        joined(parts.drop_last(), sep) + sep + parts.last()
    }
}

/// Splitting gives at least one piece, no piece holds the separator, and joining the pieces
/// with the separator gives the text back.
pub proof fn lemma_split_joined(s: Seq<char>, sep: char)
    ensures
        split_on(s, sep).len() >= 1,
        forall|i: int|
            0 <= i < split_on(s, sep).len() ==> !(#[trigger] split_on(s, sep)[i]).contains(sep),
        joined(split_on(s, sep), seq![sep]) == s,
    decreases s.len(),
{
    if s.len() > 0 {
        let head = s.drop_last();
        let before = split_on(head, sep);
        let all = split_on(s, sep);
        lemma_split_joined(head, sep);
        if s.last() == sep {
            assert(all.drop_last() == before);
            assert(joined(all, seq![sep]) == head + seq![sep] + Seq::<char>::empty());
            assert(head + seq![sep] + Seq::<char>::empty() == s);
            assert forall|i: int| 0 <= i < all.len() implies !(#[trigger] all[i]).contains(sep) by {
                if i < before.len() {
                    assert(all[i] == before[i]);
                }
            }
        } else {
            assert(all.drop_last() == before.drop_last());
            assert(all.last() == before.last().push(s.last()));
            if before.len() == 1 {
                assert(joined(all, seq![sep]) == head.push(s.last()));
            } else {
                assert(joined(all, seq![sep]) == joined(before.drop_last(), seq![sep]) + seq![sep]
                    + before.last().push(s.last()));
                assert(joined(before.drop_last(), seq![sep]) + seq![sep] + before.last().push(
                    s.last(),
                ) == (joined(before.drop_last(), seq![sep]) + seq![sep] + before.last()).push(
                    s.last(),
                ));
            }
            assert(head.push(s.last()) == s);
            assert forall|i: int| 0 <= i < all.len() implies !(#[trigger] all[i]).contains(sep) by {
                if i < before.len() - 1 {
                    assert(all[i] == before[i]);
                } else {
                    assert(all[i] == before.last().push(s.last()));
                    assert(!before[before.len() - 1].contains(sep));
                    if all[i].contains(sep) {
                        let j = choose|j: int| 0 <= j < all[i].len() && all[i][j] == sep;
                        if j < before.last().len() {
                            assert(before.last()[j] == sep);
                        }
                    }
                }
            }
        }
    } else {
        assert(split_on(s, sep)[0] == s);
    }
}

/// Appending text without the separator only grows the last piece.
proof fn lemma_split_append_piece(s: Seq<char>, sep: char, piece: Seq<char>)
    requires
        !piece.contains(sep),
    ensures
        split_on(s + piece, sep) == split_on(s, sep).drop_last().push(
            split_on(s, sep).last() + piece,
        ),
    decreases piece.len(),
{
    lemma_split_joined(s, sep);
    let before = split_on(s, sep);
    if piece.len() == 0 {
        assert(s + piece == s);
        assert(before.last() + piece == before.last());
        assert(before.drop_last().push(before.last()) == before);
    } else {
        let rest = piece.drop_last();
        assert(!rest.contains(sep)) by {
            if rest.contains(sep) {
                let j = choose|j: int| 0 <= j < rest.len() && rest[j] == sep;
                assert(piece[j] == sep);
            }
        }
        assert(piece[piece.len() - 1] != sep);
        lemma_split_append_piece(s, sep, rest);
        assert((s + piece).drop_last() == s + rest);
        let mid = split_on(s + rest, sep);
        assert(mid.drop_last() == before.drop_last());
        assert(mid.last().push(piece.last()) == before.last() + piece);
    }
}

/// Joining pieces that do not hold the separator and splitting again gives the pieces back.
pub proof fn lemma_joined_split(parts: Seq<Seq<char>>, sep: char)
    requires
        parts.len() >= 1,
        forall|i: int| 0 <= i < parts.len() ==> !(#[trigger] parts[i]).contains(sep),
    ensures
        split_on(joined(parts, seq![sep]), sep) == parts,
    decreases parts.len(),
{
    let last = parts.last();
    if parts.len() == 1 {
        lemma_split_append_piece(Seq::empty(), sep, last);
        assert(Seq::<char>::empty() + last == last);
        let base = split_on(Seq::<char>::empty(), sep);
        assert(base == seq![Seq::<char>::empty()]);
        assert(base.drop_last().push(base.last() + last) == parts);
    } else {
        let front = parts.drop_last();
        assert forall|i: int| 0 <= i < front.len() implies !(#[trigger] front[i]).contains(sep) by {
            assert(front[i] == parts[i]);
        }
        lemma_joined_split(front, sep);
        let text = joined(front, seq![sep]);
        let stem = text + seq![sep];
        assert(stem.drop_last() == text);
        assert(split_on(stem, sep) == front.push(Seq::empty()));
        assert(!parts[parts.len() - 1].contains(sep));
        lemma_split_append_piece(stem, sep, last);
        let base = split_on(stem, sep);
        assert(base.drop_last() == front);
        assert(base.last() + last == last);
        assert(front.push(last) == parts);
    }
}

/// The pieces of an ASCII text are ASCII.
pub proof fn lemma_split_ascii(s: Seq<char>, sep: char)
    requires
        is_ascii_chars(s),
    ensures
        forall|i: int|
            0 <= i < split_on(s, sep).len() ==> is_ascii_chars(#[trigger] split_on(s, sep)[i]),
    decreases s.len(),
{
    if s.len() > 0 {
        lemma_split_ascii(s.drop_last(), sep);
        lemma_split_joined(s.drop_last(), sep);
        let before = split_on(s.drop_last(), sep);
        let all = split_on(s, sep);
        assert(is_ascii_chars(before[before.len() - 1]));
        assert forall|i: int| 0 <= i < all.len() implies is_ascii_chars(#[trigger] all[i]) by {
            if i < before.len() - 1 {
                assert(all[i] == before[i]);
            } else if s.last() == sep && i == before.len() - 1 {
                assert(all[i] == before[i]);
            }
        }
    }
}

/// The pieces of `s` between the occurrences of `sep`.
pub fn split(s: &str, sep: char) -> (r: Vec<String>)
    ensures
        texts(r@) == split_on(s@, sep),
{
    let mut out: Vec<String> = Vec::new();
    let mut piece = String::new();
    for c in it: s.chars()
        invariant
            it.seq() == s@,
            texts(out@).push(piece@) == split_on(s@.take(it.index() as int), sep),
    {
        let ghost so_far = s@.take(it.index() as int);
        let ghost next = s@.take(it.index() + 1);
        let ghost before = texts(out@).push(piece@);
        assert(next.drop_last() == so_far);
        assert(next.last() == c);
        assert(before.drop_last() == texts(out@));
        if c == sep {
            out.push(piece);
            assert(texts(out@) == before);
            piece = String::new();
        } else {
            piece.push(c);
        }
    }
    assert(s@.take(s@.len() as int) == s@);
    let ghost whole = texts(out@).push(piece@);
    out.push(piece);
    assert(texts(out@) == whole);
    out
}

/// `parts` one after the other with `sep` between neighbours.
pub fn join(parts: &Vec<String>, sep: &str) -> (r: String)
    ensures
        r@ == joined(texts(parts@), sep@),
{
    let mut out = String::new();
    for i in 0..parts.len()
        invariant
            out@ == joined(texts(parts@).take(i as int), sep@),
    {
        let ghost next = texts(parts@).take(i + 1);
        assert(next.drop_last() == texts(parts@).take(i as int));
        assert(next.last() == parts@[i as int]@);
        if i > 0 {
            out.append(sep);
        }
        out.append(parts[i].as_str());
    }
    assert(texts(parts@).take(parts@.len() as int) == texts(parts@));
    out
}

// ---------------------------------------------------------------------------
// Decimal numbers
// ---------------------------------------------------------------------------

/// The ASCII digit for `d`.
pub open spec fn digit_char(d: int) -> char {
    (48 + d) as u8 as char
}

/// `n` in decimal, without leading zeros.
pub open spec fn decimal(n: nat) -> Seq<char>
    decreases n,
{
    if n < 10 {
        seq![digit_char(n as int)]
    } else {
        decimal(n / 10).push(digit_char((n % 10) as int))
    }
}

/// `n` in decimal, without leading zeros.
pub fn to_decimal(n: u64) -> (r: String)
    ensures
        r@ == decimal(n as nat),
    decreases n,
{
    let mut out = if n < 10 {
        String::new()
    } else {
        to_decimal(n / 10)
    };
    out.push((48 + (n % 10) as u8) as char);
    assert(n < 10 ==> out@ == seq![digit_char(n as int)]);
    out
}

/// Whether `c` is an ASCII digit.
pub open spec fn is_digit(c: char) -> bool {
    '0' <= c <= '9'
}

/// The number that a run of ASCII digits writes.
pub open spec fn digits_value(s: Seq<char>) -> nat
    decreases s.len(),
{
    if s.len() == 0 {
        0
    } else {
        (digits_value(s.drop_last()) * 10 + (s.last() as u32 - 48)) as nat
    }
}

/// Leading ASCII digits only make the number larger.
proof fn lemma_digits_value_grows(s: Seq<char>, k: int)
    requires
        0 <= k <= s.len(),
        forall|i: int| 0 <= i < s.len() ==> is_digit(#[trigger] s[i]),
    ensures
        digits_value(s.take(k)) <= digits_value(s),
    decreases s.len() - k,
{
    if k < s.len() {
        lemma_digits_value_grows(s, k + 1);
        assert(s.take(k + 1).drop_last() == s.take(k));
        assert(s.take(k + 1).last() == s[k]);
    } else {
        assert(s.take(k) == s);
    }
}

/// The number that an unsigned decimal text writes: one or more ASCII digits, worth at most
/// `max`.
pub open spec fn decimal_within(s: Seq<char>, max: nat) -> Option<nat> {
    if s.len() > 0 && (forall|i: int| 0 <= i < s.len() ==> is_digit(#[trigger] s[i]))
        && digits_value(s) <= max {
        Some(digits_value(s))
    } else {
        None
    }
}

/// Reads an unsigned decimal text worth at most `max`.
pub fn parse_decimal(s: &str, max: u64) -> (r: Option<u64>)
    ensures
        match r {
            Some(n) => decimal_within(s@, max as nat) == Some(n as nat),
            None => decimal_within(s@, max as nat) is None,
        },
{
    let chars = chars_of(s);
    if chars.len() == 0 {
        return None;
    }
    let mut n: u64 = 0;
    for i in 0..chars.len()
        invariant
            chars@ == s@,
            n == digits_value(s@.take(i as int)),
            n <= max,
            forall|k: int| 0 <= k < i ==> is_digit(#[trigger] s@[k]),
    {
        let c = chars[i];
        if !('0' <= c && c <= '9') {
            assert(!is_digit(s@[i as int]));
            return None;
        }
        let d: u64 = (c as u32 - 48) as u64;
        proof {
            assert(s@.take(i + 1).drop_last() == s@.take(i as int));
            assert(digits_value(s@.take(i + 1)) == n * 10 + d);
            if forall|k: int| 0 <= k < s@.len() ==> is_digit(#[trigger] s@[k]) {
                lemma_digits_value_grows(s@, i + 1);
            }
        }
        if n > max / 10 {
            return None;
        }
        let shifted: u64 = n * 10;
        if d > max - shifted {
            return None;
        }
        n = shifted + d;
    }
    assert(s@.take(s@.len() as int) == s@);
    Some(n)
}

/// The number that an unsigned integer literal writes: an optional `+`, then decimal digits
/// worth at most `max`.
pub open spec fn unsigned_within(s: Seq<char>, max: nat) -> Option<nat> {
    if s.len() > 0 && s[0] == '+' {
        decimal_within(s.skip(1), max)
    } else {
        decimal_within(s, max)
    }
}

/// Reads an unsigned integer worth at most `max`, with an optional leading `+`.
pub fn parse_unsigned(s: &str, max: u64) -> (r: Option<u64>)
    ensures
        match r {
            Some(n) => unsigned_within(s@, max as nat) == Some(n as nat),
            None => unsigned_within(s@, max as nat) is None,
        },
{
    let chars = chars_of(s);
    if chars.len() > 0 && chars[0] == '+' {
        let rest = string_between(&chars, 1, chars.len());
        assert(rest@ == s@.skip(1));
        parse_decimal(rest.as_str(), max)
    } else {
        parse_decimal(s, max)
    }
}

// ---------------------------------------------------------------------------
// Laws
// ---------------------------------------------------------------------------

/// Lowering keeps every character but the letters `A` to `Z`; each of those becomes the character
/// 32 places further on.
pub proof fn law_lowering_moves_capitals_only(s: Seq<char>)
    ensures
        ascii_lowered(s).len() == s.len(),
        forall|i: int|
            0 <= i < s.len() ==> (#[trigger] ascii_lowered(s)[i]) as u32 == if 65 <= s[i] as u32
                <= 90 {
                s[i] as u32 + 32
            } else {
                s[i] as int
            },
{
}

/// Trimming takes white space off, and nothing else: what is left is a stretch of the text with
/// white space only on either side of it, and with none at its own ends.
pub proof fn law_trimming_takes_white_space_off(s: Seq<char>)
    ensures
        ({
            let from = s.len() - trimmed_start(s).len();
            let to = from + trimmed(s).len();
            &&& 0 <= from <= to <= s.len()
            &&& trimmed_start(s) == s.skip(from)
            &&& trimmed(s) == s.subrange(from, to)
            &&& forall|i: int| 0 <= i < from ==> is_white_space_spec(#[trigger] s[i])
            &&& forall|i: int| to <= i < s.len() ==> is_white_space_spec(#[trigger] s[i])
            &&& from < s.len() ==> !is_white_space_spec(s[from])
            &&& from < to ==> !is_white_space_spec(s[from]) && !is_white_space_spec(s[to - 1])
        }),
{
    let front = trimmed_start(s);
    let from = s.len() - front.len();
    let bare = trimmed(s);
    let to = from + bare.len();
    lemma_trimmed_start_is_a_rest(s);
    lemma_trimmed_end_is_a_beginning(front);
    assert(bare == s.subrange(from, to));
    assert forall|i: int| to <= i < s.len() implies is_white_space_spec(#[trigger] s[i]) by {
        assert(front[i - from] == s[i]);
    }
    if from < to {
        assert(bare[0] == s[from] && bare.last() == s[to - 1]);
        assert(front[0] == s[from]);
    }
}

/// What is left after leading white space begins where that ends.
proof fn lemma_trimmed_start_is_a_rest(s: Seq<char>)
    ensures
        trimmed_start(s).len() <= s.len(),
        ({
            let from = s.len() - trimmed_start(s).len();
            &&& trimmed_start(s) == s.skip(from)
            &&& forall|i: int| 0 <= i < from ==> is_white_space_spec(#[trigger] s[i])
            &&& from < s.len() ==> !is_white_space_spec(s[from])
        }),
    decreases s.len(),
{
    if s.len() > 0 && is_white_space_spec(s.first()) {
        let rest = s.drop_first();
        lemma_trimmed_start_is_a_rest(rest);
        let from = s.len() - trimmed_start(s).len();
        assert(rest.skip(from - 1) == s.skip(from));
        assert forall|i: int| 0 <= i < from implies is_white_space_spec(#[trigger] s[i]) by {
            if i > 0 {
                assert(rest[i - 1] == s[i]);
            }
        }
    } else {
        assert(s.skip(0) == s);
    }
}

/// What is left before trailing white space ends where that begins.
proof fn lemma_trimmed_end_is_a_beginning(s: Seq<char>)
    ensures
        trimmed_end(s).len() <= s.len(),
        ({
            let to = trimmed_end(s).len() as int;
            &&& trimmed_end(s) == s.take(to)
            &&& forall|i: int| to <= i < s.len() ==> is_white_space_spec(#[trigger] s[i])
            &&& to > 0 ==> !is_white_space_spec(s[to - 1])
        }),
    decreases s.len(),
{
    if s.len() > 0 && is_white_space_spec(s.last()) {
        let rest = s.drop_last();
        lemma_trimmed_end_is_a_beginning(rest);
        let to = trimmed_end(s).len() as int;
        assert(rest.take(to) == s.take(to));
        assert forall|i: int| to <= i < s.len() implies is_white_space_spec(#[trigger] s[i]) by {
            if i < rest.len() {
                assert(rest[i] == s[i]);
            }
        }
    } else {
        assert(s.take(s.len() as int) == s);
    }
}

/// A run of `c` at the beginning is taken off whole, and nothing else is.
pub proof fn law_leading_run_is_taken_off(run: Seq<char>, rest: Seq<char>, c: char)
    requires
        forall|i: int| 0 <= i < run.len() ==> (#[trigger] run[i]) == c,
        rest.len() > 0 ==> rest[0] != c,
    ensures
        without_leading(run + rest, c) == rest,
    decreases run.len(),
{
    let s = run + rest;
    if run.len() > 0 {
        assert(s.first() == run[0]);
        assert(s.drop_first() == run.drop_first() + rest);
        law_leading_run_is_taken_off(run.drop_first(), rest, c);
    } else {
        assert(s == rest);
    }
}

/// A run of `c` at the end is taken off whole, and nothing else is.
pub proof fn law_trailing_run_is_taken_off(front: Seq<char>, run: Seq<char>, c: char)
    requires
        forall|i: int| 0 <= i < run.len() ==> (#[trigger] run[i]) == c,
        front.len() > 0 ==> front.last() != c,
    ensures
        without_trailing(front + run, c) == front,
    decreases run.len(),
{
    let s = front + run;
    if run.len() > 0 {
        assert(s.last() == run[run.len() - 1]);
        assert(s.drop_last() == front + run.drop_last());
        law_trailing_run_is_taken_off(front, run.drop_last(), c);
    } else {
        assert(s == front);
    }
}

/// A text holds another one exactly where it is something, that text, and something.
pub proof fn law_containing_is_having_in_the_middle(s: Seq<char>, pat: Seq<char>)
    ensures
        occurs_in(s, pat) <==> exists|a: Seq<char>, b: Seq<char>| s == #[trigger] (a + pat + b),
{
    if occurs_in(s, pat) {
        let i = choose|i: int| occurs_at(s, pat, i);
        let a = s.take(i);
        let b = s.skip(i + pat.len());
        assert(s == a + s.subrange(i, i + pat.len()) + b);
        assert(s == a + pat + b);
    }
    if exists|a: Seq<char>, b: Seq<char>| s == #[trigger] (a + pat + b) {
        let (a, b) = choose|a: Seq<char>, b: Seq<char>| s == #[trigger] (a + pat + b);
        let i = a.len() as int;
        assert((a + pat + b).subrange(i, i + pat.len()) == pat);
        assert(occurs_at(s, pat, i));
    }
}

/// What is replaced first is the first occurrence: the text before it stays, and the text behind
/// it is treated in the same way.
pub proof fn law_replacing_goes_left_to_right(
    a: Seq<char>,
    pat: Seq<char>,
    b: Seq<char>,
    with: Seq<char>,
)
    requires
        pat.len() > 0,
        forall|i: int| 0 <= i < a.len() ==> !#[trigger] occurs_at(a + pat + b, pat, i),
    ensures
        replaced(a + pat + b, pat, with) == a + with + replaced(b, pat, with),
{
    let s = a + pat + b;
    let n = a.len() as int;
    assert(s.subrange(n, n + pat.len()) == pat);
    assert(occurs_at(s, pat, n));
    lemma_first_at(s, pat, 0);
    assert(first_at(s, pat, 0) == Some(n));
    assert(s.subrange(0, n) == a);
    let next = n + pat.len() as int;
    lemma_replaced_rest(s, pat, with, next, 0);
    assert(s.skip(next) == b);
}

/// A text that does not hold what is to be replaced stays as it is.
pub proof fn law_nothing_to_replace(s: Seq<char>, pat: Seq<char>, with: Seq<char>)
    requires
        pat.len() > 0,
        !occurs_in(s, pat),
    ensures
        replaced(s, pat, with) == s,
{
    lemma_first_at(s, pat, 0);
    if let Some(i) = first_at(s, pat, 0) {
        assert(occurs_at(s, pat, i));
    }
    assert(s.skip(0) == s);
}

/// A search in the rest of a text finds the same places, counted from where the rest begins.
proof fn lemma_first_in_rest(s: Seq<char>, pat: Seq<char>, from: int, k: int)
    requires
        0 <= from <= s.len(),
        0 <= k,
    ensures
        first_at(s, pat, from + k) == match first_at(s.skip(from), pat, k) {
            Some(i) => Some(i + from),
            None => None,
        },
    decreases s.len() - from - k + 1,
{
    let rest = s.skip(from);
    if from + k + pat.len() <= s.len() {
        assert(s.subrange(from + k, from + k + pat.len()) == rest.subrange(k, k + pat.len()));
        if !occurs_at(s, pat, from + k) {
            lemma_first_in_rest(s, pat, from, k + 1);
        }
    }
}

/// Replacing from a place on is replacing in the rest from there.
proof fn lemma_replaced_rest(s: Seq<char>, pat: Seq<char>, with: Seq<char>, from: int, k: int)
    requires
        pat.len() > 0,
        0 <= k,
        0 <= from,
        from + k <= s.len(),
    ensures
        replaced_from(s, pat, with, from + k) == replaced_from(s.skip(from), pat, with, k),
    decreases s.len() - from - k,
{
    let rest = s.skip(from);
    lemma_first_in_rest(s, pat, from, k);
    lemma_first_at(s, pat, from + k);
    match first_at(rest, pat, k) {
        Some(i) => {
            lemma_first_at(rest, pat, k);
            lemma_replaced_rest(s, pat, with, from, i + pat.len());
            assert(from + (i + pat.len()) == i + from + pat.len());
            assert(s.subrange(from + k, from + i) == rest.subrange(k, i));
        },
        None => {
            assert(s.skip(from + k) == rest.skip(k));
        },
    }
}

/// Joining goes piece by piece: a single piece stands as it is, and what two lists are joined to
/// has the separator in the middle.
pub proof fn law_joining_puts_the_separator_between(
    a: Seq<Seq<char>>,
    b: Seq<Seq<char>>,
    sep: Seq<char>,
)
    requires
        a.len() > 0,
        b.len() > 0,
    ensures
        joined(seq![a[0]], sep) == a[0],
        joined(a + b, sep) == joined(a, sep) + sep + joined(b, sep),
    decreases b.len(),
{
    let all = a + b;
    assert(all.last() == b.last());
    assert(all.drop_last() == a + b.drop_last());
    if b.len() == 1 {
        assert(a + b.drop_last() == a);
    } else {
        law_joining_puts_the_separator_between(a, b.drop_last(), sep);
        assert(joined(a, sep) + sep + joined(b.drop_last(), sep) + sep + b.last() == joined(a, sep)
            + sep + (joined(b.drop_last(), sep) + sep + b.last()));
    }
}

/// A decimal text is made of digits, has no zero in front but for zero itself, and is worth the
/// number that it was written for.
pub proof fn law_decimal_is_worth_its_number(n: nat)
    ensures
        decimal(n).len() > 0,
        forall|i: int| 0 <= i < decimal(n).len() ==> '0' <= (#[trigger] decimal(n)[i]) <= '9',
        n > 0 ==> decimal(n)[0] != '0',
        digits_value(decimal(n)) == n,
    decreases n,
{
    let all = decimal(n);
    if n < 10 {
        assert(all[0] as u32 == 48 + n);
        assert(all.drop_last() == Seq::<char>::empty());
        assert(digits_value(all.drop_last()) == 0);
        assert(all.last() == all[0]);
    } else {
        law_decimal_is_worth_its_number(n / 10);
        let front = decimal(n / 10);
        let d = (n % 10) as int;
        assert(digit_char(d) as u32 == 48 + d);
        assert(all.drop_last() == front);
        assert(all[0] == front[0]);
        assert forall|i: int| 0 <= i < all.len() implies '0' <= (#[trigger] all[i]) <= '9' by {
            if i < front.len() {
                assert(all[i] == front[i]);
            }
        }
    }
}

/// What is written after digits counts ten times what they were worth.
pub proof fn law_digits_count_by_tens(s: Seq<char>, d: int)
    requires
        0 <= d <= 9,
    ensures
        digits_value(Seq::<char>::empty()) == 0,
        digits_value(s.push((48 + d) as char)) == 10 * digits_value(s) + d,
{
    let all = s.push((48 + d) as char);
    assert(all.drop_last() == s);
    assert(all.last() as u32 == 48 + d);
}

/// A number that is written in decimal is read back, with or without a plus sign, as long as it is
/// within the limit.
pub proof fn law_written_numbers_are_read_back(n: nat, max: nat)
    ensures
        unsigned_within(decimal(n), max) == if n <= max {
            Some(n)
        } else {
            None
        },
        unsigned_within(seq!['+'] + decimal(n), max) == unsigned_within(decimal(n), max),
        decimal_within(decimal(n), max) == unsigned_within(decimal(n), max),
{
    law_decimal_is_worth_its_number(n);
    let all = decimal(n);
    assert forall|i: int| 0 <= i < all.len() implies is_digit(#[trigger] all[i]) by {
        assert('0' <= decimal(n)[i] <= '9');
    }
    assert((seq!['+'] + all).skip(1) == all);
}

/// A text that is empty or holds anything but digits is no decimal number.
pub proof fn law_only_digits_are_numbers(s: Seq<char>, max: nat)
    ensures
        decimal_within(s, max) is Some ==> s.len() > 0 && forall|i: int|
            0 <= i < s.len() ==> '0' <= (#[trigger] s[i]) <= '9',
        decimal_within(s, max) matches Some(n) ==> n == digits_value(s) && n <= max,
{
    if decimal_within(s, max) is Some {
        assert forall|i: int| 0 <= i < s.len() implies '0' <= (#[trigger] s[i]) <= '9' by {
            assert(is_digit(s[i]));
        }
    }
}

/// Splitting goes piece by piece: at a separator the pieces of what stands before it are followed
/// by the pieces of what stands behind it, and a text without one is its own only piece.
pub proof fn law_splitting_cuts_at_the_separator(a: Seq<char>, b: Seq<char>, sep: char)
    ensures
        split_on(a + seq![sep] + b, sep) == split_on(a, sep) + split_on(b, sep),
        !a.contains(sep) ==> split_on(a, sep) == seq![a],
    decreases b.len(),
{
    lemma_split_joined(b, sep);
    let s = a + seq![sep] + b;
    if !a.contains(sep) {
        assert(joined(seq![a], seq![sep]) == a);
        lemma_joined_split(seq![a], sep);
    }
    if b.len() == 0 {
        assert(s.drop_last() == a);
        assert(s.last() == sep);
        assert(split_on(s, sep) == split_on(a, sep) + split_on(b, sep));
    } else {
        let front = b.drop_last();
        law_splitting_cuts_at_the_separator(a, front, sep);
        lemma_split_joined(front, sep);
        assert(s.drop_last() == a + seq![sep] + front);
        assert(s.last() == b.last());
        let before = split_on(a, sep) + split_on(front, sep);
        assert(before.last() == split_on(front, sep).last());
        assert(before.drop_last() == split_on(a, sep) + split_on(front, sep).drop_last());
        assert(split_on(s, sep) == split_on(a, sep) + split_on(b, sep));
    }
}

/// The view of texts is made of the views of each: there are as many, in the same order, and one
/// that is not there is not there in the view.
pub proof fn law_views_of_texts(parts: Seq<String>, i: int, s: &str, t: String)
    ensures
        texts(parts).len() == parts.len(),
        0 <= i < parts.len() ==> texts(parts)[i] == parts[i]@,
        opt_text(Some(s)) == Some(s@),
        opt_text(None) is None,
        opt_string(Some(t)) == Some(t@),
        opt_string(None) is None,
{
}

/// White space is tab, line feed, vertical tab, form feed and carriage return, the space, and the
/// spaces and separators of Unicode: 25 characters in all, by their numbers.
pub proof fn law_which_characters_are_white_space(c: char)
    ensures
        is_white_space_spec(c) <==> ({
            let n = c as u32;
            ||| 9 <= n <= 13
            ||| n == 32
            ||| n == 133
            ||| n == 160
            ||| n == 5_760
            ||| 8_192 <= n <= 8_202
            ||| 8_232 <= n <= 8_233
            ||| n == 8_239
            ||| n == 8_287
            ||| n == 12_288
        }),
{
}

} // verus!
