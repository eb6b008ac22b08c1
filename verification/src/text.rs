//! Character-level helpers that the parsers and key formatters are built on:
//! conversion between strings and character vectors, splitting at a
//! separator, unsigned decimal literals, and decimal rendering.

use vstd::prelude::*;

verus! {

/// What `str::to_lowercase` returns for the text `text`: its Unicode
/// lowercase equivalent.
pub uninterp spec fn lowercase(text: Seq<char>) -> Seq<char>;

/// `str::to_lowercase` depends on the characters of its argument alone; its
/// result is `lowercase` of them.
pub assume_specification[ str::to_lowercase ](s: &str) -> (r: String)
    ensures
        r@ == lowercase(s@),
;

/// Appending one character to a `String` (`String::push`) extends its
/// character sequence by exactly that character.
pub assume_specification[ String::push ](s: &mut String, ch: char)
    ensures
        final(s)@ == old(s)@.push(ch),
;

/// The characters of `s`, in order.
pub fn chars_of(s: &str) -> (chars: Vec<char>)
    ensures
        chars@ == s@,
{
    let mut chars: Vec<char> = Vec::new();
    for c in it: s.chars()
        invariant
            it.seq() == s@,
            chars@ == it.seq().take(it.index()),
    {
        chars.push(c);
    }
    chars
}

/// The string made of `chars`, in order.
pub fn string_of(chars: &Vec<char>) -> (s: String)
    ensures
        s@ == chars@,
{
    let mut s = String::new();
    let mut i: usize = 0;
    while i < chars.len()
        invariant
            i <= chars.len(),
            s@ == chars@.take(i as int),
        decreases chars.len() - i,
    {
        s.push(chars[i]);
        i = i + 1;
    }
    s
}

/// Whether two character vectors hold the same text.
pub fn same_chars(a: &Vec<char>, b: &Vec<char>) -> (same: bool)
    ensures
        same == (a@ == b@),
{
    if a.len() != b.len() {
        return false;
    }
    let mut i: usize = 0;
    while i < a.len()
        invariant
            a.len() == b.len(),
            i <= a.len(),
            a@.take(i as int) == b@.take(i as int),
        decreases a.len() - i,
    {
        if a[i] != b[i] {
            return false;
        }
        assert(a@.take(i + 1) == a@.take(i as int).push(a@[i as int]));
        assert(b@.take(i + 1) == b@.take(i as int).push(b@[i as int]));
        i = i + 1;
    }
    assert(a@.take(a.len() as int) == a@);
    assert(b@.take(b.len() as int) == b@);
    true
}

/// Whether two strings hold the same text.
pub fn same_text(a: &str, b: &str) -> (same: bool)
    ensures
        same == (a@ == b@),
{
    let x = chars_of(a);
    let y = chars_of(b);
    same_chars(&x, &y)
}

/// Whether `c` is white space: one of the characters with the Unicode
/// property `White_Space`.
pub open spec fn is_space(c: char) -> bool {
    ||| '\u{9}' <= c <= '\u{d}'
    ||| c == ' '
    ||| c == '\u{85}'
    ||| c == '\u{a0}'
    ||| c == '\u{1680}'
    ||| '\u{2000}' <= c <= '\u{200a}'
    ||| c == '\u{2028}'
    ||| c == '\u{2029}'
    ||| c == '\u{202f}'
    ||| c == '\u{205f}'
    ||| c == '\u{3000}'
}

/// `s` without the white space that it begins with.
pub open spec fn trimmed_front(s: Seq<char>) -> Seq<char>
    decreases s.len(),
{
    if s.len() > 0 && is_space(s[0]) {
        trimmed_front(s.drop_first())
    } else {
        s
    }
}

/// `s` without the white space that it ends with.
pub open spec fn trimmed_back(s: Seq<char>) -> Seq<char>
    decreases s.len(),
{
    if s.len() > 0 && is_space(s.last()) {
        trimmed_back(s.drop_last())
    } else {
        s
    }
}

/// `s` without the white space at either end.
pub open spec fn trimmed(s: Seq<char>) -> Seq<char> {
    trimmed_back(trimmed_front(s))
}

/// Whether `c` is white space.
pub fn is_white(c: char) -> (white: bool)
    ensures
        white == is_space(c),
{
    ('\u{9}' <= c && c <= '\u{d}') || c == ' ' || c == '\u{85}' || c == '\u{a0}' || c
        == '\u{1680}' || ('\u{2000}' <= c && c <= '\u{200a}') || c == '\u{2028}' || c
        == '\u{2029}' || c == '\u{202f}' || c == '\u{205f}' || c == '\u{3000}'
}

/// What is left of a text from which white space was taken at the front is
/// what trimming its front leaves.
proof fn lemma_trimmed_front(s: Seq<char>, from: int)
    requires
        0 <= from <= s.len(),
        forall|i: int| 0 <= i < from ==> is_space(s[i]),
        from < s.len() ==> !is_space(s[from]),
    ensures
        trimmed_front(s) == s.subrange(from, s.len() as int),
    decreases from,
{
    if from == 0 {
        assert(s.subrange(0, s.len() as int) == s);
    } else {
        lemma_trimmed_front(s.drop_first(), from - 1);
        assert(s.drop_first().subrange(from - 1, s.len() - 1) == s.subrange(from, s.len() as int));
    }
}

/// What is left of a text from which white space was taken at the back is
/// what trimming its back leaves.
proof fn lemma_trimmed_back(s: Seq<char>, to: int)
    requires
        0 <= to <= s.len(),
        forall|i: int| to <= i < s.len() ==> is_space(s[i]),
        to > 0 ==> !is_space(s[to - 1]),
    ensures
        trimmed_back(s) == s.subrange(0, to),
    decreases s.len() - to,
{
    if to == s.len() {
        assert(s.subrange(0, to) == s);
    } else {
        lemma_trimmed_back(s.drop_last(), to);
        assert(s.drop_last().subrange(0, to) == s.subrange(0, to));
    }
}

/// The text without the white space at either end.
pub fn trim(chars: &Vec<char>) -> (cut: Vec<char>)
    ensures
        cut@ == trimmed(chars@),
{
    let n = chars.len();
    let mut from: usize = 0;
    while from < n && is_white(chars[from])
        invariant
            n == chars.len(),
            from <= n,
            forall|i: int| 0 <= i < from ==> is_space(chars@[i]),
        decreases n - from,
    {
        from = from + 1;
    }
    let mut to: usize = n;
    while to > from && is_white(chars[to - 1])
        invariant
            n == chars.len(),
            from <= to <= n,
            forall|i: int| to <= i < n ==> is_space(chars@[i]),
        decreases to,
    {
        to = to - 1;
    }
    proof {
        let front = chars@.subrange(from as int, n as int);
        lemma_trimmed_front(chars@, from as int);
        lemma_trimmed_back(front, to - from);
        assert(front.subrange(0, to - from) == chars@.subrange(from as int, to as int));
    }
    slice_of(chars, from, to)
}

/// A piece of a query's text as it is read: without the whitespace
/// around it, in lower case.
pub open spec fn normal(piece: Seq<char>) -> Seq<char> {
    lowercase(trimmed(piece))
}

/// Trims a piece of a query's text and puts it in lower case.
pub fn normalise(piece: &Vec<char>) -> (word: String)
    ensures
        word@ == normal(piece@),
{
    let cut = trim(piece);
    string_of(&cut).as_str().to_lowercase()
}

/// The index of the first occurrence of `sep` in `s`, or `s.len()` when `s`
/// does not hold it.
pub open spec fn first_index(s: Seq<char>, sep: char) -> int
    decreases s.len(),
{
    if s.len() == 0 || s[0] == sep {
        0
    } else {
        1 + first_index(s.drop_first(), sep)
    }
}

/// `s` cut at occurrences of `sep` into at most `limit` pieces; the last piece
/// holds whatever is left, separators included.
pub open spec fn split_limited(s: Seq<char>, sep: char, limit: nat) -> Seq<Seq<char>>
    decreases limit,
{
    if limit == 0 {
        Seq::empty()
    } else if limit == 1 || first_index(s, sep) >= s.len() {
        seq![s]
    } else {
        let at = first_index(s, sep);
        seq![s.subrange(0, at)] + split_limited(
            s.subrange(at + 1, s.len() as int),
            sep,
            (limit - 1) as nat,
        )
    }
}

/// If `at` is the first position of `sep` at or after `from`, then it is where
/// `first_index` of the remainder points.
pub proof fn lemma_first_index_found(s: Seq<char>, sep: char, from: int, at: int)
    requires
        0 <= from <= at <= s.len(),
        forall|i: int| from <= i < at ==> s[i] != sep,
        at < s.len() ==> s[at] == sep,
    ensures
        first_index(s.subrange(from, s.len() as int), sep) == at - from,
    decreases at - from,
{
    let rest = s.subrange(from, s.len() as int);
    if from == at {
        if at < s.len() {
            assert(rest[0] == s[at]);
        }
    } else {
        assert(rest[0] == s[from]);
        assert(rest.drop_first() == s.subrange(from + 1, s.len() as int));
        lemma_first_index_found(s, sep, from + 1, at);
    }
}

/// The position of the first `sep` in `chars` at or after `from`, or the
/// length of `chars` when there is none.
pub fn find_from(chars: &Vec<char>, sep: char, from: usize) -> (at: usize)
    requires
        from <= chars.len(),
    ensures
        from <= at <= chars.len(),
        at - from == first_index(chars@.subrange(from as int, chars.len() as int), sep),
{
    let mut at: usize = from;
    while at < chars.len() && chars[at] != sep
        invariant
            from <= at <= chars.len(),
            forall|i: int| from <= i < at ==> chars@[i] != sep,
        decreases chars.len() - at,
    {
        at = at + 1;
    }
    proof {
        lemma_first_index_found(chars@, sep, from as int, at as int);
    }
    at
}

/// The characters of `chars` from `from` up to, not including, `to`.
pub fn slice_of(chars: &Vec<char>, from: usize, to: usize) -> (piece: Vec<char>)
    requires
        from <= to <= chars.len(),
    ensures
        piece@ == chars@.subrange(from as int, to as int),
{
    let mut piece: Vec<char> = Vec::new();
    let mut i: usize = from;
    while i < to
        invariant
            from <= i <= to <= chars.len(),
            piece@ == chars@.subrange(from as int, i as int),
        decreases to - i,
    {
        piece.push(chars[i]);
        i = i + 1;
    }
    piece
}

/// The texts that the character vectors hold, one for each.
pub open spec fn texts(words: Seq<Vec<char>>) -> Seq<Seq<char>> {
    words.map_values(|word: Vec<char>| word@)
}

/// Cuts `chars` at occurrences of `sep` into at most `limit` pieces, as
/// `split_limited` says.
pub fn split(chars: &Vec<char>, sep: char, limit: usize) -> (pieces: Vec<Vec<char>>)
    ensures
        texts(pieces@) == split_limited(chars@, sep, limit as nat),
        pieces.len() <= limit,
        limit > 0 ==> pieces.len() >= 1,
{
    let mut pieces: Vec<Vec<char>> = Vec::new();
    if limit == 0 {
        assert(texts(pieces@) == Seq::<Seq<char>>::empty());
        return pieces;
    }
    let n = chars.len();
    let mut from: usize = 0;
    let mut done = false;
    proof {
        assert(chars@.subrange(0, n as int) == chars@);
        assert(texts(pieces@) + split_limited(chars@, sep, limit as nat)
            == split_limited(chars@, sep, limit as nat));
    }
    while !done
        invariant
            n == chars.len(),
            from <= n,
            limit > 0,
            !done ==> pieces.len() < limit,
            done ==> 1 <= pieces.len() <= limit,
            !done ==> split_limited(chars@, sep, limit as nat) == texts(pieces@) + split_limited(
                chars@.subrange(from as int, n as int),
                sep,
                (limit - pieces.len()) as nat,
            ),
            done ==> split_limited(chars@, sep, limit as nat) == texts(pieces@),
        decreases n - from + (if done { 0int } else { 1int }),
    {
        let ghost before = texts(pieces@);
        let ghost rest = chars@.subrange(from as int, n as int);
        let at = find_from(chars, sep, from);
        if pieces.len() + 1 == limit || at >= n {
            let last = slice_of(chars, from, n);
            pieces.push(last);
            done = true;
            proof {
                assert(split_limited(rest, sep, (limit - before.len()) as nat) == seq![rest]);
                assert(texts(pieces@) == before + seq![rest]);
            }
        } else {
            let piece = slice_of(chars, from, at);
            pieces.push(piece);
            proof {
                let tail = chars@.subrange(at + 1, n as int);
                assert(rest.subrange(0, at - from) == chars@.subrange(from as int, at as int));
                assert(rest.subrange(at - from + 1, rest.len() as int) == tail);
                assert(split_limited(rest, sep, (limit - before.len()) as nat) == seq![
                    chars@.subrange(from as int, at as int),
                ] + split_limited(tail, sep, (limit - before.len() - 1) as nat));
                assert(texts(pieces@) == before + seq![
                    chars@.subrange(from as int, at as int),
                ]);
            }
            from = at + 1;
        }
    }
    pieces
}

} // verus!
