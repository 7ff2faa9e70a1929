//! Character-level text operations: trimming, splitting and comparing.
use vstd::prelude::*;

verus! {

/// Whether `c` is white space in the sense of `char::is_whitespace`.
pub uninterp spec fn is_whitespace(c: char) -> bool;

/// The lower-case form of `s` as `str::to_lowercase` gives it.
pub uninterp spec fn lowercase(s: Seq<char>) -> Seq<char>;

/// `s` without its leading white space.
pub open spec fn skip_leading(s: Seq<char>) -> Seq<char>
    decreases s.len(),
{
    if s.len() > 0 && is_whitespace(s[0]) {
        skip_leading(s.drop_first())
    } else {
        s
    }
}

/// `s` without its trailing white space.
pub open spec fn skip_trailing(s: Seq<char>) -> Seq<char>
    decreases s.len(),
{
    if s.len() > 0 && is_whitespace(s.last()) {
        skip_trailing(s.drop_last())
    } else {
        s
    }
}

/// `s` without leading and trailing white space.
pub open spec fn trimmed(s: Seq<char>) -> Seq<char> {
    skip_trailing(skip_leading(s))
}

/// The run of characters after the last `sep` in `s`.
pub open spec fn open_piece(s: Seq<char>, sep: char) -> Seq<char>
    decreases s.len(),
{
    if s.len() == 0 || s.last() == sep {
        Seq::empty()
    } else {
        open_piece(s.drop_last(), sep).push(s.last())
    }
}

/// The pieces of `s` that a `sep` has closed, in order.
pub open spec fn closed_pieces(s: Seq<char>, sep: char) -> Seq<Seq<char>>
    decreases s.len(),
{
    if s.len() == 0 {
        Seq::empty()
    } else if s.last() == sep {
        closed_pieces(s.drop_last(), sep).push(open_piece(s.drop_last(), sep))
    } else {
        closed_pieces(s.drop_last(), sep)
    }
}

/// `s` cut at every `sep`: one piece more than there are separators, empty
/// pieces included.
pub open spec fn pieces(s: Seq<char>, sep: char) -> Seq<Seq<char>> {
    closed_pieces(s, sep).push(open_piece(s, sep))
}

/// The run of characters that are not white space at the end of `s`.
pub open spec fn open_word(s: Seq<char>) -> Seq<char>
    decreases s.len(),
{
    if s.len() == 0 || is_whitespace(s.last()) {
        Seq::empty()
    } else {
        open_word(s.drop_last()).push(s.last())
    }
}

/// The words of `s` that white space has closed, in order.
pub open spec fn closed_words(s: Seq<char>) -> Seq<Seq<char>>
    decreases s.len(),
{
    if s.len() == 0 {
        Seq::empty()
    } else if is_whitespace(s.last()) && open_word(s.drop_last()).len() > 0 {
        closed_words(s.drop_last()).push(open_word(s.drop_last()))
    } else {
        closed_words(s.drop_last())
    }
}

/// The maximal runs of characters of `s` that are not white space, in order.
pub open spec fn words(s: Seq<char>) -> Seq<Seq<char>> {
    if open_word(s).len() > 0 {
        closed_words(s).push(open_word(s))
    } else {
        closed_words(s)
    }
}

/// Each piece trimmed.
pub open spec fn trimmed_each(ps: Seq<Seq<char>>) -> Seq<Seq<char>> {
    Seq::new(ps.len(), |i: int| trimmed(ps[i]))
}

/// The pieces that are not empty, in order.
pub open spec fn non_empty(ps: Seq<Seq<char>>) -> Seq<Seq<char>>
    decreases ps.len(),
{
    if ps.len() == 0 {
        Seq::empty()
    } else if ps.last().len() > 0 {
        non_empty(ps.drop_last()).push(ps.last())
    } else {
        non_empty(ps.drop_last())
    }
}

/// The length of `s` in bytes of UTF-8, as `str::len` reports it.
pub open spec fn byte_length(s: Seq<char>) -> usize {
    vstd::utf8::encode_utf8(s).len() as usize
}

/// The texts that a vector of character vectors holds.
pub open spec fn texts(v: Seq<Vec<char>>) -> Seq<Seq<char>> {
    Seq::new(v.len(), |i: int| v[i]@)
}

/// Wraps `char::is_whitespace`: the answer is the one that `is_whitespace`
/// names.
#[verifier::external_body]
pub(crate) fn is_space(c: char) -> (b: bool)
    ensures
        b == is_whitespace(c),
{
    c.is_whitespace()
}

/// Wraps `str::to_lowercase`, between character vectors: the result is the
/// text that `lowercase` names.
#[verifier::external_body]
pub(crate) fn to_lower(v: &Vec<char>) -> (r: Vec<char>)
    ensures
        r@ == lowercase(v@),
{
    v.iter().collect::<String>().to_lowercase().chars().collect()
}

/// Wraps `str::chars`: the characters of `s`, in order.
#[verifier::external_body]
pub(crate) fn chars_of(s: &str) -> (r: Vec<char>)
    ensures
        r@ == s@,
{
    s.chars().collect()
}

/// Wraps `String::from_iter` over characters: the string made of `v`'s
/// characters, in order.
#[verifier::external_body]
pub(crate) fn string_of(v: &Vec<char>) -> (r: String)
    ensures
        r@ == v@,
{
    v.iter().collect()
}

/// The characters of `v` from `from` up to `to`.
pub(crate) fn slice_of(v: &Vec<char>, from: usize, to: usize) -> (r: Vec<char>)
    requires
        from <= to <= v.len(),
    ensures
        r@ == v@.subrange(from as int, to as int),
{
    let mut r: Vec<char> = Vec::new();
    let mut i: usize = from;
    while i < to
        invariant
            from <= i <= to <= v.len(),
            r@ == v@.subrange(from as int, i as int),
        decreases to - i,
    {
        r.push(v[i]);
        i = i + 1;
        assert(r@ =~= v@.subrange(from as int, i as int));
    }
    r
}

/// Whether two character vectors hold the same text.
pub(crate) fn same_chars(a: &Vec<char>, b: &Vec<char>) -> (r: bool)
    ensures
        r == (a@ == b@),
{
    if a.len() != b.len() {
        return false;
    }
    let mut i: usize = 0;
    while i < a.len()
        invariant
            a.len() == b.len(),
            i <= a.len(),
            forall|k: int| 0 <= k < i ==> a@[k] == b@[k],
        decreases a.len() - i,
    {
        if a[i] != b[i] {
            return false;
        }
        i = i + 1;
    }
    assert(a@ =~= b@);
    true
}

/// Whether `v` holds exactly the text `lit`.
pub(crate) fn is_text(v: &Vec<char>, lit: &str) -> (r: bool)
    ensures
        r == (v@ == lit@),
{
    let l = chars_of(lit);
    same_chars(v, &l)
}

/// Whether `c` occurs in `v`.
pub(crate) fn has_char(v: &Vec<char>, c: char) -> (r: bool)
    ensures
        r == v@.contains(c),
{
    let mut i: usize = 0;
    while i < v.len()
        invariant
            i <= v.len(),
            forall|k: int| 0 <= k < i ==> v@[k] != c,
        decreases v.len() - i,
    {
        if v[i] == c {
            return true;
        }
        i = i + 1;
    }
    false
}

/// `v` without leading and trailing white space.
pub(crate) fn trim_chars(v: &Vec<char>) -> (r: Vec<char>)
    ensures
        r@ == trimmed(v@),
{
    let n = v.len();
    let mut a: usize = 0;
    assert(v@.subrange(0, n as int) =~= v@);
    while a < n && is_space(v[a])
        invariant
            a <= n == v.len(),
            skip_leading(v@) == skip_leading(v@.subrange(a as int, n as int)),
        decreases n - a,
    {
        assert(v@.subrange(a as int, n as int).drop_first() =~= v@.subrange(a + 1, n as int));
        a = a + 1;
    }
    let ghost rest = v@.subrange(a as int, n as int);
    assert(skip_leading(v@) == rest);
    let mut b: usize = n;
    while b > a && is_space(v[b - 1])
        invariant
            a <= b <= n == v.len(),
            rest == v@.subrange(a as int, n as int),
            skip_trailing(rest) == skip_trailing(v@.subrange(a as int, b as int)),
        decreases b - a,
    {
        assert(v@.subrange(a as int, b as int).drop_last() =~= v@.subrange(a as int, b - 1));
        b = b - 1;
    }
    slice_of(v, a, b)
}

/// `v` cut at every `sep`.
pub(crate) fn split_chars(v: &Vec<char>, sep: char) -> (r: Vec<Vec<char>>)
    ensures
        texts(r@) == pieces(v@, sep),
{
    let mut out: Vec<Vec<char>> = Vec::new();
    let mut cur: Vec<char> = Vec::new();
    let mut i: usize = 0;
    assert(v@.subrange(0, 0) =~= Seq::<char>::empty());
    assert(texts(out@) =~= closed_pieces(v@.subrange(0, 0), sep));
    while i < v.len()
        invariant
            i <= v.len(),
            texts(out@) == closed_pieces(v@.subrange(0, i as int), sep),
            cur@ == open_piece(v@.subrange(0, i as int), sep),
        decreases v.len() - i,
    {
        let c = v[i];
        assert(v@.subrange(0, i + 1).drop_last() =~= v@.subrange(0, i as int));
        if c == sep {
            let ghost before = texts(out@);
            out.push(cur);
            assert(texts(out@) =~= before.push(cur@));
            cur = Vec::new();
        } else {
            cur.push(c);
        }
        i = i + 1;
    }
    assert(v@.subrange(0, i as int) =~= v@);
    let ghost before = texts(out@);
    out.push(cur);
    assert(texts(out@) =~= before.push(cur@));
    out
}

/// The words of `v`: its maximal runs of characters that are not white space.
pub(crate) fn split_words(v: &Vec<char>) -> (r: Vec<Vec<char>>)
    ensures
        texts(r@) == words(v@),
{
    let mut out: Vec<Vec<char>> = Vec::new();
    let mut cur: Vec<char> = Vec::new();
    let mut i: usize = 0;
    assert(v@.subrange(0, 0) =~= Seq::<char>::empty());
    assert(texts(out@) =~= closed_words(v@.subrange(0, 0)));
    while i < v.len()
        invariant
            i <= v.len(),
            texts(out@) == closed_words(v@.subrange(0, i as int)),
            cur@ == open_word(v@.subrange(0, i as int)),
        decreases v.len() - i,
    {
        let c = v[i];
        assert(v@.subrange(0, i + 1).drop_last() =~= v@.subrange(0, i as int));
        if is_space(c) {
            if cur.len() > 0 {
                let ghost before = texts(out@);
                out.push(cur);
                assert(texts(out@) =~= before.push(cur@));
                cur = Vec::new();
            }
        } else {
            cur.push(c);
        }
        i = i + 1;
    }
    assert(v@.subrange(0, i as int) =~= v@);
    if cur.len() > 0 {
        let ghost before = texts(out@);
        out.push(cur);
        assert(texts(out@) =~= before.push(cur@));
    }
    out
}

/// Each piece trimmed, empty pieces included.
pub(crate) fn trim_each(ps: &Vec<Vec<char>>) -> (r: Vec<Vec<char>>)
    ensures
        texts(r@) == trimmed_each(texts(ps@)),
{
    let mut out: Vec<Vec<char>> = Vec::new();
    let mut i: usize = 0;
    while i < ps.len()
        invariant
            i <= ps.len(),
            out.len() == i,
            forall|k: int| 0 <= k < i ==> out@[k]@ == trimmed(ps@[k]@),
        decreases ps.len() - i,
    {
        out.push(trim_chars(&ps[i]));
        i = i + 1;
    }
    assert(texts(out@) =~= trimmed_each(texts(ps@)));
    out
}

/// The pieces that are not empty, in order.
pub(crate) fn drop_empty(ps: Vec<Vec<char>>) -> (r: Vec<Vec<char>>)
    ensures
        texts(r@) == non_empty(texts(ps@)),
{
    let mut out: Vec<Vec<char>> = Vec::new();
    let mut i: usize = 0;
    assert(texts(ps@).subrange(0, 0) =~= Seq::<Seq<char>>::empty());
    assert(texts(out@) =~= non_empty(texts(ps@).subrange(0, 0)));
    while i < ps.len()
        invariant
            i <= ps.len(),
            texts(out@) == non_empty(texts(ps@).subrange(0, i as int)),
        decreases ps.len() - i,
    {
        assert(texts(ps@).subrange(0, i + 1).drop_last() =~= texts(ps@).subrange(0, i as int));
        if ps[i].len() > 0 {
            let ghost before = texts(out@);
            out.push(ps[i].clone());
            assert(texts(out@) =~= before.push(ps@[i as int]@));
        }
        i = i + 1;
    }
    assert(texts(ps@).subrange(0, i as int) =~= texts(ps@));
    out
}

/// What is left after the leading white space is empty or starts with a
/// character that is not white space.
pub proof fn skip_leading_stops(s: Seq<char>)
    ensures
        skip_leading(s).len() == 0 || !is_whitespace(skip_leading(s)[0]),
    decreases s.len(),
{
    if s.len() > 0 && is_whitespace(s[0]) {
        skip_leading_stops(s.drop_first());
    }
}

/// What is left after the trailing white space is empty or ends with a
/// character that is not white space, and starts as the text did.
pub proof fn skip_trailing_stops(s: Seq<char>)
    ensures
        skip_trailing(s).len() == 0 || !is_whitespace(skip_trailing(s).last()),
        skip_trailing(s).len() > 0 ==> skip_trailing(s)[0] == s[0],
    decreases s.len(),
{
    if s.len() > 0 && is_whitespace(s.last()) {
        skip_trailing_stops(s.drop_last());
    }
}

/// Trimming a trimmed text changes nothing.
pub proof fn trimmed_twice(s: Seq<char>)
    ensures
        trimmed(trimmed(s)) == trimmed(s),
{
    skip_leading_stops(s);
    skip_trailing_stops(skip_leading(s));
    trimmed_keeps(trimmed(s));
}

/// Trimming changes no text that has no white space at its two ends.
pub proof fn trimmed_keeps(s: Seq<char>)
    requires
        s.len() > 0 ==> !is_whitespace(s[0]) && !is_whitespace(s.last()),
    ensures
        trimmed(s) == s,
{
}

} // verus!
