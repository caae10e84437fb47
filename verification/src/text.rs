//! Text as sequences of characters: the model and the scanning primitives
//! that the codec and the routes are built from.

use vstd::prelude::*;

verus! {

/// `String::push` of std: appends one character to the end of the string.
pub assume_specification[ String::push ](s: &mut String, c: char)
    ensures
        final(s)@ == old(s)@.push(c),
;

/// `String::from_utf8` of std: the text that the bytes encode in UTF-8, and
/// none where they are no valid UTF-8.
#[verifier::external_body]
pub(crate) fn utf8_text(bytes: Vec<u8>) -> (r: Option<String>)
    ensures
        r is Some <==> vstd::utf8::valid_utf8(bytes@),
        r matches Some(s) ==> s@ == vstd::utf8::decode_utf8(bytes@),
{
    String::from_utf8(bytes).ok()
}

/// Position of the first `c` in `s`, or `s.len()` where `s` holds none.
pub open spec fn find_char(s: Seq<char>, c: char) -> int
    decreases s.len(),
{
    if s.len() == 0 || s[0] == c {
        0
    } else {
        1 + find_char(s.drop_first(), c)
    }
}

/// Position of the first `a` directly followed by `b` in `s`, or `s.len()`
/// where `s` holds no such pair.
pub open spec fn find_pair(s: Seq<char>, a: char, b: char) -> int
    decreases s.len(),
{
    if s.len() < 2 {
        s.len() as int
    } else if s[0] == a && s[1] == b {
        0
    } else {
        1 + find_pair(s.drop_first(), a, b)
    }
}

/// Whether `a` directly followed by `b` stands at position `j` of `s`.
pub open spec fn pair_at(s: Seq<char>, j: int, a: char, b: char) -> bool {
    0 <= j && j + 1 < s.len() && s[j] == a && s[j + 1] == b
}

/// What stands after the last `c` in `s`: the whole of `s` where it holds
/// none.
pub open spec fn after_last(s: Seq<char>, c: char) -> Seq<char>
    decreases s.len(),
{
    let i = find_char(s, c);
    if 0 <= i && i < s.len() {
        after_last(s.skip(i + 1), c)
    } else {
        s
    }
}

/// What a list of strings holds.
pub open spec fn string_views(ss: Seq<String>) -> Seq<Seq<char>> {
    ss.map_values(|s: String| s@)
}

/// A line without the carriage return that stood before its line feed.
pub open spec fn strip_cr(line: Seq<char>) -> Seq<char> {
    if line.len() > 0 && line.last() == '\r' {
        line.drop_last()
    } else {
        line
    }
}

/// The lines of `s`. A line ends at a line feed, or at a carriage return
/// followed by a line feed; neither belongs to the line. The last line needs
/// no line ending, and a text that ends in one has no empty line after it.
pub open spec fn lines(s: Seq<char>) -> Seq<Seq<char>>
    decreases s.len(),
{
    if s.len() == 0 {
        Seq::empty()
    } else {
        let i = find_char(s, '\n');
        if 0 <= i && i < s.len() {
            seq![strip_cr(s.take(i))].add(lines(s.skip(i + 1)))
        } else {
            seq![s]
        }
    }
}

/// The lines put together again, with one line feed between two neighbours.
pub open spec fn join_lines(ls: Seq<Seq<char>>) -> Seq<char>
    decreases ls.len(),
{
    if ls.len() == 0 {
        Seq::empty()
    } else if ls.len() == 1 {
        ls[0]
    } else {
        join_lines(ls.drop_last()).push('\n').add(ls.last())
    }
}

/// What a vector of owned lines holds.
pub open spec fn texts(ls: Seq<Vec<char>>) -> Seq<Seq<char>> {
    ls.map_values(|l: Vec<char>| l@)
}

/// The decimal digit for a value below ten.
pub open spec fn digit(d: int) -> char {
    if d == 0 {
        '0'
    } else if d == 1 {
        '1'
    } else if d == 2 {
        '2'
    } else if d == 3 {
        '3'
    } else if d == 4 {
        '4'
    } else if d == 5 {
        '5'
    } else if d == 6 {
        '6'
    } else if d == 7 {
        '7'
    } else if d == 8 {
        '8'
    } else {
        '9'
    }
}

/// `n` in decimal notation, without leading zeros.
pub open spec fn decimal(n: nat) -> Seq<char>
    decreases n,
{
    if n < 10 {
        seq![digit(n as int)]
    } else {
        decimal(n / 10).push(digit((n % 10) as int))
    }
}

pub proof fn lemma_find_char(s: Seq<char>, c: char)
    ensures
        0 <= find_char(s, c) <= s.len(),
        forall|j: int| 0 <= j < find_char(s, c) ==> s[j] != c,
        find_char(s, c) < s.len() ==> s[find_char(s, c)] == c,
    decreases s.len(),
{
    if s.len() == 0 || s[0] == c {
    } else {
        let t = s.drop_first();
        lemma_find_char(t, c);
        assert forall|j: int| 0 <= j < find_char(s, c) implies s[j] != c by {
            if j > 0 {
                assert(t[j - 1] == s[j]);
            }
        }
        if find_char(t, c) < t.len() {
            assert(t[find_char(t, c)] == s[find_char(t, c) + 1]);
        }
    }
}

/// The position that `find_char` gives is the only one with no `c` before it
/// that holds `c` or is the end.
pub proof fn lemma_find_char_is(s: Seq<char>, c: char, i: int)
    requires
        0 <= i <= s.len(),
        forall|j: int| 0 <= j < i ==> s[j] != c,
        i < s.len() ==> s[i] == c,
    ensures
        find_char(s, c) == i,
    decreases s.len(),
{
    if s.len() == 0 || s[0] == c {
    } else {
        let t = s.drop_first();
        assert forall|j: int| 0 <= j < i - 1 implies t[j] != c by {
            assert(t[j] == s[j + 1]);
        }
        if i < s.len() {
            assert(t[i - 1] == s[i]);
        }
        lemma_find_char_is(t, c, i - 1);
    }
}

pub proof fn lemma_find_pair(s: Seq<char>, a: char, b: char)
    ensures
        0 <= find_pair(s, a, b) <= s.len(),
        forall|j: int| 0 <= j < find_pair(s, a, b) ==> !pair_at(s, j, a, b),
        find_pair(s, a, b) < s.len() ==> pair_at(s, find_pair(s, a, b), a, b),
    decreases s.len(),
{
    if s.len() < 2 {
    } else if s[0] == a && s[1] == b {
    } else {
        let t = s.drop_first();
        lemma_find_pair(t, a, b);
        let k = find_pair(t, a, b);
        assert forall|j: int| 0 <= j < find_pair(s, a, b) implies !pair_at(s, j, a, b) by {
            if j > 0 {
                assert(!pair_at(t, j - 1, a, b));
                if j + 1 < s.len() {
                    assert(t[j - 1] == s[j]);
                    assert(t[j] == s[j + 1]);
                }
            }
        }
        if k < t.len() {
            assert(pair_at(t, k, a, b));
            assert(t[k] == s[k + 1]);
            assert(t[k + 1] == s[k + 2]);
        }
    }
}

/// The position that `find_pair` gives is the only one with no pair before
/// it that holds the pair or is the end.
pub proof fn lemma_find_pair_is(s: Seq<char>, a: char, b: char, i: int)
    requires
        0 <= i <= s.len(),
        forall|j: int| 0 <= j < i ==> !pair_at(s, j, a, b),
        i < s.len() ==> pair_at(s, i, a, b),
    ensures
        find_pair(s, a, b) == i,
    decreases s.len(),
{
    if s.len() < 2 {
        if i < s.len() {
            assert(pair_at(s, i, a, b));
        }
    } else if s[0] == a && s[1] == b {
        if i > 0 {
            assert(pair_at(s, 0, a, b));
        }
    } else {
        let t = s.drop_first();
        if i == 0 {
            assert(pair_at(s, 0, a, b));
        }
        assert forall|j: int| 0 <= j < i - 1 implies !pair_at(t, j, a, b) by {
            assert(!pair_at(s, j + 1, a, b));
            if j + 1 < t.len() {
                assert(t[j] == s[j + 1]);
                assert(t[j + 1] == s[j + 2]);
            }
        }
        if i < s.len() {
            assert(pair_at(s, i, a, b));
            assert(t[i - 1] == s[i]);
            assert(t[i] == s[i + 1]);
        }
        lemma_find_pair_is(t, a, b, i - 1);
    }
}

/// The characters of `s`, in order.
pub fn chars_of(s: &str) -> (v: Vec<char>)
    ensures
        v@ == s@,
{
    let mut v: Vec<char> = Vec::new();
    for c in it: s.chars()
        invariant
            it.seq() == s@,
            v@ == it.seq().take(it.index()),
    {
        v.push(c);
    }
    v
}

/// A string that holds the characters of `v`.
pub fn string_of(v: &Vec<char>) -> (s: String)
    ensures
        s@ == v@,
{
    let mut s = String::new();
    let mut i: usize = 0;
    while i < v.len()
        invariant
            i <= v.len(),
            s@ == v@.take(i as int),
        decreases v.len() - i,
    {
        s.push(v[i]);
        i += 1;
    }
    s
}

/// The characters of `v` from `from` up to `to`.
pub fn slice_of(v: &Vec<char>, from: usize, to: usize) -> (r: Vec<char>)
    requires
        from <= to <= v.len(),
    ensures
        r@ == v@.subrange(from as int, to as int),
{
    let mut r: Vec<char> = Vec::new();
    let mut i: usize = from;
    while i < to
        invariant
            from <= i <= to <= v.len(),
            r@ == v@.subrange(from as int, i as int),
        decreases to - i,
    {
        r.push(v[i]);
        i += 1;
    }
    r
}

/// Appends the characters of `more` to `acc`.
pub fn push_all(acc: &mut Vec<char>, more: &Vec<char>)
    ensures
        final(acc)@ == old(acc)@ + more@,
{
    let mut i: usize = 0;
    while i < more.len()
        invariant
            i <= more.len(),
            acc@ == old(acc)@ + more@.take(i as int),
        decreases more.len() - i,
    {
        acc.push(more[i]);
        i += 1;
    }
}

/// Appends the characters of `more` to `acc`.
pub fn push_str(acc: &mut Vec<char>, more: &str)
    ensures
        final(acc)@ == old(acc)@ + more@,
{
    let m = chars_of(more);
    push_all(acc, &m);
}

/// Whether two texts hold the same characters.
pub fn same_text(a: &Vec<char>, b: &Vec<char>) -> (r: bool)
    ensures
        r == (a@ == b@),
{
    if a.len() != b.len() {
        return false;
    }
    let mut i: usize = 0;
    while i < a.len()
        invariant
            i <= a.len(),
            a.len() == b.len(),
            a@.take(i as int) == b@.take(i as int),
        decreases a.len() - i,
    {
        if a[i] != b[i] {
            return false;
        }
        assert(a@.take(i + 1) == a@.take(i as int).push(a@[i as int]));
        assert(b@.take(i + 1) == b@.take(i as int).push(b@[i as int]));
        i += 1;
    }
    assert(a@ == a@.take(a.len() as int));
    assert(b@ == b@.take(b.len() as int));
    true
}

/// Whether `a` holds exactly the characters of `b`.
pub fn text_is(a: &Vec<char>, b: &str) -> (r: bool)
    ensures
        r == (a@ == b@),
{
    let w = chars_of(b);
    same_text(a, &w)
}

/// Whether `s` ends with `suffix`.
pub fn ends_with(s: &Vec<char>, suffix: &Vec<char>) -> (r: bool)
    ensures
        r == suffix@.is_suffix_of(s@),
{
    if suffix.len() > s.len() {
        return false;
    }
    let tail = slice_of(s, s.len() - suffix.len(), s.len());
    same_text(&tail, suffix)
}

/// Position of the first `c` in `v` at or after `from`, or `v.len()`.
pub fn find_char_from(v: &Vec<char>, from: usize, c: char) -> (i: usize)
    requires
        from <= v.len(),
    ensures
        from <= i <= v.len(),
        i - from == find_char(v@.skip(from as int), c),
{
    let mut i: usize = from;
    while i < v.len() && v[i] != c
        invariant
            from <= i <= v.len(),
            forall|j: int| from <= j < i ==> v@[j] != c,
        decreases v.len() - i,
    {
        i += 1;
    }
    proof {
        lemma_find_char_is(v@.skip(from as int), c, i - from);
    }
    i
}

/// Position of the first `a` directly followed by `b` in `v`, or `v.len()`.
pub fn find_pair_in(v: &Vec<char>, a: char, b: char) -> (i: usize)
    ensures
        i == find_pair(v@, a, b),
{
    if v.len() < 2 {
        proof {
            lemma_find_pair_is(v@, a, b, v.len() as int);
        }
        return v.len();
    }
    let mut i: usize = 0;
    while i < v.len() - 1
        invariant
            2 <= v.len(),
            i <= v.len() - 1,
            forall|j: int| 0 <= j < i ==> !pair_at(v@, j, a, b),
        decreases v.len() - i,
    {
        if v[i] == a && v[i + 1] == b {
            proof {
                lemma_find_pair_is(v@, a, b, i as int);
            }
            return i;
        }
        i += 1;
    }
    proof {
        lemma_find_pair_is(v@, a, b, v.len() as int);
    }
    v.len()
}

/// What stands after the last `c` in `v`.
pub fn after_last_in(v: &Vec<char>, c: char) -> (r: Vec<char>)
    ensures
        r@ == after_last(v@, c),
{
    let mut pos: usize = 0;
    proof {
        assert(v@.skip(0) == v@);
    }
    loop
        invariant_except_break
            pos <= v.len(),
            after_last(v@, c) == after_last(v@.skip(pos as int), c),
        ensures
            pos <= v.len(),
            after_last(v@, c) == v@.skip(pos as int),
        decreases v.len() - pos,
    {
        let i = find_char_from(v, pos, c);
        if i >= v.len() {
            break ;
        }
        proof {
            assert(v@.skip(pos as int).skip(i - pos + 1) == v@.skip(i + 1));
        }
        pos = i + 1;
    }
    proof {
        assert(v@.skip(pos as int) == v@.subrange(pos as int, v.len() as int));
    }
    slice_of(v, pos, v.len())
}

/// The lines of `v`, each as a text of its own.
pub fn split_lines(v: &Vec<char>) -> (out: Vec<Vec<char>>)
    ensures
        texts(out@) == lines(v@),
{
    let mut out: Vec<Vec<char>> = Vec::new();
    let mut pos: usize = 0;
    proof {
        assert(v@.skip(0) == v@);
        assert(texts(out@) + lines(v@) == lines(v@));
    }
    while pos < v.len()
        invariant
            pos <= v.len(),
            lines(v@) == texts(out@) + lines(v@.skip(pos as int)),
        decreases v.len() - pos,
    {
        let ghost rest = v@.skip(pos as int);
        let i = find_char_from(v, pos, '\n');
        if i < v.len() {
            let end = if i > pos && v[i - 1] == '\r' {
                i - 1
            } else {
                i
            };
            let line = slice_of(v, pos, end);
            proof {
                assert(rest.take(i - pos) == v@.subrange(pos as int, i as int));
                assert(line@ == strip_cr(rest.take(i - pos)));
                assert(rest.skip(i - pos + 1) == v@.skip(i + 1));
                assert(texts(out@.push(line)) == texts(out@).push(line@));
            }
            out.push(line);
            pos = i + 1;
        } else {
            let line = slice_of(v, pos, v.len());
            proof {
                assert(line@ == rest);
                assert(lines(rest) == seq![rest]);
                assert(lines(v@.skip(v.len() as int)) == Seq::<Seq<char>>::empty());
                assert(texts(out@.push(line)) == texts(out@).push(line@));
            }
            out.push(line);
            pos = v.len();
        }
    }
    proof {
        assert(lines(v@.skip(pos as int)) == Seq::<Seq<char>>::empty());
    }
    out
}

/// The lines of `ls` from `from` on, joined by line feeds.
pub fn join_from(ls: &Vec<Vec<char>>, from: usize) -> (r: Vec<char>)
    requires
        from <= ls.len(),
    ensures
        r@ == join_lines(texts(ls@).skip(from as int)),
{
    let mut r: Vec<char> = Vec::new();
    let mut k: usize = from;
    while k < ls.len()
        invariant
            from <= k <= ls.len(),
            r@ == join_lines(texts(ls@).subrange(from as int, k as int)),
        decreases ls.len() - k,
    {
        let ghost before = texts(ls@).subrange(from as int, k as int);
        let ghost after = texts(ls@).subrange(from as int, k + 1);
        proof {
            assert(after.drop_last() == before);
            assert(after.last() == ls@[k as int]@);
        }
        if k > from {
            r.push('\n');
        }
        push_all(&mut r, &ls[k]);
        proof {
            if k == from {
                assert(r@ == ls@[k as int]@);
            }
        }
        k += 1;
    }
    proof {
        assert(texts(ls@).subrange(from as int, ls.len() as int) == texts(ls@).skip(from as int));
    }
    r
}

/// The digit character for a value below ten.
pub fn digit_char(d: u8) -> (c: char)
    requires
        d < 10,
    ensures
        c == digit(d as int),
{
    if d == 0 {
        '0'
    } else if d == 1 {
        '1'
    } else if d == 2 {
        '2'
    } else if d == 3 {
        '3'
    } else if d == 4 {
        '4'
    } else if d == 5 {
        '5'
    } else if d == 6 {
        '6'
    } else if d == 7 {
        '7'
    } else if d == 8 {
        '8'
    } else {
        '9'
    }
}

/// Appends `n` in decimal notation to `acc`.
pub fn push_decimal(acc: &mut Vec<char>, n: usize)
    ensures
        final(acc)@ == old(acc)@ + decimal(n as nat),
    decreases n,
{
    if n >= 10 {
        push_decimal(acc, n / 10);
    }
    let d: usize = n % 10;
    let c = digit_char(d as u8);
    acc.push(c);
    proof {
        if n < 10 {
            assert(old(acc)@.push(c) == old(acc)@ + seq![c]);
        } else {
            assert((old(acc)@ + decimal((n / 10) as nat)).push(c) == old(acc)@ + decimal(
                (n / 10) as nat,
            ).push(c));
        }
    }
}

} // verus!
