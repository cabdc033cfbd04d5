//! Character-level helpers on strings: building strings from characters,
//! decimal rendering of integers, substring search and splitting.

use vstd::prelude::*;

verus! {

/// `String::push`: appends one character to the string.
#[verifier::external_body]
pub fn push_char(s: &mut String, c: char)
    ensures
        final(s)@ == old(s)@.push(c),
{
    s.push(c);
}

/// Copies the characters of a string slice into a vector.
pub fn chars_of(s: &str) -> (v: Vec<char>)
    ensures
        v@ == s@,
{
    let mut v: Vec<char> = Vec::new();
    for c in it: s.chars()
        invariant
            v@ == it.seq().take(it.index()),
    {
        v.push(c);
    }
    v
}

/// Builds a string from a vector of characters.
pub fn string_from_chars(v: &Vec<char>) -> (s: String)
    ensures
        s@ == v@,
{
    let mut s = String::new();
    let mut i: usize = 0;
    while i < v.len()
        invariant
            i <= v.len(),
            s@ == v@.take(i as int),
        decreases v.len() - i,
    {
        push_char(&mut s, v[i]);
        i = i + 1;
        assert(s@ =~= v@.take(i as int));
    }
    assert(v@.take(v.len() as int) =~= v@);
    s
}

/// The decimal digit character for `d`.
pub open spec fn digit_char(d: nat) -> char {
    seq!['0', '1', '2', '3', '4', '5', '6', '7', '8', '9'][d as int]
}

/// The decimal rendering of `n`, without sign or leading zeros.
pub open spec fn decimal_text(n: nat) -> Seq<char>
    decreases n,
{
    if n < 10 {
        seq![digit_char(n)]
    } else {
        decimal_text(n / 10).push(digit_char(n % 10))
    }
}

/// The number that a text of decimal digits stands for.
pub open spec fn decimal_value(s: Seq<char>) -> int
    decreases s.len(),
{
    if s.len() == 0 {
        0
    } else {
        decimal_value(s.drop_last()) * 10 + ((s.last() as int) - 48)
    }
}

/// The digit characters are the ASCII digits `0` to `9`, in order.
pub proof fn lemma_digit_char(d: nat)
    requires
        d < 10,
    ensures
        (digit_char(d) as int) == 48 + d,
{
}

/// The decimal rendering of `n` is made of ASCII digits, starts with a
/// nonzero digit unless `n` is 0, and reads back as `n`.
pub proof fn lemma_decimal_text(n: nat)
    ensures
        decimal_value(decimal_text(n)) == n,
        decimal_text(n).len() >= 1,
        forall|i: int|
            0 <= i < decimal_text(n).len() ==> 48 <= (#[trigger] decimal_text(n)[i] as int) < 58,
        n > 0 ==> decimal_text(n)[0] != '0',
    decreases n,
{
    if n < 10 {
        lemma_digit_char(n);
        assert(decimal_text(n) =~= seq![digit_char(n)]);
        assert(decimal_text(n).drop_last() =~= Seq::<char>::empty());
        assert(decimal_value(Seq::<char>::empty()) == 0);
        assert(decimal_value(decimal_text(n)) == decimal_value(Seq::<char>::empty()) * 10 + (
        (digit_char(n) as int) - 48));
    } else {
        lemma_decimal_text(n / 10);
        lemma_digit_char(n % 10);
        let prefix = decimal_text(n / 10);
        let t = decimal_text(n);
        assert(t == prefix.push(digit_char(n % 10)));
        assert(t.drop_last() =~= prefix);
        assert(t.last() == digit_char(n % 10));
        assert(n == (n / 10) * 10 + n % 10);
        assert(decimal_value(t) == decimal_value(prefix) * 10 + ((digit_char(n % 10) as int) - 48));
        assert forall|i: int| 0 <= i < t.len() implies 48 <= (#[trigger] t[i] as int) < 58 by {
            if i < prefix.len() {
                assert(t[i] == prefix[i]);
            }
        }
        assert(t[0] == prefix[0]);
    }
}

fn digit(d: u64) -> (c: char)
    requires
        d < 10,
    ensures
        c == digit_char(d as nat),
{
    match d {
        0 => '0',
        1 => '1',
        2 => '2',
        3 => '3',
        4 => '4',
        5 => '5',
        6 => '6',
        7 => '7',
        8 => '8',
        _ => '9',
    }
}

/// Renders `n` in decimal, as `n.to_string()` does for unsigned integers.
pub fn decimal_string(n: u64) -> (s: String)
    ensures
        s@ == decimal_text(n as nat),
    decreases n,
{
    if n < 10 {
        let mut s = String::new();
        push_char(&mut s, digit(n));
        assert(s@ =~= decimal_text(n as nat));
        s
    } else {
        let mut s = decimal_string(n / 10);
        push_char(&mut s, digit(n % 10));
        s
    }
}

/// Whether `needle` occurs in `hay` at position `i`.
pub open spec fn occurs_at(hay: Seq<char>, needle: Seq<char>, i: int) -> bool {
    0 <= i && i + needle.len() <= hay.len() && hay.subrange(i, i + needle.len()) == needle
}

/// Whether `needle` occurs anywhere in `hay`, as `str::contains` decides.
pub open spec fn contains_text(hay: Seq<char>, needle: Seq<char>) -> bool {
    exists|i: int| occurs_at(hay, needle, i)
}

fn matches_at(hay: &Vec<char>, needle: &Vec<char>, i: usize) -> (b: bool)
    requires
        i + needle.len() <= hay.len(),
    ensures
        b == occurs_at(hay@, needle@, i as int),
{
    let mut j: usize = 0;
    while j < needle.len()
        invariant
            i + needle.len() <= hay.len(),
            j <= needle.len(),
            forall|k: int| 0 <= k < j ==> hay@[i + k] == needle@[k],
        decreases needle.len() - j,
    {
        if hay[i + j] != needle[j] {
            assert(hay@.subrange(i as int, i + needle.len())[j as int] != needle@[j as int]);
            return false;
        }
        j = j + 1;
    }
    assert(hay@.subrange(i as int, i + needle.len()) =~= needle@);
    true
}

/// Whether `needle` occurs in `hay`.
pub fn contains(hay: &str, needle: &str) -> (b: bool)
    ensures
        b == contains_text(hay@, needle@),
{
    let h = chars_of(hay);
    let n = chars_of(needle);
    if n.len() > h.len() {
        assert forall|i: int| !occurs_at(hay@, needle@, i) by {}
        return false;
    }
    let last: usize = h.len() - n.len();
    let mut i: usize = 0;
    while i < last
        invariant
            h@ == hay@,
            n@ == needle@,
            last == h.len() - n.len(),
            n.len() <= h.len(),
            i <= last,
            forall|k: int| 0 <= k < i ==> !occurs_at(hay@, needle@, k),
        decreases last - i,
    {
        if matches_at(&h, &n, i) {
            return true;
        }
        i = i + 1;
    }
    if matches_at(&h, &n, last) {
        return true;
    }
    assert forall|k: int| !occurs_at(hay@, needle@, k) by {
        if 0 <= k < last {
        }
    }
    false
}

/// The pieces of `s` between occurrences of `sep`, in order, as
/// `str::split` with a character pattern yields them: an empty text gives
/// one empty piece, and each separator starts a new piece.
pub open spec fn split_pieces(s: Seq<char>, sep: char) -> Seq<Seq<char>>
    decreases s.len(),
{
    if s.len() == 0 {
        seq![Seq::empty()]
    } else {
        let prev = split_pieces(s.drop_last(), sep);
        if s.last() == sep {
            prev.push(Seq::empty())
        } else {
            prev.update(prev.len() - 1, prev.last().push(s.last()))
        }
    }
}

/// Splitting always yields at least one piece.
pub proof fn lemma_split_pieces_nonempty(s: Seq<char>, sep: char)
    ensures
        split_pieces(s, sep).len() >= 1,
    decreases s.len(),
{
    if s.len() > 0 {
        lemma_split_pieces_nonempty(s.drop_last(), sep);
    }
}

/// The character sequences held by a sequence of character vectors.
pub open spec fn char_views(v: Seq<Vec<char>>) -> Seq<Seq<char>> {
    v.map_values(|p: Vec<char>| p@)
}

/// A text without the separator is one piece.
pub proof fn lemma_split_without_separator(a: Seq<char>, sep: char)
    requires
        !a.contains(sep),
    ensures
        split_pieces(a, sep) == seq![a],
    decreases a.len(),
{
    if a.len() == 0 {
        assert(a =~= Seq::<char>::empty());
        assert(split_pieces(a, sep) =~= seq![a]);
    } else {
        let init = a.drop_last();
        assert(!init.contains(sep)) by {
            if init.contains(sep) {
                let i = choose|i: int| 0 <= i < init.len() && init[i] == sep;
                assert(a[i] == sep);
            }
        }
        lemma_split_without_separator(init, sep);
        assert(a.last() != sep) by {
            assert(a[a.len() - 1] == a.last());
        }
        assert(init.push(a.last()) =~= a);
        let prev = split_pieces(init, sep);
        assert(split_pieces(a, sep) == prev.update(prev.len() - 1, prev.last().push(a.last())));
        assert(prev.update(prev.len() - 1, prev.last().push(a.last())) =~= seq![a]);
    }
}

/// Splitting a text at a separator it holds gives the pieces before the
/// separator followed by the pieces after it.
pub proof fn lemma_split_concat(p: Seq<char>, sep: char, b: Seq<char>)
    ensures
        split_pieces(p + seq![sep] + b, sep) == split_pieces(p, sep) + split_pieces(b, sep),
    decreases b.len(),
{
    lemma_split_pieces_nonempty(p, sep);
    if b.len() == 0 {
        assert(p + seq![sep] + b =~= p.push(sep));
        assert((p + seq![sep] + b).drop_last() =~= p);
        assert(split_pieces(p + seq![sep] + b, sep) =~= split_pieces(p, sep) + split_pieces(b, sep));
    } else {
        let init = b.drop_last();
        lemma_split_concat(p, sep, init);
        lemma_split_pieces_nonempty(init, sep);
        let whole = p + seq![sep] + b;
        assert(whole.drop_last() =~= p + seq![sep] + init);
        assert(whole.last() == b.last());
        let a = split_pieces(p, sep);
        let c = split_pieces(init, sep);
        if b.last() == sep {
            assert((a + c).push(Seq::empty()) =~= a + c.push(Seq::empty()));
        } else {
            assert((a + c).update((a + c).len() - 1, (a + c).last().push(b.last())) =~= a + c.update(
                c.len() - 1,
                c.last().push(b.last()),
            ));
        }
    }
}

/// Splits a character vector at every occurrence of `sep`.
pub fn split_chars(s: &Vec<char>, sep: char) -> (pieces: Vec<Vec<char>>)
    ensures
        char_views(pieces@) == split_pieces(s@, sep),
{
    let mut done: Vec<Vec<char>> = Vec::new();
    let mut cur: Vec<char> = Vec::new();
    let mut i: usize = 0;
    assert(s@.take(0) =~= Seq::<char>::empty());
    while i < s.len()
        invariant
            i <= s.len(),
            char_views(done@).push(cur@) == split_pieces(s@.take(i as int), sep),
        decreases s.len() - i,
    {
        let c = s[i];
        let ghost prev_done = char_views(done@);
        let ghost prev_cur = cur@;
        assert(s@.take(i + 1).drop_last() =~= s@.take(i as int));
        if c == sep {
            done.push(cur);
            cur = Vec::new();
            assert(char_views(done@) =~= prev_done.push(prev_cur));
            assert(char_views(done@).push(cur@) =~= prev_done.push(prev_cur).push(Seq::empty()));
        } else {
            cur.push(c);
            assert(char_views(done@) =~= prev_done);
            assert(char_views(done@).push(cur@) =~= prev_done.push(prev_cur).update(
                prev_done.len() as int,
                prev_cur.push(c),
            ));
        }
        i = i + 1;
    }
    assert(s@.take(s.len() as int) =~= s@);
    let ghost prev_done = char_views(done@);
    done.push(cur);
    assert(char_views(done@) =~= prev_done.push(cur@));
    done
}

/// The `n`-th piece (counting from 0) of `s` split at `sep`, if there are
/// that many pieces.
pub open spec fn nth_piece(s: Seq<char>, sep: char, n: nat) -> Option<Seq<char>> {
    if n < split_pieces(s, sep).len() {
        Some(split_pieces(s, sep)[n as int])
    } else {
        None
    }
}

/// The last piece of `s` split at `sep`: the text after the last `sep`, or
/// all of `s` when it holds none.
pub open spec fn last_piece(s: Seq<char>, sep: char) -> Seq<char> {
    split_pieces(s, sep).last()
}

/// `s.split(sep).nth(n)`, as an owned string.
pub fn split_nth(s: &str, sep: char, n: usize) -> (res: Option<String>)
    ensures
        res matches Some(p) ==> nth_piece(s@, sep, n as nat) == Some(p@),
        res is None ==> nth_piece(s@, sep, n as nat) is None,
{
    let chars = chars_of(s);
    let pieces = split_chars(&chars, sep);
    if n < pieces.len() {
        let p = string_from_chars(&pieces[n]);
        assert(char_views(pieces@)[n as int] == pieces@[n as int]@);
        Some(p)
    } else {
        None
    }
}

/// `s.split(sep).last()`, as an owned string; splitting always yields a
/// last piece.
pub fn split_last(s: &str, sep: char) -> (res: String)
    ensures
        res@ == last_piece(s@, sep),
{
    let chars = chars_of(s);
    let pieces = split_chars(&chars, sep);
    proof {
        lemma_split_pieces_nonempty(s@, sep);
    }
    let k = pieces.len() - 1;
    assert(char_views(pieces@)[k as int] == pieces@[k as int]@);
    string_from_chars(&pieces[k])
}

} // verus!
