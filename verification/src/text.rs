//! Character-level text utilities with exact specifications: splitting,
//! line breaking, trimming, decimal and hexadecimal numbers.

use vstd::prelude::*;

verus! {

/// Appends one character to a string (`String::push`).
#[verifier::external_body]
pub(crate) fn string_push(s: &mut String, c: char)
    ensures
        final(s)@ == old(s)@.push(c),
{
    s.push(c);
}

/// A copy of a string.
pub fn copy_string(s: &String) -> (r: String)
    ensures
        r@ == s@,
{
    s.clone()
}

/// A string with the characters of a `str`.
pub fn owned(s: &str) -> (r: String)
    ensures
        r@ == s@,
{
    s.to_owned()
}

/// The characters of `s`, in order.
pub fn chars_of(s: &str) -> (r: Vec<char>)
    ensures
        r@ == s@,
{
    let mut r: Vec<char> = Vec::new();
    for c in it: s.chars()
        invariant
            r@ == it.seq().take(it.index() as int),
    {
        r.push(c);
    }
    r
}

/// Builds a string from a sequence of characters.
pub fn string_of(cs: &Vec<char>) -> (r: String)
    ensures
        r@ == cs@,
{
    let mut r = String::new();
    let mut i: usize = 0;
    while i < cs.len()
        invariant
            i <= cs.len(),
            r@ == cs@.take(i as int),
        decreases cs.len() - i,
    {
        string_push(&mut r, cs[i]);
        assert(cs@.take(i + 1) =~= cs@.take(i as int).push(cs@[i as int]));
        i += 1;
    }
    assert(cs@.take(cs.len() as int) =~= cs@);
    r
}

/// Appends all characters of `cs` to `out`.
pub fn push_all(out: &mut Vec<char>, cs: &Vec<char>)
    ensures
        final(out)@ == old(out)@ + cs@,
{
    let mut i: usize = 0;
    while i < cs.len()
        invariant
            i <= cs.len(),
            out@ == old(out)@ + cs@.take(i as int),
        decreases cs.len() - i,
    {
        out.push(cs[i]);
        assert(cs@.take(i + 1) =~= cs@.take(i as int).push(cs@[i as int]));
        i += 1;
    }
    assert(cs@.take(cs.len() as int) =~= cs@);
}

/// Appends all characters of `s` to `out`.
pub fn push_str(out: &mut Vec<char>, s: &str)
    ensures
        final(out)@ == old(out)@ + s@,
{
    let cs = chars_of(s);
    push_all(out, &cs);
}

/// The characters `cs[from..to]`.
pub fn slice_chars(cs: &Vec<char>, from: usize, to: usize) -> (r: Vec<char>)
    requires
        from <= to <= cs.len(),
    ensures
        r@ == cs@.subrange(from as int, to as int),
{
    let mut r: Vec<char> = Vec::new();
    let mut i: usize = from;
    while i < to
        invariant
            from <= i <= to <= cs.len(),
            r@ == cs@.subrange(from as int, i as int),
        decreases to - i,
    {
        r.push(cs[i]);
        assert(cs@.subrange(from as int, i + 1) =~= cs@.subrange(from as int, i as int).push(
            cs@[i as int],
        ));
        i += 1;
    }
    r
}

/// Whether two character sequences are equal.
pub fn chars_eq(a: &Vec<char>, b: &Vec<char>) -> (r: bool)
    ensures
        r == (a@ == b@),
{
    if a.len() != b.len() {
        return false;
    }
    let mut i: usize = 0;
    while i < a.len()
        invariant
            a.len() == b.len(),
            i <= a.len(),
            forall|j: int| 0 <= j < i ==> a@[j] == b@[j],
        decreases a.len() - i,
    {
        if a[i] != b[i] {
            return false;
        }
        i += 1;
    }
    assert(a@ =~= b@);
    true
}

/// Whether `s` consists of the characters `lit`.
pub fn chars_eq_str(a: &Vec<char>, lit: &str) -> (r: bool)
    ensures
        r == (a@ == lit@),
{
    let b = chars_of(lit);
    chars_eq(a, &b)
}

// ---------------------------------------------------------------------------
// Splitting

/// The pieces of `s` between occurrences of `sep` (as `str::split` with a
/// `char` pattern yields them): there is always at least one piece, and
/// adjacent separators give empty pieces.
pub open spec fn split_spec(s: Seq<char>, sep: char) -> Seq<Seq<char>>
    decreases s.len(),
{
    if s.len() == 0 {
        seq![Seq::<char>::empty()]
    } else {
        let p = split_spec(s.drop_last(), sep);
        if s.last() == sep {
            p.push(Seq::<char>::empty())
        } else {
            p.update(p.len() - 1, p.last().push(s.last()))
        }
    }
}

/// `split_spec` always yields at least one piece.
pub proof fn lemma_split_nonempty(s: Seq<char>, sep: char)
    ensures
        split_spec(s, sep).len() >= 1,
    decreases s.len(),
{
    if s.len() > 0 {
        lemma_split_nonempty(s.drop_last(), sep);
    }
}

/// A text without the separator is a single piece.
pub proof fn lemma_split_no_sep(s: Seq<char>, sep: char)
    requires
        !s.contains(sep),
    ensures
        split_spec(s, sep) == seq![s],
    decreases s.len(),
{
    if s.len() > 0 {
        let d = s.drop_last();
        assert(!d.contains(sep)) by {
            if d.contains(sep) {
                let k = choose|k: int| 0 <= k < d.len() && d[k] == sep;
                assert(s[k] == sep);
            }
        }
        lemma_split_no_sep(d, sep);
        assert(s.last() != sep) by {
            assert(s[s.len() - 1] == s.last());
        }
        assert(d.push(s.last()) =~= s);
    } else {
        assert(s =~= Seq::<char>::empty());
    }
}

/// Splitting at a separator occurrence splits both sides apart.
pub proof fn lemma_split_concat(a: Seq<char>, b: Seq<char>, sep: char)
    ensures
        split_spec(a + seq![sep] + b, sep) == split_spec(a, sep) + split_spec(b, sep),
    decreases b.len(),
{
    let s = a + seq![sep] + b;
    if b.len() == 0 {
        assert(s =~= a.push(sep));
        assert(s.drop_last() =~= a);
        assert(split_spec(b, sep) =~= seq![Seq::<char>::empty()]) by {
            assert(b =~= Seq::<char>::empty());
        }
        assert(split_spec(s, sep) =~= split_spec(a, sep) + split_spec(b, sep));
    } else {
        let b2 = b.drop_last();
        lemma_split_concat(a, b2, sep);
        lemma_split_nonempty(b2, sep);
        lemma_split_nonempty(a, sep);
        assert(s.drop_last() =~= a + seq![sep] + b2);
        assert(s.last() == b.last());
        let pa = split_spec(a, sep);
        let pb = split_spec(b2, sep);
        if b.last() == sep {
            assert(split_spec(s, sep) =~= pa + pb.push(Seq::<char>::empty()));
        } else {
            assert((pa + pb).last() == pb.last());
            assert(split_spec(s, sep) =~= pa + pb.update(pb.len() - 1, pb.last().push(b.last())));
        }
    }
}

/// Splits `cs` at every occurrence of `sep`.
pub fn split_chars(cs: &Vec<char>, sep: char) -> (r: Vec<Vec<char>>)
    ensures
        r@.len() == split_spec(cs@, sep).len(),
        forall|k: int| 0 <= k < r@.len() ==> #[trigger] r@[k]@ == split_spec(cs@, sep)[k],
{
    let mut done: Vec<Vec<char>> = Vec::new();
    let mut cur: Vec<char> = Vec::new();
    let mut i: usize = 0;
    while i < cs.len()
        invariant
            i <= cs.len(),
            done@.len() + 1 == split_spec(cs@.take(i as int), sep).len(),
            forall|k: int|
                0 <= k < done@.len() ==> #[trigger] done@[k]@ == split_spec(
                    cs@.take(i as int),
                    sep,
                )[k],
            cur@ == split_spec(cs@.take(i as int), sep).last(),
        decreases cs.len() - i,
    {
        let ghost pre = cs@.take(i as int);
        proof {
            lemma_split_nonempty(pre, sep);
            assert(cs@.take(i + 1).drop_last() =~= pre);
            assert(cs@.take(i + 1).last() == cs@[i as int]);
        }
        let c = cs[i];
        if c == sep {
            let piece = cur;
            done.push(piece);
            cur = Vec::new();
            assert(cur@ =~= Seq::<char>::empty());
        } else {
            cur.push(c);
        }
        i += 1;
    }
    assert(cs@.take(cs.len() as int) =~= cs@);
    done.push(cur);
    done
}

// ---------------------------------------------------------------------------
// Lines

/// A line without its terminating `'\r'`, if it has one.
pub open spec fn strip_cr(s: Seq<char>) -> Seq<char> {
    if s.len() > 0 && s.last() == '\r' {
        s.drop_last()
    } else {
        s
    }
}

/// The lines of a text as `BufRead::lines` yields them: the text is cut at
/// each `'\n'`; a line that ended with `'\n'` also loses one `'\r'` before it;
/// the text after the last `'\n'` is a line only when it is not empty.
pub open spec fn lines_spec(s: Seq<char>) -> Seq<Seq<char>> {
    let parts = split_spec(s, '\n');
    let n = parts.len();
    let ended = Seq::new((n - 1) as nat, |i: int| strip_cr(parts[i]));
    if parts[n - 1].len() == 0 {
        ended
    } else {
        ended.push(parts[n - 1])
    }
}

/// Cuts a text into lines as `BufRead::lines` does.
pub fn lines_of(cs: &Vec<char>) -> (r: Vec<Vec<char>>)
    ensures
        r@.len() == lines_spec(cs@).len(),
        forall|k: int| 0 <= k < r@.len() ==> #[trigger] r@[k]@ == lines_spec(cs@)[k],
{
    let parts = split_chars(cs, '\n');
    proof {
        lemma_split_nonempty(cs@, '\n');
    }
    let n = parts.len();
    let mut r: Vec<Vec<char>> = Vec::new();
    let mut i: usize = 0;
    while i + 1 < n
        invariant
            n == parts@.len(),
            n >= 1,
            i + 1 <= n,
            n == split_spec(cs@, '\n').len(),
            forall|k: int| 0 <= k < n ==> #[trigger] parts@[k]@ == split_spec(cs@, '\n')[k],
            r@.len() == i,
            forall|k: int| 0 <= k < i ==> #[trigger] r@[k]@ == strip_cr(parts@[k]@),
        decreases n - i,
    {
        let p = &parts[i];
        let m = p.len();
        if m > 0 && p[m - 1] == '\r' {
            let q = slice_chars(p, 0, m - 1);
            assert(q@ =~= p@.drop_last());
            r.push(q);
        } else {
            let q = slice_chars(p, 0, m);
            assert(q@ =~= p@);
            r.push(q);
        }
        i += 1;
    }
    let last = &parts[n - 1];
    if last.len() > 0 {
        let q = slice_chars(last, 0, last.len());
        assert(q@ =~= last@);
        r.push(q);
    }
    r
}

// ---------------------------------------------------------------------------
// Whitespace

/// `char::is_whitespace`: the Unicode `White_Space` property.
pub open spec fn is_whitespace(c: char) -> bool {
    ||| ('\u{9}' <= c && c <= '\u{d}')
    ||| c == ' '
    ||| c == '\u{85}'
    ||| c == '\u{a0}'
    ||| c == '\u{1680}'
    ||| ('\u{2000}' <= c && c <= '\u{200a}')
    ||| c == '\u{2028}'
    ||| c == '\u{2029}'
    ||| c == '\u{202f}'
    ||| c == '\u{205f}'
    ||| c == '\u{3000}'
}

/// Decides `is_whitespace`.
pub fn char_is_whitespace(c: char) -> (r: bool)
    ensures
        r == is_whitespace(c),
{
    ('\u{9}' <= c && c <= '\u{d}') || c == ' ' || c == '\u{85}' || c == '\u{a0}' || c
        == '\u{1680}' || ('\u{2000}' <= c && c <= '\u{200a}') || c == '\u{2028}' || c
        == '\u{2029}' || c == '\u{202f}' || c == '\u{205f}' || c == '\u{3000}'
}

/// `s` without leading and trailing whitespace (`str::trim`): the unique
/// middle part such that everything cut off is whitespace and the part
/// neither starts nor ends with whitespace.
pub open spec fn is_trim_of(t: Seq<char>, s: Seq<char>) -> bool {
    exists|a: int, b: int|
        0 <= a <= b <= s.len() && t == s.subrange(a, b) && (forall|i: int|
            0 <= i < a ==> is_whitespace(#[trigger] s[i])) && (forall|i: int|
            b <= i < s.len() ==> is_whitespace(#[trigger] s[i])) && (a < b ==> !is_whitespace(
            s[a],
        ) && !is_whitespace(s[b - 1]))
}

/// Removes leading and trailing whitespace.
pub fn trim_chars(cs: &Vec<char>) -> (r: Vec<char>)
    ensures
        is_trim_of(r@, cs@),
{
    let mut a: usize = 0;
    while a < cs.len() && char_is_whitespace(cs[a])
        invariant
            a <= cs.len(),
            forall|i: int| 0 <= i < a ==> is_whitespace(#[trigger] cs@[i]),
        decreases cs.len() - a,
    {
        a += 1;
    }
    let mut b: usize = cs.len();
    while b > a && char_is_whitespace(cs[b - 1])
        invariant
            a <= b <= cs.len(),
            forall|i: int| b <= i < cs.len() ==> is_whitespace(#[trigger] cs@[i]),
        decreases b - a,
    {
        b -= 1;
    }
    let r = slice_chars(cs, a, b);
    assert(is_trim_of(r@, cs@)) by {
        assert(0 <= a <= b <= cs@.len() && r@ == cs@.subrange(a as int, b as int));
    }
    r
}


/// `s` without leading and trailing whitespace, as a function.
pub open spec fn trim_spec(s: Seq<char>) -> Seq<char>
    decreases s.len(),
{
    if s.len() > 0 && is_whitespace(s[0]) {
        trim_spec(s.drop_first())
    } else if s.len() > 0 && is_whitespace(s.last()) {
        trim_spec(s.drop_last())
    } else {
        s
    }
}

/// The part that `is_trim_of` describes is `trim_spec`.
pub proof fn lemma_trim_unique(s: Seq<char>, a: int, b: int)
    requires
        0 <= a <= b <= s.len(),
        forall|i: int| 0 <= i < a ==> is_whitespace(#[trigger] s[i]),
        forall|i: int| b <= i < s.len() ==> is_whitespace(#[trigger] s[i]),
        a < b ==> !is_whitespace(s[a]) && !is_whitespace(s[b - 1]),
    ensures
        trim_spec(s) == s.subrange(a, b),
    decreases s.len(),
{
    if s.len() == 0 {
        assert(s.subrange(a, b) =~= s);
    } else if is_whitespace(s[0]) {
        let t = s.drop_first();
        if a > 0 {
            assert forall|i: int| 0 <= i < a - 1 implies is_whitespace(#[trigger] t[i]) by {
                assert(t[i] == s[i + 1]);
            }
            assert forall|i: int| b - 1 <= i < t.len() implies is_whitespace(#[trigger] t[i]) by {
                assert(t[i] == s[i + 1]);
            }
            lemma_trim_unique(t, a - 1, b - 1);
            assert(t.subrange(a - 1, b - 1) =~= s.subrange(a, b));
        } else {
            assert(b == 0);
            assert forall|i: int| 0 <= i < t.len() implies is_whitespace(#[trigger] t[i]) by {
                assert(t[i] == s[i + 1]);
            }
            lemma_trim_unique(t, 0, 0);
            assert(t.subrange(0, 0) =~= s.subrange(a, b));
        }
    } else if is_whitespace(s.last()) {
        let t = s.drop_last();
        assert(b < s.len());
        lemma_trim_unique(t, a, b);
        assert(t.subrange(a, b) =~= s.subrange(a, b));
    } else {
        assert(a == 0 && b == s.len());
        assert(s.subrange(a, b) =~= s);
    }
}

/// Removes leading and trailing whitespace (`str::trim`).
pub fn trim(cs: &Vec<char>) -> (r: Vec<char>)
    ensures
        r@ == trim_spec(cs@),
{
    let r = trim_chars(cs);
    proof {
        let (a, b) = choose|a: int, b: int|
            0 <= a <= b <= cs@.len() && r@ == cs@.subrange(a, b) && (forall|i: int|
                0 <= i < a ==> is_whitespace(#[trigger] cs@[i])) && (forall|i: int|
                b <= i < cs@.len() ==> is_whitespace(#[trigger] cs@[i])) && (a < b
                ==> !is_whitespace(cs@[a]) && !is_whitespace(cs@[b - 1]));
        lemma_trim_unique(cs@, a, b);
    }
    r
}

} // verus!
