//! Character-level helpers shared by the string-processing modules.
//!
//! Strings are read into `Vec<char>` so that the parsers can be written and proved over
//! `Seq<char>`, the view vstd gives `&str` and `String`.

use vstd::prelude::*;

verus! {

/// The characters of `s`, in order.
pub fn chars_of(s: &str) -> (r: Vec<char>)
    ensures
        r@ == s@,
{
    let n = s.unicode_len();
    let mut out: Vec<char> = Vec::new();
    let mut i: usize = 0;
    while i < n
        invariant
            n == s@.len(),
            i <= n,
            out@ == s@.take(i as int),
        decreases n - i,
    {
        out.push(s.get_char(i));
        i = i + 1;
        assert(out@ =~= s@.take(i as int));
    }
    assert(out@ =~= s@);
    out
}

/// Whether two character sequences are equal.
pub fn chars_eq(a: &Vec<char>, b: &Vec<char>) -> (r: bool)
    ensures
        r == (a@ == b@),
{
    if a.len() != b.len() {
        return false;
    }
    let mut i: usize = 0;
    while i < a.len()
        invariant
            a.len() == b.len(),
            i <= a.len(),
            forall|j: int| 0 <= j < i ==> a@[j] == b@[j],
        decreases a.len() - i,
    {
        if a[i] != b[i] {
            return false;
        }
        i = i + 1;
    }
    assert(a@ =~= b@);
    true
}

/// Whether two string slices hold the same characters.
pub fn str_eq(a: &str, b: &str) -> (r: bool)
    ensures
        r == (a@ == b@),
{
    let ca = chars_of(a);
    let cb = chars_of(b);
    chars_eq(&ca, &cb)
}

/// Unicode `White_Space`: the characters `char::is_whitespace` accepts.
pub open spec fn is_whitespace(c: char) -> bool {
    ||| '\u{9}' <= c && c <= '\u{d}'
    ||| c == ' '
    ||| c == '\u{85}'
    ||| c == '\u{a0}'
    ||| c == '\u{1680}'
    ||| '\u{2000}' <= c && c <= '\u{200a}'
    ||| c == '\u{2028}'
    ||| c == '\u{2029}'
    ||| c == '\u{202f}'
    ||| c == '\u{205f}'
    ||| c == '\u{3000}'
}

/// Whether `c` is Unicode white space.
pub fn is_whitespace_char(c: char) -> (r: bool)
    ensures
        r == is_whitespace(c),
{
    ('\u{9}' <= c && c <= '\u{d}') || c == ' ' || c == '\u{85}' || c == '\u{a0}' || c
        == '\u{1680}' || ('\u{2000}' <= c && c <= '\u{200a}') || c == '\u{2028}' || c
        == '\u{2029}' || c == '\u{202f}' || c == '\u{205f}' || c == '\u{3000}'
}

/// The maximal runs of non-white-space characters of `s`, in order: what
/// `str::split_whitespace` yields.
pub open spec fn split_whitespace_spec(s: Seq<char>) -> Seq<Seq<char>>
    decreases s.len(),
{
    if s.len() == 0 {
        Seq::empty()
    } else {
        let prev = split_whitespace_spec(s.drop_last());
        if is_whitespace(s.last()) {
            prev
        } else if s.len() >= 2 && !is_whitespace(s[s.len() - 2]) {
            prev.update(prev.len() - 1, prev.last().push(s.last()))
        } else {
            prev.push(seq![s.last()])
        }
    }
}

/// A string ending in a non-white-space character has at least one run.
pub proof fn lemma_split_whitespace_nonempty(s: Seq<char>)
    requires
        s.len() > 0,
        !is_whitespace(s.last()),
    ensures
        split_whitespace_spec(s).len() >= 1,
    decreases s.len(),
{
    if s.len() >= 2 && !is_whitespace(s[s.len() - 2]) {
        lemma_split_whitespace_nonempty(s.drop_last());
    }
}

/// The white-space separated words of `s`, as `str::split_whitespace` yields them.
pub fn split_whitespace(s: &str) -> (r: Vec<&str>)
    ensures
        r@.len() == split_whitespace_spec(s@).len(),
        forall|i: int| 0 <= i < r@.len() ==> (#[trigger] r@[i])@ == split_whitespace_spec(s@)[i],
{
    let chars = chars_of(s);
    let mut words: Vec<&str> = Vec::new();
    let mut in_word = false;
    let mut start: usize = 0;
    let mut i: usize = 0;
    while i < chars.len()
        invariant
            chars@ == s@,
            i <= chars@.len(),
            in_word <==> (i > 0 && !is_whitespace(chars@[i - 1])),
            in_word ==> start < i,
            in_word ==> forall|j: int| start <= j < i ==> !is_whitespace(#[trigger] chars@[j]),
            in_word ==> (start == 0 || is_whitespace(chars@[start - 1])),
            !in_word ==> words@.len() == split_whitespace_spec(s@.take(i as int)).len(),
            !in_word ==> forall|j: int|
                0 <= j < words@.len() ==> (#[trigger] words@[j])@ == split_whitespace_spec(
                    s@.take(i as int),
                )[j],
            in_word ==> words@.len() + 1 == split_whitespace_spec(s@.take(i as int)).len(),
            in_word ==> forall|j: int|
                0 <= j < words@.len() ==> (#[trigger] words@[j])@ == split_whitespace_spec(
                    s@.take(i as int),
                )[j],
            in_word ==> split_whitespace_spec(s@.take(i as int)).last() == s@.subrange(
                start as int,
                i as int,
            ),
        decreases chars.len() - i,
    {
        let ghost before = s@.take(i as int);
        let ghost after = s@.take(i + 1);
        assert(after.drop_last() =~= before);
        assert(after.last() == chars@[i as int]);
        if is_whitespace_char(chars[i]) {
            if in_word {
                words.push(s.substring_char(start, i));
                in_word = false;
            }
        } else {
            if !in_word {
                start = i;
                in_word = true;
                assert(s@.subrange(start as int, i + 1) =~= seq![chars@[i as int]]);
            } else {
                assert(i >= 1);
                assert(after[after.len() - 2] == chars@[i - 1]);
                proof {
                    lemma_split_whitespace_nonempty(before);
                }
                assert(s@.subrange(start as int, i + 1) =~= s@.subrange(start as int, i as int).push(
                    chars@[i as int],
                ));
            }
        }
        i = i + 1;
        assert(s@.take(i as int) =~= after);
    }
    assert(s@.take(i as int) =~= s@);
    if in_word {
        words.push(s.substring_char(start, i));
    }
    words
}

/// `parts` joined with single spaces.
pub open spec fn join_with_spaces_spec(parts: Seq<Seq<char>>) -> Seq<char>
    decreases parts.len(),
{
    if parts.len() == 0 {
        Seq::empty()
    } else if parts.len() == 1 {
        parts[0]
    } else {
        join_with_spaces_spec(parts.drop_last()) + seq![' '] + parts.last()
    }
}

/// Joins `parts` with single spaces.
pub fn join_with_spaces(parts: &Vec<String>) -> (r: String)
    ensures
        r@ == join_with_spaces_spec(parts@.map_values(|p: String| p@)),
{
    let ghost views = parts@.map_values(|p: String| p@);
    let mut out = String::new();
    let mut i: usize = 0;
    while i < parts.len()
        invariant
            views == parts@.map_values(|p: String| p@),
            i <= parts@.len(),
            out@ == join_with_spaces_spec(views.take(i as int)),
        decreases parts.len() - i,
    {
        assert(views.take(i + 1).drop_last() =~= views.take(i as int));
        assert(views.take(i + 1).last() == parts@[i as int]@);
        if i > 0 {
            out.append(" ");
            proof {
                reveal_strlit(" ");
            }
        }
        out.append(parts[i].as_str());
        i = i + 1;
        proof {
            if i == 1 {
                assert(views.take(1) =~= seq![parts@[0]@]);
                assert(out@ =~= parts@[0]@);
            }
        }
    }
    assert(views.take(parts@.len() as int) =~= views);
    out
}

/// `s` without its leading white space.
pub open spec fn trim_start_spec(s: Seq<char>) -> Seq<char>
    decreases s.len(),
{
    if s.len() > 0 && is_whitespace(s[0]) {
        trim_start_spec(s.drop_first())
    } else {
        s
    }
}

/// `s` without its trailing white space.
pub open spec fn trim_end_spec(s: Seq<char>) -> Seq<char>
    decreases s.len(),
{
    if s.len() > 0 && is_whitespace(s.last()) {
        trim_end_spec(s.drop_last())
    } else {
        s
    }
}

/// `s` without leading and trailing white space: what `str::trim` yields.
pub open spec fn trim_spec(s: Seq<char>) -> Seq<char> {
    trim_end_spec(trim_start_spec(s))
}

/// Trimming the end keeps a prefix, which is empty or ends with non-white space.
pub proof fn lemma_trim_end_is_prefix(s: Seq<char>)
    ensures
        trim_end_spec(s).len() <= s.len(),
        trim_end_spec(s) =~= s.take(trim_end_spec(s).len() as int),
        trim_end_spec(s).len() == 0 || !is_whitespace(trim_end_spec(s).last()),
    decreases s.len(),
{
    if s.len() > 0 && is_whitespace(s.last()) {
        lemma_trim_end_is_prefix(s.drop_last());
        let k = trim_end_spec(s).len() as int;
        assert(s.drop_last().take(k) =~= s.take(k));
    } else {
        assert(s.take(s.len() as int) =~= s);
    }
}

/// Trimming the start leaves text that is empty or starts with non-white space.
pub proof fn lemma_trim_start_shape(s: Seq<char>)
    ensures
        trim_start_spec(s).len() == 0 || !is_whitespace(trim_start_spec(s)[0]),
    decreases s.len(),
{
    if s.len() > 0 && is_whitespace(s[0]) {
        lemma_trim_start_shape(s.drop_first());
    }
}

/// Law: trimming is idempotent. Trimmed text has nothing left to trim.
pub proof fn lemma_trim_is_idempotent(s: Seq<char>)
    ensures
        trim_spec(trim_spec(s)) == trim_spec(s),
{
    let t = trim_start_spec(s);
    let u = trim_end_spec(t);
    lemma_trim_start_shape(s);
    lemma_trim_end_is_prefix(t);
    if u.len() > 0 {
        assert(u[0] == t[0]);
        assert(trim_start_spec(u) == u);
        assert(trim_end_spec(u) == u);
    } else {
        assert(trim_start_spec(u) == u);
        assert(trim_end_spec(u) == u);
    }
}

/// The bounds of the trimmed part of `chars`.
pub fn trim_bounds(chars: &Vec<char>) -> (r: (usize, usize))
    ensures
        r.0 <= r.1 <= chars@.len(),
        chars@.subrange(r.0 as int, r.1 as int) == trim_spec(chars@),
{
    let n = chars.len();
    let mut lo: usize = 0;
    assert(chars@.skip(0) =~= chars@);
    while lo < n && is_whitespace_char(chars[lo])
        invariant
            n == chars@.len(),
            lo <= n,
            trim_start_spec(chars@) == trim_start_spec(chars@.skip(lo as int)),
        decreases n - lo,
    {
        assert(chars@.skip(lo as int).drop_first() =~= chars@.skip(lo + 1));
        lo = lo + 1;
    }
    let ghost t = chars@.skip(lo as int);
    assert(trim_start_spec(t) == t);
    let mut hi: usize = n;
    assert(t.take((hi - lo) as int) =~= t);
    while hi > lo && is_whitespace_char(chars[hi - 1])
        invariant
            n == chars@.len(),
            lo <= hi <= n,
            t == chars@.skip(lo as int),
            trim_end_spec(t) == trim_end_spec(t.take((hi - lo) as int)),
        decreases hi - lo,
    {
        assert(t.take((hi - lo) as int).drop_last() =~= t.take((hi - 1 - lo) as int));
        assert(t.take((hi - lo) as int).last() == chars@[hi - 1]);
        hi = hi - 1;
    }
    assert(chars@.subrange(lo as int, hi as int) =~= t.take((hi - lo) as int));
    (lo, hi)
}

/// Whether `chars[lo..hi]` begins with `prefix`.
pub fn has_prefix_in(chars: &Vec<char>, lo: usize, hi: usize, prefix: &str) -> (r: bool)
    requires
        lo <= hi <= chars@.len(),
    ensures
        r == (prefix@.len() <= hi - lo && chars@.subrange(lo as int, lo + prefix@.len())
            == prefix@),
{
    let p = chars_of(prefix);
    if p.len() > hi - lo {
        return false;
    }
    let mut i: usize = 0;
    while i < p.len()
        invariant
            p@ == prefix@,
            lo <= hi <= chars@.len(),
            p@.len() <= hi - lo,
            i <= p@.len(),
            forall|j: int| 0 <= j < i ==> chars@[lo + j] == p@[j],
        decreases p.len() - i,
    {
        if chars[lo + i] != p[i] {
            assert(chars@.subrange(lo as int, lo + prefix@.len())[i as int] != prefix@[i as int]);
            return false;
        }
        i = i + 1;
    }
    assert(chars@.subrange(lo as int, lo + prefix@.len()) =~= prefix@);
    true
}

/// Whether `chars[lo..hi]` ends with `suffix`.
pub fn has_suffix_in(chars: &Vec<char>, lo: usize, hi: usize, suffix: &str) -> (r: bool)
    requires
        lo <= hi <= chars@.len(),
    ensures
        r == (suffix@.len() <= hi - lo && chars@.subrange(hi - suffix@.len(), hi as int)
            == suffix@),
{
    let p = chars_of(suffix);
    if p.len() > hi - lo {
        return false;
    }
    let start = hi - p.len();
    let mut i: usize = 0;
    while i < p.len()
        invariant
            p@ == suffix@,
            lo <= hi <= chars@.len(),
            p@.len() <= hi - lo,
            start == hi - p@.len(),
            i <= p@.len(),
            forall|j: int| 0 <= j < i ==> chars@[start + j] == p@[j],
        decreases p.len() - i,
    {
        if chars[start + i] != p[i] {
            assert(chars@.subrange(start as int, hi as int)[i as int] != suffix@[i as int]);
            return false;
        }
        i = i + 1;
    }
    assert(chars@.subrange(start as int, hi as int) =~= suffix@);
    true
}

} // verus!
