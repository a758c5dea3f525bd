//! Ordering for Heddle's own version tags.
//!
//! A tag is `MAJOR.MINOR.PATCH`, with or without one leading `v`. Parsing is deliberately
//! strict: anything that is not exactly three non-empty runs of ASCII digits separated by
//! dots, each fitting in a `u64`, is rejected. An unparseable version must mean "do not
//! update"; a lenient parser that read junk as `0.0.0` would silently disable updates.

use vstd::prelude::*;
use crate::text::chars_of;

verus! {

/// Whether `c` is one of `0`..=`9`.
pub open spec fn is_ascii_digit(c: char) -> bool {
    '0' <= c && c <= '9'
}

/// Whether every character of `s` is an ASCII digit.
pub open spec fn all_ascii_digits(s: Seq<char>) -> bool {
    forall|i: int| 0 <= i < s.len() ==> is_ascii_digit(#[trigger] s[i])
}

/// The value of the decimal numeral `s`, read most significant digit first.
pub open spec fn digits_value(s: Seq<char>) -> nat
    decreases s.len(),
{
    if s.len() == 0 {
        0
    } else {
        digits_value(s.drop_last()) * 10 + ((s.last() as int - '0' as int) as nat)
    }
}

/// One version component: a non-empty run of digits whose value fits in a `u64`.
pub open spec fn component_value(s: Seq<char>) -> Option<u64> {
    if s.len() > 0 && all_ascii_digits(s) && digits_value(s) <= u64::MAX {
        Some(digits_value(s) as u64)
    } else {
        None
    }
}

/// The pieces of `s` between occurrences of `sep`, as `str::split` yields them: an empty
/// input gives one empty piece, and adjacent separators give empty pieces.
pub open spec fn split_on(s: Seq<char>, sep: char) -> Seq<Seq<char>>
    decreases s.len(),
{
    if s.len() == 0 {
        seq![Seq::<char>::empty()]
    } else {
        let prev = split_on(s.drop_last(), sep);
        if s.last() == sep {
            prev.push(Seq::<char>::empty())
        } else {
            prev.update(prev.len() - 1, prev.last().push(s.last()))
        }
    }
}

/// `s` without one leading `v`, if it has one.
pub open spec fn strip_v(s: Seq<char>) -> Seq<char> {
    if s.len() > 0 && s[0] == 'v' {
        s.drop_first()
    } else {
        s
    }
}

/// What `HeddleVersion::parse` accepts, and the components it reads.
pub open spec fn parse_spec(raw: Seq<char>) -> Option<(u64, u64, u64)> {
    let parts = split_on(strip_v(raw), '.');
    if parts.len() == 3 && component_value(parts[0]) is Some && component_value(parts[1]) is Some
        && component_value(parts[2]) is Some {
        Some(
            (
                component_value(parts[0])->0,
                component_value(parts[1])->0,
                component_value(parts[2])->0,
            ),
        )
    } else {
        None
    }
}

/// Version order: by major, then minor, then patch.
pub open spec fn version_lt(a: (u64, u64, u64), b: (u64, u64, u64)) -> bool {
    ||| a.0 < b.0
    ||| a.0 == b.0 && a.1 < b.1
    ||| a.0 == b.0 && a.1 == b.1 && a.2 < b.2
}

/// `split_on` never yields an empty list of pieces.
pub proof fn lemma_split_on_nonempty(s: Seq<char>, sep: char)
    ensures
        split_on(s, sep).len() >= 1,
    decreases s.len(),
{
    if s.len() > 0 {
        lemma_split_on_nonempty(s.drop_last(), sep);
    }
}

/// A longer numeral never has a smaller value than its prefix.
pub proof fn lemma_digits_value_prefix(s: Seq<char>, k: int)
    requires
        0 <= k <= s.len(),
        all_ascii_digits(s),
    ensures
        digits_value(s.take(k)) <= digits_value(s),
    decreases s.len() - k,
{
    if k < s.len() {
        let t = s.take(k + 1);
        assert(t.drop_last() =~= s.take(k));
        assert(is_ascii_digit(s[k]));
        lemma_digits_value_prefix(s, k + 1);
    } else {
        assert(s.take(k) =~= s);
    }
}

/// Whether every piece is a run of ASCII digits.
pub open spec fn pieces_all_digits(pieces: Seq<Seq<char>>) -> bool {
    forall|j: int| 0 <= j < pieces.len() ==> all_ascii_digits(#[trigger] pieces[j])
}

/// If every piece `split_on` yields is made of digits, the input is made of digits and
/// separators only.
pub proof fn lemma_split_on_digit_pieces(s: Seq<char>, sep: char)
    requires
        pieces_all_digits(split_on(s, sep)),
    ensures
        forall|i: int| 0 <= i < s.len() ==> #[trigger] s[i] == sep || is_ascii_digit(s[i]),
    decreases s.len(),
{
    if s.len() > 0 {
        let prev = split_on(s.drop_last(), sep);
        lemma_split_on_nonempty(s.drop_last(), sep);
        let cur = split_on(s, sep);
        if s.last() == sep {
            assert forall|j: int| 0 <= j < prev.len() implies all_ascii_digits(
                #[trigger] prev[j],
            ) by {
                assert(cur[j] == prev[j]);
            }
        } else {
            assert forall|j: int| 0 <= j < prev.len() implies all_ascii_digits(
                #[trigger] prev[j],
            ) by {
                if j == prev.len() - 1 {
                    let last = cur[j];
                    assert(all_ascii_digits(last));
                    assert(last =~= prev[j].push(s.last()));
                    assert forall|k: int| 0 <= k < prev[j].len() implies is_ascii_digit(
                        #[trigger] prev[j][k],
                    ) by {
                        assert(prev[j][k] == last[k]);
                    }
                } else {
                    assert(cur[j] == prev[j]);
                }
            }
            let last = cur[prev.len() - 1];
            assert(all_ascii_digits(last));
            assert(last.last() == s.last());
            assert(is_ascii_digit(last[last.len() - 1]));
        }
        lemma_split_on_digit_pieces(s.drop_last(), sep);
        assert forall|i: int| 0 <= i < s.len() implies #[trigger] s[i] == sep || is_ascii_digit(
            s[i],
        ) by {
            if i < s.len() - 1 {
                assert(s[i] == s.drop_last()[i]);
            }
        }
    }
}

/// Law: parsing is strict. Whatever parses is, after at most one leading `v`, made only of
/// ASCII digits and dots, in exactly three non-empty dot-separated runs. Junk such as
/// `1.2.3-beta`, ` 0.3.1` or `0.3.1+build` never parses, so it can never be taken for a
/// version.
pub proof fn lemma_parse_is_strict(raw: Seq<char>)
    requires
        parse_spec(raw) is Some,
    ensures
        forall|i: int|
            0 <= i < strip_v(raw).len() ==> #[trigger] strip_v(raw)[i] == '.' || is_ascii_digit(
                strip_v(raw)[i],
            ),
        split_on(strip_v(raw), '.').len() == 3,
        forall|j: int| 0 <= j < 3 ==> #[trigger] split_on(strip_v(raw), '.')[j].len() > 0,
{
    let parts = split_on(strip_v(raw), '.');
    assert forall|j: int| 0 <= j < parts.len() implies all_ascii_digits(#[trigger] parts[j]) by {
        assert(component_value(parts[j]) is Some);
    }
    lemma_split_on_digit_pieces(strip_v(raw), '.');
    assert forall|j: int| 0 <= j < 3 implies #[trigger] parts[j].len() > 0 by {
        assert(component_value(parts[j]) is Some);
    }
}

/// Law: one leading `v` does not change the result. A bundle's `0.3.1` and a tag's
/// `v0.3.1` parse to the same version, so the prefix cannot affect a comparison.
pub proof fn lemma_parse_ignores_v_prefix(s: Seq<char>)
    requires
        s.len() == 0 || s[0] != 'v',
    ensures
        parse_spec(seq!['v'] + s) == parse_spec(s),
{
    assert(strip_v(seq!['v'] + s) =~= s);
    assert(strip_v(s) == s);
}

/// The ASCII digit for `d`, for `d` in `0..=9`.
pub open spec fn digit_char(d: nat) -> char {
    if d == 0 {
        '0'
    } else if d == 1 {
        '1'
    } else if d == 2 {
        '2'
    } else if d == 3 {
        '3'
    } else if d == 4 {
        '4'
    } else if d == 5 {
        '5'
    } else if d == 6 {
        '6'
    } else if d == 7 {
        '7'
    } else if d == 8 {
        '8'
    } else {
        '9'
    }
}

/// `n` written in decimal without leading zeros, as `format!("{n}")` writes it.
pub open spec fn decimal(n: nat) -> Seq<char>
    decreases n,
{
    if n < 10 {
        seq![digit_char(n)]
    } else {
        decimal(n / 10).push(digit_char(n % 10))
    }
}

/// `MAJOR.MINOR.PATCH` as `format!("{major}.{minor}.{patch}")` writes it.
pub open spec fn version_text(v: (u64, u64, u64)) -> Seq<char> {
    decimal(v.0 as nat) + seq!['.'] + decimal(v.1 as nat) + seq!['.'] + decimal(v.2 as nat)
}

/// A decimal numeral is a non-empty run of digits whose value is the number written, and
/// it starts with a digit.
pub proof fn lemma_decimal_reads_back(n: nat)
    ensures
        decimal(n).len() > 0,
        all_ascii_digits(decimal(n)),
        digits_value(decimal(n)) == n,
        is_ascii_digit(decimal(n)[0]),
    decreases n,
{
    let d = decimal(n);
    if n >= 10 {
        lemma_decimal_reads_back(n / 10);
        assert(d.drop_last() =~= decimal(n / 10));
        assert(d[0] == decimal(n / 10)[0]);
        lemma_digit_char_value((n % 10) as nat);
        assert(d.last() == digit_char((n % 10) as nat));
        assert(digits_value(d) == digits_value(decimal(n / 10)) * 10 + (n % 10));
        assert(n == (n / 10) * 10 + n % 10);
    } else {
        lemma_digit_char_value(n);
        assert(d.drop_last() =~= Seq::<char>::empty());
        assert(d.last() == digit_char(n));
        assert(digits_value(d) == digits_value(Seq::<char>::empty()) * 10 + n);
    }
}

/// `digit_char(d)` is a digit, and it reads back as `d`.
pub proof fn lemma_digit_char_value(d: nat)
    requires
        d < 10,
    ensures
        is_ascii_digit(digit_char(d)),
        digit_char(d) as int - '0' as int == d,
{
}

/// Appending text free of the separator extends the last piece and adds no piece.
pub proof fn lemma_split_on_append_plain(p: Seq<char>, t: Seq<char>, sep: char)
    requires
        forall|i: int| 0 <= i < t.len() ==> #[trigger] t[i] != sep,
    ensures
        split_on(p + t, sep) == split_on(p, sep).update(
            split_on(p, sep).len() - 1,
            split_on(p, sep).last() + t,
        ),
    decreases t.len(),
{
    lemma_split_on_nonempty(p, sep);
    if t.len() == 0 {
        assert(p + t =~= p);
        assert(split_on(p, sep).last() + t =~= split_on(p, sep).last());
        assert(split_on(p, sep).update(split_on(p, sep).len() - 1, split_on(p, sep).last())
            =~= split_on(p, sep));
    } else {
        let u = t.drop_last();
        lemma_split_on_append_plain(p, u, sep);
        assert((p + t).drop_last() =~= p + u);
        assert((p + t).last() == t.last());
        let prev = split_on(p + u, sep);
        let base = split_on(p, sep);
        assert(prev.last() =~= base.last() + u);
        assert(base.last() + u + seq![t.last()] =~= base.last() + t);
        assert(prev.last().push(t.last()) =~= base.last() + t);
        assert(split_on(p + t, sep) =~= base.update(base.len() - 1, base.last() + t));
    }
}

/// Appending the separator starts a new, empty piece.
pub proof fn lemma_split_on_append_sep(p: Seq<char>, sep: char)
    ensures
        split_on(p + seq![sep], sep) == split_on(p, sep).push(Seq::<char>::empty()),
{
    let s = p + seq![sep];
    assert(s.drop_last() =~= p);
    assert(s.last() == sep);
}

/// A formatted version splits into its three numerals.
pub proof fn lemma_version_text_pieces(v: (u64, u64, u64))
    ensures
        split_on(version_text(v), '.') == seq![
            decimal(v.0 as nat),
            decimal(v.1 as nat),
            decimal(v.2 as nat),
        ],
{
    let x = decimal(v.0 as nat);
    let y = decimal(v.1 as nat);
    let z = decimal(v.2 as nat);
    lemma_decimal_reads_back(v.0 as nat);
    lemma_decimal_reads_back(v.1 as nat);
    lemma_decimal_reads_back(v.2 as nat);
    assert forall|i: int| 0 <= i < x.len() implies #[trigger] x[i] != '.' by {
        assert(is_ascii_digit(x[i]));
    }
    assert forall|i: int| 0 <= i < y.len() implies #[trigger] y[i] != '.' by {
        assert(is_ascii_digit(y[i]));
    }
    assert forall|i: int| 0 <= i < z.len() implies #[trigger] z[i] != '.' by {
        assert(is_ascii_digit(z[i]));
    }
    let e = Seq::<char>::empty();
    lemma_split_on_append_plain(e, x, '.');
    assert(e + x =~= x);
    assert(split_on(x, '.') =~= seq![x]);
    lemma_split_on_append_sep(x, '.');
    let p1 = x + seq!['.'];
    lemma_split_on_append_plain(p1, y, '.');
    assert(split_on(p1 + y, '.') =~= seq![x, y]);
    lemma_split_on_append_sep(p1 + y, '.');
    let p2 = p1 + y + seq!['.'];
    lemma_split_on_append_plain(p2, z, '.');
    assert(split_on(p2 + z, '.') =~= seq![x, y, z]);
    assert(version_text(v) =~= p2 + z);
}

/// Law: a version written as `format!("{major}.{minor}.{patch}")`, with or without one
/// leading `v`, parses back to exactly its three numbers, for every triple of `u64`s. Since
/// versions compare by those numbers, major first, `10.0.0` is newer than `9.9.9`: the
/// order is numeric, never lexical.
pub proof fn lemma_parse_reads_formatted_versions(v: (u64, u64, u64), w: (u64, u64, u64))
    ensures
        parse_spec(version_text(v)) == Some(v),
        parse_spec(seq!['v'] + version_text(v)) == Some(v),
        version_lt(parse_spec(version_text(v))->0, parse_spec(version_text(w))->0) <==> (v.0
            < w.0 || (v.0 == w.0 && v.1 < w.1) || (v.0 == w.0 && v.1 == w.1 && v.2 < w.2)),
{
    lemma_decimal_reads_back(v.0 as nat);
    lemma_decimal_reads_back(v.1 as nat);
    lemma_decimal_reads_back(v.2 as nat);
    lemma_version_text_pieces(v);
    lemma_version_text_pieces(w);
    lemma_decimal_reads_back(w.0 as nat);
    lemma_decimal_reads_back(w.1 as nat);
    lemma_decimal_reads_back(w.2 as nat);
    let t = version_text(v);
    assert(t[0] == decimal(v.0 as nat)[0]);
    assert(strip_v(t) == t);
    let tw = version_text(w);
    assert(tw[0] == decimal(w.0 as nat)[0]);
    assert(strip_v(tw) == tw);
    lemma_parse_ignores_v_prefix(t);
}

/// Law: the version order is a strict total order. It is irreflexive, asymmetric and
/// transitive, and any two distinct versions are ordered one way or the other.
pub proof fn lemma_version_order_is_total(
    a: (u64, u64, u64),
    b: (u64, u64, u64),
    c: (u64, u64, u64),
)
    ensures
        !version_lt(a, a),
        version_lt(a, b) ==> !version_lt(b, a),
        version_lt(a, b) && version_lt(b, c) ==> version_lt(a, c),
        a != b ==> version_lt(a, b) || version_lt(b, a),
{
}

/// A parsed `MAJOR.MINOR.PATCH` version, with or without a leading `v`.
///
/// Field order matters: the derived `Ord` compares fields in declaration order, which is
/// exactly major-then-minor-then-patch, and agrees with the hand-written `PartialOrd`.
#[derive(Debug, Clone, Copy, PartialEq, Eq, Structural, Ord)]
pub struct HeddleVersion {
    pub(crate) major: u64,
    pub(crate) minor: u64,
    pub(crate) patch: u64,
}

impl View for HeddleVersion {
    type V = (u64, u64, u64);

    closed spec fn view(&self) -> (u64, u64, u64) {
        (self.major, self.minor, self.patch)
    }
}

/// The view of a version is its three fields, in order.
pub(crate) proof fn lemma_view_is_fields(v: HeddleVersion)
    ensures
        v@ == (v.major, v.minor, v.patch),
{
}

impl HeddleVersion {
    /// Parse `v0.3.1` or `0.3.1`. Returns `None` for anything else.
    pub fn parse(raw: &str) -> (r: Option<Self>)
        ensures
            r is Some <==> parse_spec(raw@) is Some,
            r matches Some(v) ==> v@ == parse_spec(raw@)->0,
    {
        let chars = chars_of(raw);
        let start: usize = if chars.len() > 0 && chars[0] == 'v' {
            1
        } else {
            0
        };
        proof {
            assert(strip_v(raw@) =~= chars@.subrange(start as int, chars@.len() as int));
        }
        let parts = split_components(&chars, start);
        if parts.len() != 3 {
            return None;
        }
        let major = parse_component(&parts[0])?;
        let minor = parse_component(&parts[1])?;
        let patch = parse_component(&parts[2])?;
        Some(Self { major, minor, patch })
    }

    pub fn major(&self) -> (r: u64)
        ensures
            r == self@.0,
    {
        self.major
    }

    pub fn minor(&self) -> (r: u64)
        ensures
            r == self@.1,
    {
        self.minor
    }

    pub fn patch(&self) -> (r: u64)
        ensures
            r == self@.2,
    {
        self.patch
    }
}

/// Splits `chars[start..]` on `.`, as `str::split('.')` does.
fn split_components(chars: &Vec<char>, start: usize) -> (r: Vec<Vec<char>>)
    requires
        start <= chars.len(),
    ensures
        r@.len() == split_on(chars@.subrange(start as int, chars@.len() as int), '.').len(),
        forall|j: int|
            0 <= j < r@.len() ==> #[trigger] r@[j]@ == split_on(
                chars@.subrange(start as int, chars@.len() as int),
                '.',
            )[j],
{
    let ghost s = chars@.subrange(start as int, chars@.len() as int);
    let mut done: Vec<Vec<char>> = Vec::new();
    let mut cur: Vec<char> = Vec::new();
    let mut i: usize = start;
    while i < chars.len()
        invariant
            start <= i <= chars.len(),
            s == chars@.subrange(start as int, chars@.len() as int),
            done@.len() + 1 == split_on(s.take(i - start), '.').len(),
            forall|j: int|
                0 <= j < done@.len() ==> #[trigger] done@[j]@ == split_on(s.take(i - start), '.')[j],
            cur@ == split_on(s.take(i - start), '.').last(),
        decreases chars.len() - i,
    {
        let ghost before = s.take(i - start);
        let ghost after = s.take(i + 1 - start);
        assert(after.drop_last() =~= before);
        assert(after.last() == chars@[i as int]);
        proof {
            lemma_split_on_nonempty(before, '.');
        }
        if chars[i] == '.' {
            let finished = cur;
            done.push(finished);
            cur = Vec::new();
        } else {
            cur.push(chars[i]);
        }
        i = i + 1;
        assert(s.take(i - start) =~= after);
    }
    assert(s.take(i - start) =~= s);
    done.push(cur);
    done
}

/// Parse one component, rejecting anything that is not a non-empty run of ASCII digits
/// whose value fits in a `u64`.
fn parse_component(part: &Vec<char>) -> (r: Option<u64>)
    ensures
        r == component_value(part@),
{
    if part.len() == 0 {
        return None;
    }
    let mut i: usize = 0;
    while i < part.len()
        invariant
            i <= part.len(),
            forall|j: int| 0 <= j < i ==> is_ascii_digit(#[trigger] part@[j]),
        decreases part.len() - i,
    {
        if !(part[i] >= '0' && part[i] <= '9') {
            return None;
        }
        i = i + 1;
    }
    assert(all_ascii_digits(part@));
    let mut value: u64 = 0;
    let mut k: usize = 0;
    while k < part.len()
        invariant
            k <= part.len(),
            all_ascii_digits(part@),
            value == digits_value(part@.take(k as int)),
        decreases part.len() - k,
    {
        let ghost t = part@.take(k + 1);
        assert(t.drop_last() =~= part@.take(k as int));
        assert(is_ascii_digit(part@[k as int]));
        let digit: u64 = (part[k] as u32 - '0' as u32) as u64;
        match value.checked_mul(10) {
            None => {
                proof {
                    lemma_digits_value_prefix(part@, k + 1);
                }
                return None;
            },
            Some(scaled) => match scaled.checked_add(digit) {
                None => {
                    proof {
                        lemma_digits_value_prefix(part@, k + 1);
                    }
                    return None;
                },
                Some(next) => {
                    value = next;
                },
            },
        }
        k = k + 1;
    }
    assert(part@.take(part@.len() as int) =~= part@);
    Some(value)
}

} // verus!
