//! Character and string utilities shared by the compiler: ASCII case
//! folding, slug derivation, lexicographic path order and substring search.

use vstd::prelude::*;

verus! {

/// An ASCII lower-case letter.
pub open spec fn is_lower(c: char) -> bool {
    97 <= c as u32 && c as u32 <= 122
}

/// An ASCII upper-case letter.
pub open spec fn is_upper(c: char) -> bool {
    65 <= c as u32 && c as u32 <= 90
}

/// An ASCII decimal digit.
pub open spec fn is_digit(c: char) -> bool {
    48 <= c as u32 && c as u32 <= 57
}

/// ASCII case folding of a single character; everything but an ASCII
/// upper-case letter is left unchanged.
pub open spec fn fold_char(c: char) -> char {
    if is_upper(c) {
        (((c as u32) + 32) as u8) as char
    } else {
        c
    }
}

/// A character that survives into a slug once case-folded: an ASCII
/// letter or digit. Every other character acts as a word separator.
pub open spec fn is_word_char(c: char) -> bool {
    is_lower(c) || is_upper(c) || is_digit(c)
}

/// Slug characters still to be emitted for the remaining input `s`.
/// `started` records whether a word character was already emitted and
/// `pending` whether a separator was seen since then; a hyphen is emitted
/// only between two words, so the result never starts or ends with one.
pub open spec fn slug_from(s: Seq<char>, started: bool, pending: bool) -> Seq<char>
    decreases s.len(),
{
    if s.len() == 0 {
        Seq::empty()
    } else {
        let c = s[0];
        if is_word_char(c) {
            let emitted = if started && pending {
                seq!['-', fold_char(c)]
            } else {
                seq![fold_char(c)]
            };
            emitted + slug_from(s.drop_first(), true, false)
        } else {
            slug_from(s.drop_first(), started, true)
        }
    }
}

/// The canonical kebab-case slug of a file stem: ASCII letters folded to
/// lower case, maximal runs of non-word characters collapsed into a single
/// interior hyphen, no leading or trailing hyphen.
pub open spec fn spec_slug(s: Seq<char>) -> Seq<char> {
    slug_from(s, false, false)
}

fn fold_char_exec(c: char) -> (r: char)
    ensures
        r == fold_char(c),
{
    let n = c as u32;
    if 65 <= n && n <= 90 {
        ((n + 32) as u8) as char
    } else {
        c
    }
}

fn is_word_char_exec(c: char) -> (r: bool)
    ensures
        r == is_word_char(c),
{
    let n = c as u32;
    (97 <= n && n <= 122) || (65 <= n && n <= 90) || (48 <= n && n <= 57)
}

/// The characters of `s`, in order.
pub fn chars_of(s: &str) -> (v: Vec<char>)
    ensures
        v@ == s@,
{
    let len = s.unicode_len();
    let mut v: Vec<char> = Vec::new();
    let mut i: usize = 0;
    while i < len
        invariant
            i <= len,
            len == s@.len(),
            v@ == s@.take(i as int),
        decreases len - i,
    {
        v.push(s.get_char(i));
        proof {
            assert(v@ =~= s@.take(i + 1 as int));
        }
        i = i + 1;
    }
    proof {
        assert(v@ =~= s@);
    }
    v
}

/// Relies on `String`'s `FromIterator<char>` impl: collecting an iterator
/// of characters yields the string made of exactly those characters.
#[verifier::external_body]
pub(crate) fn string_from_chars(v: &Vec<char>) -> (r: String)
    ensures
        r@ == v@,
{
    v.iter().collect()
}

/// Derives the canonical slug from a file stem.
pub fn slugify(stem: &str) -> (r: String)
    ensures
        r@ == spec_slug(stem@),
{
    let cs = chars_of(stem);
    let mut out: Vec<char> = Vec::new();
    let mut started = false;
    let mut pending = false;
    let mut i: usize = 0;
    proof {
        assert(stem@.skip(0) =~= stem@);
        assert(out@ + slug_from(stem@, false, false) =~= slug_from(stem@, false, false));
    }
    while i < cs.len()
        invariant
            i <= cs@.len(),
            cs@ == stem@,
            spec_slug(stem@) == out@ + slug_from(stem@.skip(i as int), started, pending),
        decreases cs@.len() - i,
    {
        let c = cs[i];
        let ghost rest = stem@.skip(i as int);
        let ghost prev = out@;
        proof {
            assert(rest[0] == stem@[i as int]);
            assert(rest.drop_first() =~= stem@.skip(i + 1 as int));
        }
        if is_word_char_exec(c) {
            let ghost emitted: Seq<char> = if started && pending {
                seq!['-', fold_char(c)]
            } else {
                seq![fold_char(c)]
            };
            if started && pending {
                out.push('-');
            }
            out.push(fold_char_exec(c));
            proof {
                assert(out@ =~= prev + emitted);
                assert(prev + (emitted + slug_from(rest.drop_first(), true, false)) =~= (prev
                    + emitted) + slug_from(rest.drop_first(), true, false));
            }
            started = true;
            pending = false;
        } else {
            pending = true;
        }
        i = i + 1;
    }
    proof {
        assert(stem@.skip(stem@.len() as int) =~= Seq::<char>::empty());
        assert(out@ =~= spec_slug(stem@));
    }
    string_from_chars(&out)
}

/// Strict lexicographic order on character sequences, by code point.
pub open spec fn seq_lt(a: Seq<char>, b: Seq<char>) -> bool
    decreases a.len(),
{
    if b.len() == 0 {
        false
    } else if a.len() == 0 {
        true
    } else if (a[0] as u32) < (b[0] as u32) {
        true
    } else if a[0] == b[0] {
        seq_lt(a.drop_first(), b.drop_first())
    } else {
        false
    }
}

proof fn char_cast_injective(c: char, d: char)
    requires
        c as u32 == d as u32,
    ensures
        c == d,
{
}

/// The order is trichotomous: two sequences are ordered one way or the
/// other, or they are equal.
pub proof fn lemma_seq_lt_total(a: Seq<char>, b: Seq<char>)
    ensures
        seq_lt(a, b) || seq_lt(b, a) || a == b,
    decreases a.len(),
{
    if b.len() == 0 || a.len() == 0 {
        if a.len() == b.len() {
            assert(a =~= b);
        }
    } else if (a[0] as u32) < (b[0] as u32) || (b[0] as u32) < (a[0] as u32) {
    } else {
        char_cast_injective(a[0], b[0]);
        lemma_seq_lt_total(a.drop_first(), b.drop_first());
        if !seq_lt(a, b) && !seq_lt(b, a) {
            assert(a.drop_first() == b.drop_first());
            assert(a =~= seq![a[0]] + a.drop_first());
            assert(b =~= seq![b[0]] + b.drop_first());
        }
    }
}

/// The order is irreflexive and asymmetric.
pub proof fn lemma_seq_lt_asymmetric(a: Seq<char>, b: Seq<char>)
    ensures
        !(seq_lt(a, b) && seq_lt(b, a)),
        !seq_lt(a, a),
    decreases a.len(),
{
    if a.len() != 0 && b.len() != 0 && a[0] == b[0] {
        lemma_seq_lt_asymmetric(a.drop_first(), b.drop_first());
    }
    if a.len() != 0 {
        lemma_seq_lt_asymmetric(a.drop_first(), a.drop_first());
    }
}

/// The order is transitive.
pub proof fn lemma_seq_lt_transitive(a: Seq<char>, b: Seq<char>, c: Seq<char>)
    requires
        seq_lt(a, b),
        seq_lt(b, c),
    ensures
        seq_lt(a, c),
    decreases a.len(),
{
    if a.len() != 0 && b.len() != 0 && c.len() != 0 {
        if a[0] == b[0] && b[0] == c[0] {
            lemma_seq_lt_transitive(a.drop_first(), b.drop_first(), c.drop_first());
        }
    }
}

/// Compares two strings in the lexicographic code-point order.
pub fn str_lt(a: &str, b: &str) -> (r: bool)
    ensures
        r == seq_lt(a@, b@),
{
    let alen = a.unicode_len();
    let blen = b.unicode_len();
    let mut i: usize = 0;
    proof {
        assert(a@.skip(0) =~= a@);
        assert(b@.skip(0) =~= b@);
    }
    while i < alen && i < blen
        invariant
            i <= alen,
            i <= blen,
            alen == a@.len(),
            blen == b@.len(),
            seq_lt(a@, b@) == seq_lt(a@.skip(i as int), b@.skip(i as int)),
        decreases alen - i,
    {
        let ca = a.get_char(i);
        let cb = b.get_char(i);
        proof {
            assert(a@.skip(i as int)[0] == a@[i as int]);
            assert(b@.skip(i as int)[0] == b@[i as int]);
            assert(a@.skip(i as int).drop_first() =~= a@.skip(i + 1 as int));
            assert(b@.skip(i as int).drop_first() =~= b@.skip(i + 1 as int));
        }
        if (ca as u32) < (cb as u32) {
            return true;
        }
        if (cb as u32) < (ca as u32) {
            return false;
        }
        proof {
            char_cast_injective(ca, cb);
        }
        i = i + 1;
    }
    alen < blen
}

/// Decides character-sequence equality of two strings.
pub fn str_eq(a: &str, b: &str) -> (r: bool)
    ensures
        r == (a@ == b@),
{
    let alen = a.unicode_len();
    let blen = b.unicode_len();
    if alen != blen {
        return false;
    }
    let mut i: usize = 0;
    while i < alen
        invariant
            i <= alen,
            alen == a@.len(),
            blen == b@.len(),
            alen == blen,
            forall|j: int| 0 <= j < i ==> a@[j] == b@[j],
        decreases alen - i,
    {
        if a.get_char(i) != b.get_char(i) {
            return false;
        }
        i = i + 1;
    }
    proof {
        assert(a@ =~= b@);
    }
    true
}

/// `pat` occurs contiguously inside `s`.
pub open spec fn is_substring(pat: Seq<char>, s: Seq<char>) -> bool {
    exists|k: int|
        0 <= k <= s.len() - pat.len() && #[trigger] s.subrange(k, k + pat.len() as int) == pat
}

/// Decides whether `pat` occurs as a contiguous substring of `s`.
pub fn str_contains(s: &str, pat: &str) -> (r: bool)
    ensures
        r == is_substring(pat@, s@),
{
    let slen = s.unicode_len();
    let plen = pat.unicode_len();
    if plen > slen {
        return false;
    }
    if plen == 0 {
        proof {
            assert(s@.subrange(0, 0 + pat@.len() as int) =~= pat@);
        }
        return true;
    }
    let mut k: usize = 0;
    while k <= slen - plen
        invariant
            1 <= plen <= slen,
            slen == s@.len(),
            plen == pat@.len(),
            k <= slen - plen + 1,
            forall|k0: int|
                0 <= k0 < k ==> #[trigger] s@.subrange(k0, k0 + plen as int) != pat@,
        decreases slen - plen - k + 1,
    {
        let mut j: usize = 0;
        let mut mismatch = false;
        while j < plen
            invariant
                k + plen <= slen,
                slen == s@.len(),
                plen == pat@.len(),
                j <= plen,
                !mismatch ==> s@.subrange(k as int, k + j as int) =~= pat@.take(j as int),
                mismatch ==> s@.subrange(k as int, k + plen as int) != pat@,
            decreases plen - j,
        {
            if s.get_char(k + j) != pat.get_char(j) {
                proof {
                    assert(s@.subrange(k as int, k + plen as int)[j as int] == s@[k + j as int]);
                }
                mismatch = true;
                j = plen;
            } else {
                proof {
                    assert(s@.subrange(k as int, k + j + 1 as int) =~= s@.subrange(
                        k as int,
                        k + j as int,
                    ).push(s@[k + j as int]));
                    assert(pat@.take(j + 1 as int) =~= pat@.take(j as int).push(pat@[j as int]));
                }
                j = j + 1;
            }
        }
        if !mismatch {
            proof {
                assert(pat@.take(plen as int) =~= pat@);
                assert(s@.subrange(k as int, k + plen as int) == pat@);
            }
            return true;
        }
        k = k + 1;
    }
    proof {
        assert(forall|k0: int|
            0 <= k0 <= slen - plen ==> #[trigger] s@.subrange(k0, k0 + plen as int) != pat@);
    }
    false
}

/// Appends the characters of `s` to `out`.
pub fn push_str_chars(out: &mut Vec<char>, s: &str)
    ensures
        final(out)@ == old(out)@ + s@,
{
    let mut cs = chars_of(s);
    out.append(&mut cs);
}

/// The elements of `xs` joined by a single space.
pub open spec fn spec_join_space(xs: Seq<Seq<char>>) -> Seq<char>
    decreases xs.len(),
{
    if xs.len() == 0 {
        Seq::empty()
    } else if xs.len() == 1 {
        xs[0]
    } else {
        spec_join_space(xs.drop_last()) + seq![' '] + xs.last()
    }
}

/// Joins the strings of `xs` with single spaces.
pub fn join_space(xs: &Vec<String>) -> (r: Vec<char>)
    ensures
        r@ == spec_join_space(xs.deep_view()),
{
    let mut out: Vec<char> = Vec::new();
    let mut i: usize = 0;
    while i < xs.len()
        invariant
            i <= xs@.len(),
            xs.deep_view().len() == xs@.len(),
            out@ == spec_join_space(xs.deep_view().take(i as int)),
        decreases xs@.len() - i,
    {
        let ghost prev = out@;
        if i > 0 {
            out.push(' ');
        }
        push_str_chars(&mut out, xs[i].as_str());
        proof {
            assert(xs.deep_view()[i as int] == xs@[i as int]@);
            assert(xs.deep_view().take(i + 1 as int).drop_last() =~= xs.deep_view().take(i as int));
            assert(xs.deep_view().take(i + 1 as int).last() == xs.deep_view()[i as int]);
            if i == 0 {
                assert(out@ =~= spec_join_space(xs.deep_view().take(i + 1 as int)));
            } else {
                assert(out@ =~= spec_join_space(xs.deep_view().take(i as int)) + seq![' ']
                    + xs.deep_view()[i as int]);
            }
        }
        i = i + 1;
    }
    proof {
        assert(xs.deep_view().take(xs@.len() as int) =~= xs.deep_view());
    }
    out
}

} // verus!
