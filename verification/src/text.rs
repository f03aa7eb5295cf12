//! Verified text utilities over character sequences: trimming, splitting
//! into lines and words, joining, decimal numerals and case-insensitive
//! search. Every executable function is specified against a spec-level
//! definition on `Seq<char>`.

use vstd::prelude::*;

verus! {

/// The whitespace the parsers recognise.
pub open spec fn is_space(c: char) -> bool {
    c == ' ' || c == '\t' || c == '\r' || c == '\n'
}

/// Exec mirror of `is_space`.
pub fn is_space_char(c: char) -> (r: bool)
    ensures
        r == is_space(c),
{
    c == ' ' || c == '\t' || c == '\r' || c == '\n'
}

pub open spec fn trim_start_rec(s: Seq<char>) -> Seq<char>
    decreases s.len(),
{
    if s.len() > 0 && is_space(s[0]) {
        trim_start_rec(s.drop_first())
    } else {
        s
    }
}

pub open spec fn trim_end_rec(s: Seq<char>) -> Seq<char>
    decreases s.len(),
{
    if s.len() > 0 && is_space(s.last()) {
        trim_end_rec(s.drop_last())
    } else {
        s
    }
}

/// What trimming leading and trailing whitespace leaves.
pub open spec fn trimmed(s: Seq<char>) -> Seq<char> {
    trim_end_rec(trim_start_rec(s))
}

proof fn lemma_trim_start_at(s: Seq<char>, k: int)
    requires
        0 <= k <= s.len(),
        forall|j: int| 0 <= j < k ==> is_space(s[j]),
        k == s.len() || !is_space(s[k]),
    ensures
        trim_start_rec(s) == s.subrange(k, s.len() as int),
    decreases k,
{
    if k == 0 {
        assert(s.subrange(0, s.len() as int) =~= s);
    } else {
        let t = s.drop_first();
        assert(forall|j: int| 0 <= j < k - 1 ==> is_space(t[j]));
        lemma_trim_start_at(t, k - 1);
        assert(t.subrange(k - 1, t.len() as int) =~= s.subrange(k, s.len() as int));
    }
}

pub proof fn lemma_trim_end_at(s: Seq<char>, k: int)
    requires
        0 <= k <= s.len(),
        forall|j: int| k <= j < s.len() ==> is_space(s[j]),
        k == 0 || !is_space(s[k - 1]),
    ensures
        trim_end_rec(s) == s.subrange(0, k),
    decreases s.len() - k,
{
    if k == s.len() {
        assert(s.subrange(0, k) =~= s);
    } else {
        let t = s.drop_last();
        assert(forall|j: int| k <= j < t.len() ==> is_space(t[j]));
        lemma_trim_end_at(t, k);
        assert(t.subrange(0, k) =~= s.subrange(0, k));
    }
}

/// Copy the range `[i, j)` out of a character vector.
pub fn sub_chars(v: &Vec<char>, i: usize, j: usize) -> (r: Vec<char>)
    requires
        i <= j <= v@.len(),
    ensures
        r@ == v@.subrange(i as int, j as int),
{
    let mut r: Vec<char> = Vec::new();
    let mut k: usize = i;
    while k < j
        invariant
            i <= k <= j <= v@.len(),
            r@ =~= v@.subrange(i as int, k as int),
        decreases j - k,
    {
        r.push(v[k]);
        k = k + 1;
        proof {
            assert(r@ =~= v@.subrange(i as int, k as int));
        }
    }
    r
}

/// Trim leading and trailing whitespace.
pub fn trim_chars(v: &Vec<char>) -> (r: Vec<char>)
    ensures
        r@ == trimmed(v@),
{
    let n = v.len();
    let mut lo: usize = 0;
    while lo < n && is_space_char(v[lo])
        invariant
            lo <= n == v@.len(),
            forall|j: int| 0 <= j < lo ==> is_space(v@[j]),
        decreases n - lo,
    {
        lo = lo + 1;
    }
    proof {
        lemma_trim_start_at(v@, lo as int);
    }
    if lo == n {
        proof {
            assert(trim_start_rec(v@) =~= Seq::<char>::empty());
            assert(trimmed(v@) =~= Seq::<char>::empty());
        }
        Vec::new()
    } else {
        let ghost s = trim_start_rec(v@);
        let mut hi: usize = n;
        while hi > lo && is_space_char(v[hi - 1])
            invariant
                lo <= hi <= n == v@.len(),
                forall|j: int| hi <= j < n ==> is_space(v@[j]),
                !is_space(v@[lo as int]),
            decreases hi,
        {
            hi = hi - 1;
        }
        proof {
            assert(s == v@.subrange(lo as int, n as int));
            assert(forall|j: int| hi - lo <= j < s.len() ==> is_space(s[j]));
            lemma_trim_end_at(s, hi - lo);
            assert(s.subrange(0, hi - lo) =~= v@.subrange(lo as int, hi as int));
        }
        sub_chars(v, lo, hi)
    }
}

/// Index of the first occurrence of `c`, or the length when absent.
pub open spec fn find_char_from(s: Seq<char>, c: char) -> int
    decreases s.len(),
{
    if s.len() == 0 {
        0
    } else if s[0] == c {
        0
    } else {
        1 + find_char_from(s.drop_first(), c)
    }
}

pub proof fn lemma_find_char(s: Seq<char>, c: char)
    ensures
        0 <= find_char_from(s, c) <= s.len(),
        forall|j: int| 0 <= j < find_char_from(s, c) ==> s[j] != c,
        find_char_from(s, c) < s.len() ==> s[find_char_from(s, c)] == c,
    decreases s.len(),
{
    if s.len() > 0 && s[0] != c {
        lemma_find_char(s.drop_first(), c);
        assert(forall|j: int| 1 <= j < s.len() ==> s[j] == s.drop_first()[j - 1]);
    }
}

/// The first occurrence is unique, so a scan that finds it matches the spec.
pub proof fn lemma_find_char_is(s: Seq<char>, c: char, k: int)
    requires
        0 <= k <= s.len(),
        forall|j: int| 0 <= j < k ==> s[j] != c,
        k == s.len() || s[k] == c,
    ensures
        find_char_from(s, c) == k,
{
    lemma_find_char(s, c);
    let f = find_char_from(s, c);
    if f < k {
        assert(s[f] == c);
        assert(false);
    }
    if k < f {
        assert(s[k] != c);
        assert(false);
    }
}

/// Index of the first whitespace character, or the length when absent.
pub open spec fn find_space_from(s: Seq<char>) -> int
    decreases s.len(),
{
    if s.len() == 0 {
        0
    } else if is_space(s[0]) {
        0
    } else {
        1 + find_space_from(s.drop_first())
    }
}

pub proof fn lemma_find_space(s: Seq<char>)
    ensures
        0 <= find_space_from(s) <= s.len(),
        forall|j: int| 0 <= j < find_space_from(s) ==> !is_space(s[j]),
        find_space_from(s) < s.len() ==> is_space(s[find_space_from(s)]),
    decreases s.len(),
{
    if s.len() > 0 && !is_space(s[0]) {
        lemma_find_space(s.drop_first());
        assert(forall|j: int| 1 <= j < s.len() ==> s[j] == s.drop_first()[j - 1]);
    }
}

pub proof fn lemma_find_space_is(s: Seq<char>, k: int)
    requires
        0 <= k <= s.len(),
        forall|j: int| 0 <= j < k ==> !is_space(s[j]),
        k == s.len() || is_space(s[k]),
    ensures
        find_space_from(s) == k,
{
    lemma_find_space(s);
    let f = find_space_from(s);
    if f < k {
        assert(is_space(s[f]));
        assert(false);
    }
    if k < f {
        assert(!is_space(s[k]));
        assert(false);
    }
}

/// One carriage return stripped from the end, as `str::lines` does it.
pub open spec fn strip_cr(l: Seq<char>) -> Seq<char> {
    if l.len() > 0 && l.last() == '\r' {
        l.drop_last()
    } else {
        l
    }
}

/// The lines of a text: split at `'\n'`, one `'\r'` stripped before each
/// split point, no final empty line after a trailing `'\n'`.
pub open spec fn split_lines(s: Seq<char>) -> Seq<Seq<char>>
    decreases s.len(),
{
    if s.len() == 0 {
        seq![]
    } else {
        let i = find_char_from(s, '\n');
        // the range test always holds; it makes termination structural
        if 0 <= i < s.len() {
            seq![strip_cr(s.subrange(0, i))] + split_lines(
                s.subrange(i + 1, s.len() as int),
            )
        } else {
            seq![s]
        }
    }
}

/// The views of a vector of character vectors, in order.
pub open spec fn views_of(s: Seq<Vec<char>>) -> Seq<Seq<char>> {
    Seq::new(s.len(), |i: int| s[i]@)
}

pub proof fn lemma_views_push(s: Seq<Vec<char>>, x: Vec<char>)
    ensures
        views_of(s.push(x)) == views_of(s).push(x@),
{
    assert(views_of(s.push(x)) =~= views_of(s).push(x@));
}

/// Split a text into its lines.
pub fn split_lines_chars(v: &Vec<char>) -> (r: Vec<Vec<char>>)
    ensures
        views_of(r@) == split_lines(v@),
{
    let n = v.len();
    let mut r: Vec<Vec<char>> = Vec::new();
    let mut pos: usize = 0;
    proof {
        assert(v@.subrange(0, n as int) =~= v@);
        assert(views_of(r@) =~= Seq::<Seq<char>>::empty());
    }
    while pos < n
        invariant
            pos <= n == v@.len(),
            split_lines(v@) == views_of(r@) + split_lines(v@.subrange(pos as int, n as int)),
        decreases n - pos,
    {
        let ghost suffix = v@.subrange(pos as int, n as int);
        let ghost old_views = views_of(r@);
        let mut i: usize = pos;
        while i < n && v[i] != '\n'
            invariant
                pos <= i <= n == v@.len(),
                forall|j: int| pos <= j < i ==> v@[j] != '\n',
            decreases n - i,
        {
            i = i + 1;
        }
        proof {
            assert(forall|j: int| 0 <= j < i - pos ==> suffix[j] == v@[pos + j]);
            lemma_find_char_is(suffix, '\n', i - pos);
        }
        let line: Vec<char> = if i < n {
            // a newline was found: strip one '\r' before it
            if i > pos && v[i - 1] == '\r' {
                proof {
                    let seg = suffix.subrange(0, i - pos);
                    assert(seg.last() == '\r');
                    assert(strip_cr(seg) =~= v@.subrange(pos as int, i - 1));
                }
                sub_chars(v, pos, i - 1)
            } else {
                proof {
                    let seg = suffix.subrange(0, i - pos);
                    assert(strip_cr(seg) =~= v@.subrange(pos as int, i as int));
                }
                sub_chars(v, pos, i)
            }
        } else {
            proof {
                assert(suffix =~= v@.subrange(pos as int, i as int));
            }
            sub_chars(v, pos, i)
        };
        proof {
            lemma_views_push(r@, line);
        }
        r.push(line);
        if i < n {
            proof {
                let f = i - pos;
                assert(split_lines(suffix) == seq![strip_cr(suffix.subrange(0, f))]
                    + split_lines(suffix.subrange(f + 1, suffix.len() as int)));
                assert(strip_cr(suffix.subrange(0, f)) == line@);
                assert(suffix.subrange(f + 1, suffix.len() as int) =~= v@.subrange(
                    i + 1,
                    n as int,
                ));
                assert(views_of(r@) + split_lines(v@.subrange(i + 1, n as int)) =~= old_views
                    + split_lines(suffix));
            }
            pos = i + 1;
        } else {
            proof {
                assert(suffix.len() > 0);
                assert(split_lines(suffix) == seq![suffix]);
                assert(line@ == suffix);
                assert(v@.subrange(n as int, n as int) =~= Seq::<char>::empty());
                assert(split_lines(v@.subrange(n as int, n as int)) =~= Seq::<
                    Seq<char>,
                >::empty());
                assert(views_of(r@) + split_lines(v@.subrange(n as int, n as int)) =~= old_views
                    + split_lines(suffix));
            }
            pos = n;
        }
    }
    proof {
        assert(v@.subrange(n as int, n as int) =~= Seq::<char>::empty());
        assert(split_lines(v@) =~= views_of(r@));
    }
    r
}

/// The whitespace-separated words of a text, in order, none empty.
pub open spec fn split_ws(s: Seq<char>) -> Seq<Seq<char>>
    decreases s.len(),
{
    if s.len() == 0 {
        seq![]
    } else if is_space(s[0]) {
        split_ws(s.drop_first())
    } else {
        let i = find_space_from(s);
        // the range test always holds; it makes termination structural
        if 1 <= i <= s.len() {
            seq![s.subrange(0, i)] + split_ws(s.subrange(i, s.len() as int))
        } else {
            seq![s]
        }
    }
}

/// Split a text into whitespace-separated words.
pub fn split_ws_chars(v: &Vec<char>) -> (r: Vec<Vec<char>>)
    ensures
        views_of(r@) == split_ws(v@),
{
    let n = v.len();
    let mut r: Vec<Vec<char>> = Vec::new();
    let mut pos: usize = 0;
    proof {
        assert(v@.subrange(0, n as int) =~= v@);
        assert(views_of(r@) =~= Seq::<Seq<char>>::empty());
    }
    while pos < n
        invariant
            pos <= n == v@.len(),
            split_ws(v@) == views_of(r@) + split_ws(v@.subrange(pos as int, n as int)),
        decreases n - pos,
    {
        if is_space_char(v[pos]) {
            proof {
                let suffix = v@.subrange(pos as int, n as int);
                assert(suffix.drop_first() =~= v@.subrange(pos + 1, n as int));
                assert(split_ws(suffix) == split_ws(suffix.drop_first()));
            }
            pos = pos + 1;
        } else {
            let ghost suffix = v@.subrange(pos as int, n as int);
            let ghost old_views = views_of(r@);
            let mut i: usize = pos;
            while i < n && !is_space_char(v[i])
                invariant
                    pos <= i <= n == v@.len(),
                    forall|j: int| pos <= j < i ==> !is_space(v@[j]),
                decreases n - i,
            {
                i = i + 1;
            }
            proof {
                assert(forall|j: int| 0 <= j < i - pos ==> suffix[j] == v@[pos + j]);
                lemma_find_space_is(suffix, i - pos);
            }
            let word = sub_chars(v, pos, i);
            proof {
                lemma_views_push(r@, word);
            }
            r.push(word);
            proof {
                let f = i - pos;
                assert(!is_space(suffix[0]));
                assert(split_ws(suffix) == seq![suffix.subrange(0, f)] + split_ws(
                    suffix.subrange(f, suffix.len() as int),
                ));
                assert(suffix.subrange(0, f) =~= word@);
                assert(suffix.subrange(f, suffix.len() as int) =~= v@.subrange(
                    i as int,
                    n as int,
                ));
                assert(views_of(r@) + split_ws(v@.subrange(i as int, n as int)) =~= old_views
                    + split_ws(suffix));
            }
            pos = i;
        }
    }
    proof {
        assert(v@.subrange(n as int, n as int) =~= Seq::<char>::empty());
        assert(split_ws(v@) =~= views_of(r@));
    }
    r
}

/// Words joined with single spaces.
pub open spec fn join_sp(ws: Seq<Seq<char>>) -> Seq<char>
    decreases ws.len(),
{
    if ws.len() == 0 {
        seq![]
    } else if ws.len() == 1 {
        ws[0]
    } else {
        ws[0] + seq![' '] + join_sp(ws.drop_first())
    }
}

pub proof fn lemma_join_push(ws: Seq<Seq<char>>, w: Seq<char>)
    ensures
        join_sp(ws.push(w)) == if ws.len() == 0 {
            w
        } else {
            join_sp(ws) + seq![' '] + w
        },
    decreases ws.len(),
{
    if ws.len() == 0 {
        assert(ws.push(w)[0] =~= w);
        assert(join_sp(ws.push(w)) =~= w);
    } else if ws.len() == 1 {
        assert(ws.push(w).drop_first() =~= seq![w]);
        assert(join_sp(seq![w]) == w);
        assert(ws.push(w)[0] == ws[0]);
        assert(join_sp(ws.push(w)) == ws.push(w)[0] + seq![' '] + join_sp(ws.push(w).drop_first()));
        assert(join_sp(ws.push(w)) =~= ws[0] + seq![' '] + w);
        assert(join_sp(ws) + seq![' '] + w =~= ws[0] + seq![' '] + w);
    } else {
        lemma_join_push(ws.drop_first(), w);
        assert(ws.push(w).drop_first() =~= ws.drop_first().push(w));
        assert(ws.push(w)[0] == ws[0]);
        assert(join_sp(ws.push(w)) == ws[0] + seq![' '] + join_sp(ws.drop_first().push(w)));
        assert(join_sp(ws.push(w)) =~= join_sp(ws) + seq![' '] + w);
    }
}

/// Join words with single spaces.
pub fn join_sp_chars(words: &Vec<Vec<char>>) -> (r: Vec<char>)
    ensures
        r@ == join_sp(views_of(words@)),
{
    let n = words.len();
    let mut r: Vec<char> = Vec::new();
    let mut i: usize = 0;
    proof {
        assert(views_of(words@).subrange(0, 0) =~= Seq::<Seq<char>>::empty());
        assert(r@ =~= join_sp(views_of(words@).subrange(0, 0)));
    }
    while i < n
        invariant
            i <= n == words@.len(),
            r@ == join_sp(views_of(words@).subrange(0, i as int)),
        decreases n - i,
    {
        if i > 0 {
            r.push(' ');
        }
        let w = &words[i];
        r.extend_from_slice(w.as_slice());
        proof {
            let vs = views_of(words@);
            let pre = vs.subrange(0, i as int);
            lemma_join_push(pre, vs[i as int]);
            assert(pre.push(vs[i as int]) =~= vs.subrange(0, i + 1));
            assert(vs[i as int] == words@[i as int]@);
            assert(r@ =~= join_sp(vs.subrange(0, i + 1)));
        }
        i = i + 1;
    }
    proof {
        assert(views_of(words@).subrange(0, n as int) =~= views_of(words@));
    }
    r
}

/// Words joined with a separator.
pub open spec fn join_with(ws: Seq<Seq<char>>, sep: Seq<char>) -> Seq<char>
    decreases ws.len(),
{
    if ws.len() == 0 {
        seq![]
    } else if ws.len() == 1 {
        ws[0]
    } else {
        ws[0] + sep + join_with(ws.drop_first(), sep)
    }
}

pub proof fn lemma_join_with_push(ws: Seq<Seq<char>>, sep: Seq<char>, w: Seq<char>)
    ensures
        join_with(ws.push(w), sep) == if ws.len() == 0 {
            w
        } else {
            join_with(ws, sep) + sep + w
        },
    decreases ws.len(),
{
    if ws.len() == 0 {
        assert(ws.push(w)[0] =~= w);
        assert(join_with(ws.push(w), sep) =~= w);
    } else if ws.len() == 1 {
        assert(ws.push(w).drop_first() =~= seq![w]);
        assert(join_with(seq![w], sep) == w);
        assert(ws.push(w)[0] == ws[0]);
        assert(join_with(ws.push(w), sep) == ws.push(w)[0] + sep + join_with(
            ws.push(w).drop_first(),
            sep,
        ));
        assert(join_with(ws.push(w), sep) =~= ws[0] + sep + w);
        assert(join_with(ws, sep) + sep + w =~= ws[0] + sep + w);
    } else {
        lemma_join_with_push(ws.drop_first(), sep, w);
        assert(ws.push(w).drop_first() =~= ws.drop_first().push(w));
        assert(ws.push(w)[0] == ws[0]);
        assert(join_with(ws.push(w), sep) == ws[0] + sep + join_with(
            ws.drop_first().push(w),
            sep,
        ));
        assert(join_with(ws.push(w), sep) =~= join_with(ws, sep) + sep + w);
    }
}

/// Join words with a separator string.
pub fn join_with_chars(words: &Vec<Vec<char>>, sep: &str) -> (r: Vec<char>)
    ensures
        r@ == join_with(views_of(words@), sep@),
{
    let n = words.len();
    let mut r: Vec<char> = Vec::new();
    let mut i: usize = 0;
    proof {
        assert(views_of(words@).subrange(0, 0) =~= Seq::<Seq<char>>::empty());
        assert(r@ =~= join_with(views_of(words@).subrange(0, 0), sep@));
    }
    while i < n
        invariant
            i <= n == words@.len(),
            r@ == join_with(views_of(words@).subrange(0, i as int), sep@),
        decreases n - i,
    {
        if i > 0 {
            push_str_chars(&mut r, sep);
        }
        let w = &words[i];
        r.extend_from_slice(w.as_slice());
        proof {
            let vs = views_of(words@);
            let pre = vs.subrange(0, i as int);
            lemma_join_with_push(pre, sep@, vs[i as int]);
            assert(pre.push(vs[i as int]) =~= vs.subrange(0, i + 1));
            assert(vs[i as int] == words@[i as int]@);
            assert(r@ =~= join_with(vs.subrange(0, i + 1), sep@));
        }
        i = i + 1;
    }
    proof {
        assert(views_of(words@).subrange(0, n as int) =~= views_of(words@));
    }
    r
}

/// Does `s` start with prefix `p`?
pub open spec fn starts_with(s: Seq<char>, p: Seq<char>) -> bool {
    s.len() >= p.len() && s.subrange(0, p.len() as int) == p
}

/// Exec prefix test.
pub fn starts_with_chars(v: &Vec<char>, p: &Vec<char>) -> (r: bool)
    ensures
        r == starts_with(v@, p@),
{
    let n = p.len();
    if v.len() < n {
        return false;
    }
    let mut i: usize = 0;
    while i < n
        invariant
            i <= n == p@.len(),
            n <= v@.len(),
            forall|j: int| 0 <= j < i ==> v@[j] == p@[j],
        decreases n - i,
    {
        if v[i] != p[i] {
            proof {
                assert(v@.subrange(0, n as int)[i as int] != p@[i as int]);
            }
            return false;
        }
        i = i + 1;
    }
    proof {
        assert(v@.subrange(0, n as int) =~= p@);
    }
    true
}

/// A decimal digit.
pub open spec fn is_digit(c: char) -> bool {
    '0' <= c && c <= '9'
}

pub open spec fn digit_val(c: char) -> int {
    c as int - '0' as int
}

/// A non-empty run of decimal digits.
pub open spec fn all_digits(s: Seq<char>) -> bool {
    s.len() > 0 && forall|j: int| 0 <= j < s.len() ==> is_digit(s[j])
}

/// The value of a digit run, most significant first.
pub open spec fn digits_val(s: Seq<char>) -> int
    decreases s.len(),
{
    if s.len() == 0 {
        0
    } else {
        digits_val(s.drop_last()) * 10 + digit_val(s.last())
    }
}

pub proof fn lemma_digits_val_nonneg(s: Seq<char>)
    requires
        forall|j: int| 0 <= j < s.len() ==> is_digit(s[j]),
    ensures
        digits_val(s) >= 0,
    decreases s.len(),
{
    if s.len() > 0 {
        lemma_digits_val_nonneg(s.drop_last());
    }
}

/// Extending a digit run never shrinks its value.
pub proof fn lemma_digits_val_monotone(s: Seq<char>, k: int)
    requires
        forall|j: int| 0 <= j < s.len() ==> is_digit(s[j]),
        0 <= k <= s.len(),
    ensures
        digits_val(s) >= digits_val(s.subrange(0, k)),
    decreases s.len() - k,
{
    if k < s.len() {
        lemma_digits_val_monotone(s, k + 1);
        let t = s.subrange(0, k + 1);
        assert(t.drop_last() =~= s.subrange(0, k));
        assert(forall|j: int| 0 <= j < s.subrange(0, k).len() ==> is_digit(s.subrange(0, k)[j]));
        lemma_digits_val_nonneg(s.subrange(0, k));
        assert(digits_val(t) == digits_val(s.subrange(0, k)) * 10 + digit_val(t.last()));
        assert(digit_val(t.last()) >= 0);
        assert(digits_val(s.subrange(0, k)) * 10 >= digits_val(s.subrange(0, k)));
    } else {
        assert(s.subrange(0, k) =~= s);
    }
}

/// What `str::parse::<usize>` accepts: an optional leading `'+'`, then a
/// non-empty digit run whose value fits.
pub open spec fn parse_usize_spec(s: Seq<char>) -> Option<usize> {
    let ds = if s.len() > 0 && s[0] == '+' {
        s.drop_first()
    } else {
        s
    };
    if all_digits(ds) && digits_val(ds) <= usize::MAX {
        Some(digits_val(ds) as usize)
    } else {
        None
    }
}

fn digit_value(c: char) -> (r: usize)
    requires
        is_digit(c),
    ensures
        r == digit_val(c),
        r <= 9,
{
    (c as u32 - '0' as u32) as usize
}

fn parse_digits(v: &Vec<char>, from: usize) -> (r: Option<usize>)
    requires
        from <= v@.len(),
    ensures
        ({
            let ds = v@.subrange(from as int, v@.len() as int);
            match r {
                Some(x) => all_digits(ds) && digits_val(ds) == x,
                None => !(all_digits(ds) && digits_val(ds) <= usize::MAX),
            }
        }),
{
    let ghost ds = v@.subrange(from as int, v@.len() as int);
    let n = v.len();
    if from == n {
        return None;
    }
    let mut acc: usize = 0;
    let mut i: usize = from;
    while i < n
        invariant
            from <= i <= n == v@.len(),
            ds == v@.subrange(from as int, n as int),
            forall|j: int| 0 <= j < i - from ==> is_digit(ds[j]),
            acc == digits_val(ds.subrange(0, i - from)),
        decreases n - i,
    {
        let c = v[i];
        if !(c >= '0' && c <= '9') {
            proof {
                assert(ds[i - from] == c);
                assert(!is_digit(ds[i - from]));
            }
            return None;
        }
        let d = digit_value(c);
        proof {
            let pre = ds.subrange(0, i - from);
            let pre1 = ds.subrange(0, i - from + 1);
            assert(pre1.drop_last() =~= pre);
            assert(pre1.last() == ds[i - from]);
            lemma_digits_val_nonneg(pre);
        }
        if acc > (usize::MAX - d) / 10 {
            proof {
                let pre1 = ds.subrange(0, i - from + 1);
                assert(digits_val(pre1) == acc * 10 + d as int);
                assert(acc * 10 + d > usize::MAX) by {
                    assert(acc >= (usize::MAX - d) / 10 + 1);
                    assert(((usize::MAX - d) / 10 + 1) * 10 > usize::MAX - d) by (nonlinear_arith)
                        requires
                            d <= 9,
                    ;
                    assert(acc * 10 >= ((usize::MAX - d) / 10 + 1) * 10) by (nonlinear_arith)
                        requires
                            acc >= (usize::MAX - d) / 10 + 1,
                    ;
                }
                if all_digits(ds) {
                    lemma_digits_val_monotone(ds, i - from + 1);
                    assert(digits_val(ds) > usize::MAX);
                }
            }
            return None;
        }
        proof {
            assert(acc <= (usize::MAX - d) / 10);
            assert(acc * 10 <= usize::MAX - d) by (nonlinear_arith)
                requires
                    acc <= (usize::MAX - d) / 10,
                    d <= 9,
            ;
        }
        acc = acc * 10 + d;
        i = i + 1;
    }
    proof {
        assert(ds.subrange(0, n - from) =~= ds);
        assert(all_digits(ds));
    }
    Some(acc)
}

/// Parse an unsigned decimal number the way `str::parse::<usize>` does.
pub fn parse_usize_chars(v: &Vec<char>) -> (r: Option<usize>)
    ensures
        r == parse_usize_spec(v@),
{
    if v.len() > 0 && v[0] == '+' {
        proof {
            assert(v@.drop_first() =~= v@.subrange(1, v@.len() as int));
        }
        parse_digits(v, 1)
    } else {
        proof {
            assert(v@ =~= v@.subrange(0, v@.len() as int));
        }
        parse_digits(v, 0)
    }
}

/// The decimal digit character for a value below ten.
pub open spec fn digit_char(d: int) -> char {
    if d == 0 {
        '0'
    } else if d == 1 {
        '1'
    } else if d == 2 {
        '2'
    } else if d == 3 {
        '3'
    } else if d == 4 {
        '4'
    } else if d == 5 {
        '5'
    } else if d == 6 {
        '6'
    } else if d == 7 {
        '7'
    } else if d == 8 {
        '8'
    } else {
        '9'
    }
}

/// The decimal numeral of a natural number, no sign, no leading zeros.
pub open spec fn dec_str(n: int) -> Seq<char>
    decreases n,
{
    if n < 10 {
        seq![digit_char(n)]
    } else {
        dec_str(n / 10) + seq![digit_char(n % 10)]
    }
}

fn digit_to_char(d: u64) -> (r: char)
    requires
        d <= 9,
    ensures
        r == digit_char(d as int),
{
    if d == 0 {
        '0'
    } else if d == 1 {
        '1'
    } else if d == 2 {
        '2'
    } else if d == 3 {
        '3'
    } else if d == 4 {
        '4'
    } else if d == 5 {
        '5'
    } else if d == 6 {
        '6'
    } else if d == 7 {
        '7'
    } else if d == 8 {
        '8'
    } else {
        '9'
    }
}

/// The decimal numeral of a 64-bit number.
pub fn u64_dec_chars(n: u64) -> (r: Vec<char>)
    ensures
        r@ == dec_str(n as int),
    decreases n,
{
    if n < 10 {
        let mut r: Vec<char> = Vec::new();
        r.push(digit_to_char(n));
        proof {
            assert(r@ =~= dec_str(n as int));
        }
        r
    } else {
        let mut r = u64_dec_chars(n / 10);
        r.push(digit_to_char(n % 10));
        proof {
            assert(r@ =~= dec_str(n as int / 10) + seq![digit_char(n as int % 10)]);
        }
        r
    }
}

/// The decimal numeral of a signed number: a minus sign before the magnitude.
pub open spec fn dec_str_i64(n: int) -> Seq<char> {
    if n < 0 {
        seq!['-'] + dec_str(-n)
    } else {
        dec_str(n)
    }
}

/// The decimal numeral of a signed 64-bit number.
pub fn i64_dec_chars(n: i64) -> (r: Vec<char>)
    ensures
        r@ == dec_str_i64(n as int),
{
    if n < 0 {
        // magnitude without overflowing at i64::MIN
        let mag: u64 = ((-(n + 1)) as u64) + 1;
        proof {
            assert(mag == -(n as int));
        }
        let digits = u64_dec_chars(mag);
        let mut r: Vec<char> = Vec::new();
        r.push('-');
        r.extend_from_slice(digits.as_slice());
        proof {
            assert(r@ =~= seq!['-'] + dec_str(mag as int));
        }
        r
    } else {
        u64_dec_chars(n as u64)
    }
}

/// The decimal numeral of a machine-word count.
pub fn usize_dec_chars(n: usize) -> (r: Vec<char>)
    ensures
        r@ == dec_str(n as int),
{
    u64_dec_chars(n as u64)
}

/// Whether the needle occurs in the haystack at offset `k`.
pub open spec fn match_at(hay: Seq<char>, needle: Seq<char>, k: int) -> bool {
    forall|j: int| 0 <= j < needle.len() ==> hay[k + j] == needle[j]
}

/// Substring containment.
pub open spec fn has_substring(hay: Seq<char>, needle: Seq<char>) -> bool {
    exists|k: int| 0 <= k && k + needle.len() <= hay.len() && match_at(hay, needle, k)
}

/// Substring search.
pub fn contains_chars(hay: &Vec<char>, needle: &Vec<char>) -> (r: bool)
    ensures
        r == has_substring(hay@, needle@),
{
    let hn = hay.len();
    let nn = needle.len();
    if nn > hn {
        proof {
            assert(!has_substring(hay@, needle@)) by {
                if has_substring(hay@, needle@) {
                    let k = choose|k: int|
                        0 <= k && k + needle@.len() <= hay@.len() && match_at(
                            hay@,
                            needle@,
                            k,
                        );
                    assert(k + needle@.len() <= hay@.len());
                    assert(false);
                }
            }
        }
        return false;
    }
    let mut k: usize = 0;
    while k <= hn - nn
        invariant
            nn <= hn,
            hn == hay@.len(),
            nn == needle@.len(),
            k <= hn - nn + 1,
            forall|k2: int| 0 <= k2 < k ==> !match_at(hay@, needle@, k2),
        decreases hn - nn - k + 1,
    {
        let mut j: usize = 0;
        let mut ok: bool = true;
        while j < nn
            invariant
                k + nn <= hn,
                hn == hay@.len(),
                nn == needle@.len(),
                j <= nn,
                ok ==> forall|j2: int| 0 <= j2 < j ==> hay@[k + j2] == needle@[j2],
                !ok ==> !match_at(hay@, needle@, k as int),
            decreases nn - j,
        {
            if hay[k + j] != needle[j] {
                ok = false;
                proof {
                    assert(!match_at(hay@, needle@, k as int));
                }
                j = nn;
            } else {
                j = j + 1;
            }
        }
        if ok {
            proof {
                assert(match_at(hay@, needle@, k as int));
            }
            return true;
        }
        k = k + 1;
    }
    proof {
        assert(forall|k2: int| 0 <= k2 && k2 + needle@.len() <= hay@.len() ==> !match_at(
            hay@,
            needle@,
            k2,
        ));
    }
    false
}

/// The characters of a string slice, in order.
pub fn str_to_chars(s: &str) -> (r: Vec<char>)
    ensures
        r@ == s@,
{
    let n = s.unicode_len();
    let mut r: Vec<char> = Vec::new();
    let mut i: usize = 0;
    while i < n
        invariant
            i <= n,
            n == s@.len(),
            r@ =~= s@.subrange(0, i as int),
        decreases n - i,
    {
        r.push(s.get_char(i));
        proof {
            assert(r@ =~= s@.subrange(0, i + 1));
        }
        i = i + 1;
    }
    proof {
        assert(r@ =~= s@);
    }
    r
}

/// Append the characters of a string slice.
pub fn push_str_chars(out: &mut Vec<char>, s: &str)
    ensures
        final(out)@ == old(out)@ + s@,
{
    let cs = str_to_chars(s);
    out.extend_from_slice(cs.as_slice());
}

/// Append the characters of an owned string.
pub fn push_string_chars(out: &mut Vec<char>, s: &String)
    ensures
        final(out)@ == old(out)@ + s@,
{
    push_str_chars(out, s.as_str());
}

/// Relies on `String`'s `FromIterator` over characters: collecting yields
/// exactly the characters handed in, in their order.
#[verifier::external_body]
pub fn chars_to_string(v: &Vec<char>) -> (s: String)
    ensures
        s@ == v@,
{
    v.iter().collect()
}

} // verus!
