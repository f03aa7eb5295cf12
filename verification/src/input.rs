//! The priority notation parser: a single word-like token either names both
//! axes in letter-digit shorthand (`u2i3`, `I1U3`) or consists purely of
//! urgency and importance glyphs (`!!$`). Anything else is no priority token.

use vstd::prelude::*;

use crate::task::clamp_priority;
use crate::text::{digit_val, is_digit};

verus! {

/// The urgency letter, either case.
pub open spec fn is_u_letter(c: char) -> bool {
    c == 'u' || c == 'U'
}

/// The importance letter, either case.
pub open spec fn is_i_letter(c: char) -> bool {
    c == 'i' || c == 'I'
}

/// Index of the first urgency letter, or the length when absent.
pub open spec fn find_u_from(s: Seq<char>) -> int
    decreases s.len(),
{
    if s.len() == 0 {
        0
    } else if is_u_letter(s[0]) {
        0
    } else {
        1 + find_u_from(s.drop_first())
    }
}

/// Index of the first importance letter, or the length when absent.
pub open spec fn find_i_from(s: Seq<char>) -> int
    decreases s.len(),
{
    if s.len() == 0 {
        0
    } else if is_i_letter(s[0]) {
        0
    } else {
        1 + find_i_from(s.drop_first())
    }
}

proof fn lemma_find_u(s: Seq<char>)
    ensures
        0 <= find_u_from(s) <= s.len(),
        forall|j: int| 0 <= j < find_u_from(s) ==> !is_u_letter(s[j]),
        find_u_from(s) < s.len() ==> is_u_letter(s[find_u_from(s)]),
    decreases s.len(),
{
    if s.len() > 0 && !is_u_letter(s[0]) {
        lemma_find_u(s.drop_first());
        assert(forall|j: int| 1 <= j < s.len() ==> s[j] == s.drop_first()[j - 1]);
    }
}

proof fn lemma_find_u_is(s: Seq<char>, k: int)
    requires
        0 <= k <= s.len(),
        forall|j: int| 0 <= j < k ==> !is_u_letter(s[j]),
        k == s.len() || is_u_letter(s[k]),
    ensures
        find_u_from(s) == k,
{
    lemma_find_u(s);
    let f = find_u_from(s);
    if f < k {
        assert(is_u_letter(s[f]));
        assert(false);
    }
    if k < f {
        assert(!is_u_letter(s[k]));
        assert(false);
    }
}

proof fn lemma_find_i(s: Seq<char>)
    ensures
        0 <= find_i_from(s) <= s.len(),
        forall|j: int| 0 <= j < find_i_from(s) ==> !is_i_letter(s[j]),
        find_i_from(s) < s.len() ==> is_i_letter(s[find_i_from(s)]),
    decreases s.len(),
{
    if s.len() > 0 && !is_i_letter(s[0]) {
        lemma_find_i(s.drop_first());
        assert(forall|j: int| 1 <= j < s.len() ==> s[j] == s.drop_first()[j - 1]);
    }
}

proof fn lemma_find_i_is(s: Seq<char>, k: int)
    requires
        0 <= k <= s.len(),
        forall|j: int| 0 <= j < k ==> !is_i_letter(s[j]),
        k == s.len() || is_i_letter(s[k]),
    ensures
        find_i_from(s) == k,
{
    lemma_find_i(s);
    let f = find_i_from(s);
    if f < k {
        assert(is_i_letter(s[f]));
        assert(false);
    }
    if k < f {
        assert(!is_i_letter(s[k]));
        assert(false);
    }
}

/// A whole count clamped into the priority range.
pub open spec fn clamp3_int(x: int) -> u8 {
    if x < 1 {
        1
    } else if x > 3 {
        3
    } else {
        x as u8
    }
}

/// The shorthand reading of a token: both letters must occur, each with a
/// digit immediately after its first occurrence; the digits are clamped.
/// A letter without its digit, or a missing letter, rejects the whole token.
pub open spec fn shorthand_of(s: Seq<char>) -> Option<(u8, u8)> {
    let ui = find_u_from(s);
    let ii = find_i_from(s);
    if ui >= s.len() || ii >= s.len() {
        None
    } else {
        let has_ud = ui + 1 < s.len() && is_digit(s[ui + 1]);
        let has_id = ii + 1 < s.len() && is_digit(s[ii + 1]);
        if has_ud && has_id {
            Some((clamp3_int(digit_val(s[ui + 1])), clamp3_int(digit_val(s[ii + 1]))))
        } else {
            None
        }
    }
}

/// How many times `c` occurs in `s`.
pub open spec fn count_occ(s: Seq<char>, c: char) -> int
    decreases s.len(),
{
    if s.len() == 0 {
        0
    } else {
        count_occ(s.drop_last(), c) + if s.last() == c {
            1int
        } else {
            0int
        }
    }
}

/// The glyph reading of a token: every character must be an urgency or an
/// importance glyph; each count, defaulted to one when the glyph is absent,
/// is clamped. An empty token, or any other character, rejects the token.
pub open spec fn symbol_of(s: Seq<char>) -> Option<(u8, u8)> {
    if exists|j: int| 0 <= j < s.len() && s[j] != '!' && s[j] != '$' {
        None
    } else {
        let nu = count_occ(s, '!');
        let ni = count_occ(s, '$');
        if nu == 0 && ni == 0 {
            None
        } else {
            Some(
                (
                    clamp3_int(if nu == 0 {
                        1
                    } else {
                        nu
                    }),
                    clamp3_int(if ni == 0 {
                        1
                    } else {
                        ni
                    }),
                ),
            )
        }
    }
}

/// What the priority parser accepts: shorthand first, glyphs second.
pub open spec fn priority_of(s: Seq<char>) -> Option<(u8, u8)> {
    if shorthand_of(s) is Some {
        shorthand_of(s)
    } else {
        symbol_of(s)
    }
}

fn find_u_exec(v: &Vec<char>) -> (r: usize)
    ensures
        r == find_u_from(v@),
{
    let n = v.len();
    let mut i: usize = 0;
    while i < n && !(v[i] == 'u' || v[i] == 'U')
        invariant
            i <= n == v@.len(),
            forall|j: int| 0 <= j < i ==> !is_u_letter(v@[j]),
        decreases n - i,
    {
        i = i + 1;
    }
    proof {
        lemma_find_u_is(v@, i as int);
    }
    i
}

fn find_i_exec(v: &Vec<char>) -> (r: usize)
    ensures
        r == find_i_from(v@),
{
    let n = v.len();
    let mut i: usize = 0;
    while i < n && !(v[i] == 'i' || v[i] == 'I')
        invariant
            i <= n == v@.len(),
            forall|j: int| 0 <= j < i ==> !is_i_letter(v@[j]),
        decreases n - i,
    {
        i = i + 1;
    }
    proof {
        lemma_find_i_is(v@, i as int);
    }
    i
}

fn clamp3_count(x: usize) -> (r: u8)
    ensures
        r == clamp3_int(x as int),
{
    if x < 1 {
        1
    } else if x > 3 {
        3
    } else {
        x as u8
    }
}

/// The shorthand reading of a token held as characters.
fn parse_shorthand_chars(v: &Vec<char>) -> (r: Option<(u8, u8)>)
    ensures
        r == shorthand_of(v@),
{
    let n = v.len();
    let ui = find_u_exec(v);
    let ii = find_i_exec(v);
    proof {
        lemma_find_u(v@);
        lemma_find_i(v@);
    }
    if ui >= n || ii >= n {
        return None;
    }
    let has_ud = ui + 1 < n && v[ui + 1] >= '0' && v[ui + 1] <= '9';
    let has_id = ii + 1 < n && v[ii + 1] >= '0' && v[ii + 1] <= '9';
    if has_ud && has_id {
        let ud = (v[ui + 1] as u32 - '0' as u32) as usize;
        let id = (v[ii + 1] as u32 - '0' as u32) as usize;
        Some((clamp3_count(ud), clamp3_count(id)))
    } else {
        None
    }
}

/// The glyph reading of a token held as characters.
fn parse_symbol_chars(v: &Vec<char>) -> (r: Option<(u8, u8)>)
    ensures
        r == symbol_of(v@),
{
    let n = v.len();
    let mut nu: usize = 0;
    let mut ni: usize = 0;
    let mut k: usize = 0;
    while k < n
        invariant
            k <= n == v@.len(),
            forall|j: int| 0 <= j < k ==> (v@[j] == '!' || v@[j] == '$'),
            nu == count_occ(v@.subrange(0, k as int), '!'),
            ni == count_occ(v@.subrange(0, k as int), '$'),
            nu + ni == k,
        decreases n - k,
    {
        let c = v[k];
        proof {
            let pre = v@.subrange(0, k as int);
            let pre1 = v@.subrange(0, k + 1);
            assert(pre1.drop_last() =~= pre);
            assert(pre1.last() == v@[k as int]);
        }
        if c == '!' {
            nu = nu + 1;
        } else if c == '$' {
            ni = ni + 1;
        } else {
            proof {
                assert(v@[k as int] != '!' && v@[k as int] != '$');
            }
            return None;
        }
        k = k + 1;
    }
    proof {
        assert(v@.subrange(0, n as int) =~= v@);
        assert(forall|j: int| 0 <= j < v@.len() ==> (v@[j] == '!' || v@[j] == '$'));
    }
    if nu == 0 && ni == 0 {
        None
    } else {
        let u = if nu == 0 {
            1
        } else {
            nu
        };
        let i = if ni == 0 {
            1
        } else {
            ni
        };
        Some((clamp3_count(u), clamp3_count(i)))
    }
}

/// The priority reading of a token held as characters.
pub fn parse_priority_chars(v: &Vec<char>) -> (r: Option<(u8, u8)>)
    ensures
        r == priority_of(v@),
        r matches Some(p) ==> 1 <= p.0 <= 3 && 1 <= p.1 <= 3,
{
    let sh = parse_shorthand_chars(v);
    if sh.is_some() {
        return sh;
    }
    parse_symbol_chars(v)
}

/// Read a word-like token as a priority notation: `Some(urgency, importance)`
/// when the token is one of the two notations, `None` when it is not, so a
/// caller can treat the token as ordinary title text.
pub fn parse_priority(input: &str) -> (r: Option<(u8, u8)>)
    ensures
        r == priority_of(input@),
        r matches Some(p) ==> 1 <= p.0 <= 3 && 1 <= p.1 <= 3,
{
    let chars = crate::text::str_to_chars(input);
    parse_priority_chars(&chars)
}

/// Law: whatever the parser accepts is already inside the priority grid —
/// both axes of an accepted token are clamped into `[1, 3]`.
pub proof fn lemma_priority_clamped(s: Seq<char>)
    ensures
        priority_of(s) matches Some(p) ==> p.0 == clamp_priority(p.0) && p.1 == clamp_priority(
            p.1,
        ),
{
}

} // verus!
