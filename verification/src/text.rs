//! String utilities: decimal parsing and printing, substring search,
//! splitting, trimming. Everything here is pure and verified against
//! spec functions over `Seq<char>`.

use vstd::prelude::*;

verus! {

// ---------------------------------------------------------------------------
// Decimal digits
// ---------------------------------------------------------------------------

pub open spec fn is_digit_char(c: char) -> bool {
    '0' <= c && c <= '9'
}

pub open spec fn digit_val(c: char) -> nat {
    (c as int - '0' as int) as nat
}

pub open spec fn all_digits(s: Seq<char>) -> bool {
    forall|i: int| 0 <= i < s.len() ==> is_digit_char(#[trigger] s[i])
}

/// Value of a digit string, most significant digit first.
pub open spec fn digits_val(s: Seq<char>) -> nat
    decreases s.len(),
{
    if s.len() == 0 {
        0
    } else {
        digits_val(s.drop_last()) * 10 + digit_val(s.last())
    }
}

/// What parsing a whole string as a decimal `u64` yields: the string must be
/// non-empty, all digits, and the value must fit.
pub open spec fn spec_parse_u64(s: Seq<char>) -> Option<u64> {
    if s.len() > 0 && all_digits(s) && digits_val(s) <= u64::MAX {
        Some(digits_val(s) as u64)
    } else {
        None
    }
}

proof fn lemma_digits_val_take_succ(s: Seq<char>, i: int)
    requires
        0 <= i < s.len(),
    ensures
        digits_val(s.take(i + 1)) == digits_val(s.take(i)) * 10 + digit_val(s[i]),
{
    assert(s.take(i + 1).drop_last() =~= s.take(i));
    assert(s.take(i + 1).last() == s[i]);
}

/// The value of a prefix never exceeds the value of the whole string.
proof fn lemma_digits_val_prefix_le(s: Seq<char>, i: int)
    requires
        0 <= i <= s.len(),
    ensures
        digits_val(s.take(i)) <= digits_val(s),
    decreases s.len() - i,
{
    if i == s.len() {
        assert(s.take(i) =~= s);
    } else {
        lemma_digits_val_take_succ(s, i);
        lemma_digits_val_prefix_le(s, i + 1);
    }
}

/// Parses a whole string as a decimal `u64`; `None` on an empty string, a
/// non-digit character, or overflow.
pub fn parse_u64(s: &str) -> (r: Option<u64>)
    ensures
        r == spec_parse_u64(s@),
{
    let n = s.unicode_len();
    if n == 0 {
        return None;
    }
    let mut acc: u64 = 0;
    let mut i: usize = 0;
    while i < n
        invariant
            n == s@.len(),
            0 <= i <= n,
            all_digits(s@.take(i as int)),
            acc == digits_val(s@.take(i as int)),
        decreases n - i,
    {
        let c = s.get_char(i);
        if !('0' <= c && c <= '9') {
            assert(!is_digit_char(s@[i as int]));
            return None;
        }
        let d: u64 = ((c as u32) - 48) as u64;
        assert(d == digit_val(s@[i as int]));
        if acc > (u64::MAX - d) / 10 {
            proof {
                lemma_digits_val_take_succ(s@, i as int);
                assert(digits_val(s@.take(i as int + 1)) > u64::MAX) by (nonlinear_arith)
                    requires
                        digits_val(s@.take(i as int + 1)) == acc * 10 + d,
                        acc > (u64::MAX - d) / 10,
                        d <= 9,
                ;
                lemma_digits_val_prefix_le(s@, i as int + 1);
            }
            return None;
        }
        proof {
            lemma_digits_val_take_succ(s@, i as int);
            assert(acc * 10 + d <= u64::MAX) by (nonlinear_arith)
                requires
                    acc <= (u64::MAX - d) / 10,
                    d <= 9,
            ;
        }
        acc = acc * 10 + d;
        i = i + 1;
    }
    proof {
        assert(s@.take(n as int) =~= s@);
    }
    Some(acc)
}

// ---------------------------------------------------------------------------
// Decimal printing
// ---------------------------------------------------------------------------

pub open spec fn spec_digit_char(d: nat) -> char {
    if d == 0 {
        '0'
    } else if d == 1 {
        '1'
    } else if d == 2 {
        '2'
    } else if d == 3 {
        '3'
    } else if d == 4 {
        '4'
    } else if d == 5 {
        '5'
    } else if d == 6 {
        '6'
    } else if d == 7 {
        '7'
    } else if d == 8 {
        '8'
    } else {
        '9'
    }
}

/// The decimal digits of `n`, most significant first, no leading zeros
/// (except for `n == 0` itself).
pub open spec fn spec_u64_digits(n: nat) -> Seq<char>
    decreases n,
{
    if n < 10 {
        seq![spec_digit_char(n)]
    } else {
        spec_u64_digits(n / 10).push(spec_digit_char(n % 10))
    }
}

/// The decimal rendering of a signed value: a minus sign before the digits
/// of the magnitude when negative.
pub open spec fn spec_i64_digits(n: int) -> Seq<char> {
    if n >= 0 {
        spec_u64_digits(n as nat)
    } else {
        seq!['-'] + spec_u64_digits((-n) as nat)
    }
}

fn digit_str(d: u64) -> (r: String)
    requires
        d < 10,
    ensures
        r@ == seq![spec_digit_char(d as nat)],
{
    proof {
        reveal_strlit("0");
        reveal_strlit("1");
        reveal_strlit("2");
        reveal_strlit("3");
        reveal_strlit("4");
        reveal_strlit("5");
        reveal_strlit("6");
        reveal_strlit("7");
        reveal_strlit("8");
        reveal_strlit("9");
    }
    let r = match d {
        0 => String::from_str("0"),
        1 => String::from_str("1"),
        2 => String::from_str("2"),
        3 => String::from_str("3"),
        4 => String::from_str("4"),
        5 => String::from_str("5"),
        6 => String::from_str("6"),
        7 => String::from_str("7"),
        8 => String::from_str("8"),
        _ => String::from_str("9"),
    };
    proof {
        assert(r@ =~= seq![spec_digit_char(d as nat)]);
    }
    r
}

/// Renders `n` in decimal.
pub fn u64_to_string(n: u64) -> (r: String)
    ensures
        r@ == spec_u64_digits(n as nat),
    decreases n,
{
    if n < 10 {
        digit_str(n)
    } else {
        let mut r = u64_to_string(n / 10);
        let last = digit_str(n % 10);
        r.append(last.as_str());
        proof {
            assert(r@ =~= spec_u64_digits((n / 10) as nat).push(spec_digit_char((n % 10) as nat)));
        }
        r
    }
}

// ---------------------------------------------------------------------------
// Comparison, search, split
// ---------------------------------------------------------------------------

/// Character-wise string equality.
pub fn str_eq(a: &str, b: &str) -> (r: bool)
    ensures
        r == (a@ == b@),
{
    let n = a.unicode_len();
    if n != b.unicode_len() {
        assert(a@ != b@) by {
            assert(a@.len() != b@.len());
        }
        return false;
    }
    let mut i: usize = 0;
    while i < n
        invariant
            n == a@.len() == b@.len(),
            0 <= i <= n,
            forall|k: int| 0 <= k < i ==> a@[k] == b@[k],
        decreases n - i,
    {
        if a.get_char(i) != b.get_char(i) {
            return false;
        }
        i = i + 1;
    }
    proof {
        assert(a@ =~= b@);
    }
    true
}

pub open spec fn spec_contains_char(s: Seq<char>, c: char) -> bool {
    exists|i: int| 0 <= i < s.len() && s[i] == c
}

/// Whether the character `c` occurs in `s`.
pub fn contains_char(s: &str, c: char) -> (r: bool)
    ensures
        r == spec_contains_char(s@, c),
{
    let n = s.unicode_len();
    let mut i: usize = 0;
    while i < n
        invariant
            n == s@.len(),
            0 <= i <= n,
            forall|k: int| 0 <= k < i ==> s@[k] != c,
        decreases n - i,
    {
        if s.get_char(i) == c {
            return true;
        }
        i = i + 1;
    }
    false
}

/// Whether `p` occurs in `h` starting at position `i`.
pub open spec fn match_at(h: Seq<char>, p: Seq<char>, i: int) -> bool {
    0 <= i && i + p.len() <= h.len() && h.subrange(i, i + p.len()) == p
}

/// Index of the first occurrence of `p` in `h`, or -1 when there is none.
/// An empty pattern is treated as absent.
pub open spec fn spec_find(h: Seq<char>, p: Seq<char>) -> int
    decreases h.len(),
{
    if p.len() == 0 || h.len() < p.len() {
        -1
    } else if h.take(p.len() as int) == p {
        0
    } else {
        let r = spec_find(h.drop_first(), p);
        if r == -1 {
            -1
        } else {
            r + 1
        }
    }
}

/// `spec_find` returns the first match: a valid match position with no match
/// before it, or -1 when no position matches.
pub proof fn lemma_spec_find(h: Seq<char>, p: Seq<char>)
    requires
        p.len() >= 1,
    ensures
        spec_find(h, p) >= -1,
        spec_find(h, p) == -1 ==> forall|i: int| !match_at(h, p, i),
        spec_find(h, p) >= 0 ==> match_at(h, p, spec_find(h, p)) && (forall|i: int|
            0 <= i < spec_find(h, p) ==> !match_at(h, p, i)),
    decreases h.len(),
{
    let r = spec_find(h, p);
    if h.len() < p.len() {
        assert forall|i: int| !match_at(h, p, i) by {}
    } else if h.take(p.len() as int) == p {
        assert(match_at(h, p, 0)) by {
            assert(h.subrange(0, p.len() as int) =~= h.take(p.len() as int));
        }
    } else {
        let t = h.drop_first();
        lemma_spec_find(t, p);
        let rt = spec_find(t, p);
        assert forall|i: int| 1 <= i implies (#[trigger] match_at(h, p, i) <==> match_at(
            t,
            p,
            i - 1,
        )) by {
            if i + p.len() <= h.len() {
                assert(h.subrange(i, i + p.len()) =~= t.subrange(i - 1, i - 1 + p.len()));
            }
        }
        assert(!match_at(h, p, 0)) by {
            assert(h.subrange(0, p.len() as int) =~= h.take(p.len() as int));
        }
        if rt == -1 {
            assert forall|i: int| !match_at(h, p, i) by {
                if i >= 1 {
                    assert(!match_at(t, p, i - 1));
                }
            }
        } else {
            assert(r == rt + 1);
            assert(match_at(h, p, r));
            assert forall|i: int| 0 <= i < r implies !match_at(h, p, i) by {
                if i >= 1 {
                    assert(!match_at(t, p, i - 1));
                }
            }
        }
    }
}

/// Whether the pattern `p` matches `h` at position `i`.
#[verifier::loop_isolation(false)]
fn match_at_exec(h: &str, p: &str, i: usize) -> (r: bool)
    requires
        i + p@.len() <= h@.len(),
        h@.len() <= usize::MAX,
    ensures
        r == match_at(h@, p@, i as int),
{
    let m = p.unicode_len();
    let mut k: usize = 0;
    while k < m
        invariant
            m == p@.len(),
            i + m <= h@.len(),
            0 <= k <= m,
            forall|j: int| 0 <= j < k ==> h@[i + j] == p@[j],
        decreases m - k,
    {
        if h.get_char(i + k) != p.get_char(k) {
            assert(h@.subrange(i as int, i as int + p@.len()) != p@) by {
                assert(h@.subrange(i as int, i as int + p@.len())[k as int] == h@[i + k]);
            }
            return false;
        }
        k = k + 1;
    }
    proof {
        assert(h@.subrange(i as int, i as int + p@.len()) =~= p@);
    }
    true
}

/// Finds the first occurrence of `p` in `h`.
pub fn find_sub(h: &str, p: &str) -> (r: Option<usize>)
    requires
        p@.len() >= 1,
    ensures
        match r {
            Some(i) => spec_find(h@, p@) == i && match_at(h@, p@, i as int),
            None => spec_find(h@, p@) == -1,
        },
{
    proof {
        lemma_spec_find(h@, p@);
    }
    let n = h.unicode_len();
    let m = p.unicode_len();
    if n < m {
        return None;
    }
    let mut i: usize = 0;
    while i <= n - m
        invariant
            n == h@.len(),
            m == p@.len(),
            1 <= m <= n,
            0 <= i <= n - m + 1,
            forall|k: int| 0 <= k < i ==> !match_at(h@, p@, k),
        decreases n - i,
    {
        if match_at_exec(h, p, i) {
            proof {
                lemma_spec_find(h@, p@);
                let r = spec_find(h@, p@);
                if r == -1 {
                    assert(!match_at(h@, p@, i as int));
                }
                assert(r == i);
            }
            return Some(i);
        }
        i = i + 1;
    }
    proof {
        lemma_spec_find(h@, p@);
        let r = spec_find(h@, p@);
        if r >= 0 {
            assert(match_at(h@, p@, r));
            assert(r >= i);
            assert(r + p@.len() <= h@.len());
            assert(false);
        }
    }
    None
}

/// In a string that starts with a `c`-free prefix followed by `c`, the first
/// occurrence of `c` sits right after the prefix.
pub proof fn lemma_find_char_concat(a: Seq<char>, c: char, rest: Seq<char>)
    requires
        forall|i: int| 0 <= i < a.len() ==> a[i] != c,
    ensures
        spec_find(a + seq![c] + rest, seq![c]) == a.len(),
{
    let s = a + seq![c] + rest;
    let p = seq![c];
    lemma_spec_find(s, p);
    assert(s.subrange(a.len() as int, a.len() as int + 1) =~= seq![c]);
    assert(match_at(s, p, a.len() as int));
    let r = spec_find(s, p);
    if r == -1 {
        assert(!match_at(s, p, a.len() as int));
    }
    assert(match_at(s, p, r));
    if r < a.len() {
        assert(s.subrange(r, r + 1)[0] == s[r]);
        assert(s[r] == a[r]);
        assert(false);
    }
    if r > a.len() {
        assert(!match_at(s, p, a.len() as int));
        assert(false);
    }
}

/// A string without `c` has no occurrence of `c`.
pub proof fn lemma_find_char_absent(a: Seq<char>, c: char)
    requires
        forall|i: int| 0 <= i < a.len() ==> a[i] != c,
    ensures
        spec_find(a, seq![c]) == -1,
{
    let p = seq![c];
    lemma_spec_find(a, p);
    let r = spec_find(a, p);
    if r >= 0 {
        assert(match_at(a, p, r));
        assert(a.subrange(r, r + 1)[0] == a[r]);
        assert(false);
    }
}

pub open spec fn spec_contains(h: Seq<char>, p: Seq<char>) -> bool {
    exists|i: int| match_at(h, p, i)
}

/// Whether `p` occurs anywhere in `h`.
pub fn contains_sub(h: &str, p: &str) -> (r: bool)
    requires
        p@.len() >= 1,
    ensures
        r == spec_contains(h@, p@),
{
    proof {
        lemma_spec_find(h@, p@);
    }
    find_sub(h, p).is_some()
}

pub open spec fn spec_starts_with(s: Seq<char>, p: Seq<char>) -> bool {
    s.len() >= p.len() && s.take(p.len() as int) == p
}

pub open spec fn spec_ends_with(s: Seq<char>, p: Seq<char>) -> bool {
    s.len() >= p.len() && s.skip(s.len() - p.len()) == p
}

/// Whether `s` begins with `p`.
pub fn starts_with(s: &str, p: &str) -> (r: bool)
    ensures
        r == spec_starts_with(s@, p@),
{
    let n = s.unicode_len();
    let m = p.unicode_len();
    if n < m {
        return false;
    }
    let r = match_at_exec(s, p, 0);
    proof {
        assert(s@.subrange(0, p@.len() as int) =~= s@.take(p@.len() as int));
    }
    r
}

/// Whether `s` ends with `p`.
pub fn ends_with(s: &str, p: &str) -> (r: bool)
    ensures
        r == spec_ends_with(s@, p@),
{
    let n = s.unicode_len();
    let m = p.unicode_len();
    if n < m {
        return false;
    }
    let r = match_at_exec(s, p, n - m);
    proof {
        assert(s@.subrange(n - m, n - m + p@.len()) =~= s@.skip(s@.len() - p@.len()));
    }
    r
}

/// The segments of `h` between non-overlapping occurrences of `p`, leftmost
/// first. A string with no occurrence is one segment; every occurrence adds
/// one more.
pub open spec fn spec_split(h: Seq<char>, p: Seq<char>) -> Seq<Seq<char>>
    decreases h.len(),
{
    if p.len() == 0 {
        Seq::empty()
    } else if h.len() < p.len() {
        seq![h]
    } else if h.take(p.len() as int) == p {
        seq![Seq::<char>::empty()] + spec_split(h.skip(p.len() as int), p)
    } else {
        let rest = spec_split(h.drop_first(), p);
        seq![seq![h[0]] + rest[0]] + rest.drop_first()
    }
}

/// A split has at least one segment.
pub proof fn lemma_split_len(h: Seq<char>, p: Seq<char>)
    requires
        p.len() >= 1,
    ensures
        spec_split(h, p).len() >= 1,
    decreases h.len(),
{
    if h.len() < p.len() {
    } else if h.take(p.len() as int) == p {
        lemma_split_len(h.skip(p.len() as int), p);
    } else {
        lemma_split_len(h.drop_first(), p);
    }
}

/// Unfolding of `spec_split` at the first occurrence of the pattern: when
/// there is none the whole string is the one segment; otherwise the prefix
/// before the first occurrence is the head segment and the split continues
/// after the occurrence.
pub proof fn lemma_split_step(h: Seq<char>, p: Seq<char>)
    requires
        p.len() >= 1,
    ensures
        spec_find(h, p) == -1 ==> spec_split(h, p) =~= seq![h],
        spec_find(h, p) >= 0 ==> spec_split(h, p) =~= seq![h.take(spec_find(h, p))] + spec_split(
            h.skip(spec_find(h, p) + p.len()),
            p,
        ),
    decreases h.len(),
{
    let r = spec_find(h, p);
    lemma_spec_find(h, p);
    if h.len() < p.len() {
    } else if h.take(p.len() as int) == p {
        assert(r == 0);
        assert(h.take(0) =~= Seq::<char>::empty());
    } else {
        let t = h.drop_first();
        lemma_split_step(t, p);
        lemma_split_len(t, p);
        lemma_spec_find(t, p);
        let rt = spec_find(t, p);
        if rt == -1 {
            assert(r == -1);
            assert(spec_split(t, p) =~= seq![t]);
            assert(spec_split(h, p) =~= seq![seq![h[0]] + t]);
            assert(seq![h[0]] + t =~= h);
            assert(spec_split(h, p) =~= seq![h]);
        } else {
            assert(r == rt + 1);
            assert(spec_split(t, p) =~= seq![t.take(rt)] + spec_split(t.skip(rt + p.len()), p));
            assert(seq![h[0]] + t.take(rt) =~= h.take(r));
            assert(t.skip(rt + p.len()) =~= h.skip(r + p.len()));
            lemma_split_len(h.skip(r + p.len()), p);
            assert(spec_split(h, p) =~= seq![seq![h[0]] + spec_split(t, p)[0]] + spec_split(
                t,
                p,
            ).drop_first());
            assert(spec_split(t, p)[0] == t.take(rt));
            assert(seq![h[0]] + spec_split(t, p)[0] =~= h.take(r));
            assert(spec_split(t, p).drop_first() =~= spec_split(h.skip(r + p.len()), p));
            assert(spec_split(h, p) =~= seq![h.take(r)] + spec_split(h.skip(r + p.len()), p));
        }
    }
}

/// Splits `s` on occurrences of `p`.
#[verifier::loop_isolation(false)]
pub fn split_str(s: &str, p: &str) -> (r: Vec<String>)
    requires
        p@.len() >= 1,
    ensures
        r.deep_view() == spec_split(s@, p@),
        r.len() >= 1,
    decreases s@.len(),
{
    proof {
        lemma_split_step(s@, p@);
    }
    let n = s.unicode_len();
    let m = p.unicode_len();
    match find_sub(s, p) {
        None => {
            let mut v: Vec<String> = Vec::new();
            v.push(s.to_owned());
            proof {
                assert(v.deep_view() =~~= spec_split(s@, p@));
            }
            v
        },
        Some(i) => {
            let head = s.substring_char(0, i).to_owned();
            let tail = s.substring_char(i + m, n);
            let rest = split_str(tail, p);
            let mut v: Vec<String> = Vec::new();
            v.push(head);
            proof {
                assert(v.deep_view() =~~= seq![s@.take(i as int)] + rest.deep_view().take(0));
            }
            let mut k: usize = 0;
            let rn = rest.len();
            while k < rn
                invariant
                    rn == rest.len(),
                    0 <= k <= rn,
                    v.deep_view() =~= seq![s@.take(i as int)] + rest.deep_view().take(k as int),
                decreases rn - k,
            {
                let item = rest[k].clone();
                v.push(item);
                proof {
                    let lhs = v.deep_view();
                    let rhs = seq![s@.take(i as int)] + rest.deep_view().take(k as int + 1);
                    assert(lhs.len() == rhs.len());
                    assert forall|j: int| 0 <= j < lhs.len() implies lhs[j] == rhs[j] by {
                        if j < k + 1 {
                            assert(lhs[j] == (seq![s@.take(i as int)] + rest.deep_view().take(
                                k as int,
                            ))[j]);
                        } else {
                            assert(lhs[j] == rest@[k as int]@);
                            assert(rhs[j] == rest.deep_view()[k as int]);
                        }
                    }
                    assert(lhs =~= rhs);
                }
                k = k + 1;
            }
            proof {
                assert(rest.deep_view().take(rn as int) =~= rest.deep_view());
                assert(s@.take(i as int) =~= head@);
                assert(v.deep_view() =~~= spec_split(s@, p@));
            }
            v
        },
    }
}

// ---------------------------------------------------------------------------
// Trimming and concatenation
// ---------------------------------------------------------------------------

pub open spec fn is_space_char(c: char) -> bool {
    c == ' ' || c == '\t' || c == '\n' || c == '\r'
}

fn is_space_exec(c: char) -> (r: bool)
    ensures
        r == is_space_char(c),
{
    c == ' ' || c == '\t' || c == '\n' || c == '\r'
}

pub open spec fn spec_trim_start(s: Seq<char>) -> Seq<char>
    decreases s.len(),
{
    if s.len() > 0 && is_space_char(s[0]) {
        spec_trim_start(s.drop_first())
    } else {
        s
    }
}

pub open spec fn spec_trim_end(s: Seq<char>) -> Seq<char>
    decreases s.len(),
{
    if s.len() > 0 && is_space_char(s.last()) {
        spec_trim_end(s.drop_last())
    } else {
        s
    }
}

/// `s` without leading and trailing whitespace.
pub open spec fn spec_trim(s: Seq<char>) -> Seq<char> {
    spec_trim_end(spec_trim_start(s))
}

proof fn lemma_trim_start_skip(s: Seq<char>, a: int)
    requires
        0 <= a <= s.len(),
        forall|k: int| 0 <= k < a ==> is_space_char(#[trigger] s[k]),
        a < s.len() ==> !is_space_char(s[a]),
    ensures
        spec_trim_start(s) == s.skip(a),
    decreases a,
{
    if a == 0 {
        assert(s.skip(0) =~= s);
    } else {
        let t = s.drop_first();
        assert(forall|k: int| 0 <= k < a - 1 ==> is_space_char(#[trigger] t[k]));
        lemma_trim_start_skip(t, a - 1);
        assert(t.skip(a - 1) =~= s.skip(a));
    }
}

proof fn lemma_trim_end_take(u: Seq<char>, m: int)
    requires
        0 <= m <= u.len(),
        forall|k: int| m <= k < u.len() ==> is_space_char(#[trigger] u[k]),
        m > 0 ==> !is_space_char(u[m - 1]),
    ensures
        spec_trim_end(u) == u.take(m),
    decreases u.len(),
{
    if m == u.len() {
        if u.len() > 0 {
            assert(!is_space_char(u.last()));
        }
        assert(u.take(m) =~= u);
    } else {
        assert(is_space_char(u.last()));
        let t = u.drop_last();
        lemma_trim_end_take(t, m);
        assert(t.take(m) =~= u.take(m));
    }
}

/// Index of the first character at or after `from` that is not whitespace,
/// or the length when there is none.
fn first_non_space_from(s: &str, from: usize) -> (r: usize)
    requires
        from <= s@.len(),
        s@.len() <= usize::MAX,
    ensures
        from <= r <= s@.len(),
        forall|k: int| from <= k < r ==> is_space_char(#[trigger] s@[k]),
        r < s@.len() ==> !is_space_char(s@[r as int]),
    decreases s@.len() - from,
{
    let n = s.unicode_len();
    if from == n {
        from
    } else if is_space_exec(s.get_char(from)) {
        first_non_space_from(s, from + 1)
    } else {
        from
    }
}

/// Index just after the last character before `upto` that is not whitespace,
/// or zero when there is none.
fn last_non_space_before(s: &str, upto: usize) -> (r: usize)
    requires
        upto <= s@.len(),
    ensures
        r <= upto,
        forall|k: int| r <= k < upto ==> is_space_char(#[trigger] s@[k]),
        r > 0 ==> !is_space_char(s@[r - 1]),
    decreases upto,
{
    if upto == 0 {
        0
    } else if is_space_exec(s.get_char(upto - 1)) {
        last_non_space_before(s, upto - 1)
    } else {
        upto
    }
}

/// `s` without leading and trailing whitespace.
pub fn trim(s: &str) -> (r: String)
    ensures
        r@ == spec_trim(s@),
{
    let n = s.unicode_len();
    let a = first_non_space_from(s, 0);
    let b = last_non_space_before(s, n);
    proof {
        lemma_trim_start_skip(s@, a as int);
    }
    if a >= b {
        proof {
            if a < n {
                assert(is_space_char(s@[a as int]));
                assert(false);
            }
            assert(b == 0) by {
                if b > 0 {
                    assert(is_space_char(s@[b - 1]));
                }
            }
            assert(s@.skip(a as int) =~= Seq::<char>::empty());
            lemma_trim_end_take(s@.skip(a as int), 0);
            assert(spec_trim(s@) =~= Seq::<char>::empty());
        }
        String::new()
    } else {
        proof {
            let u = s@.skip(a as int);
            assert(forall|k: int| b - a <= k < u.len() ==> is_space_char(#[trigger] u[k]));
            assert(!is_space_char(u[b - a - 1]));
            lemma_trim_end_take(u, b - a);
            assert(u.take(b - a) =~= s@.subrange(a as int, b as int));
        }
        s.substring_char(a, b).to_owned()
    }
}

/// Pushing one element onto a vector pushes its view onto the deep view.
pub proof fn lemma_deep_view_push<T: DeepView>(v1: Vec<T>, v2: Vec<T>, x: T)
    requires
        v2@ == v1@.push(x),
    ensures
        v2.deep_view() =~= v1.deep_view().push(x.deep_view()),
{
    assert forall|j: int| 0 <= j < v2.deep_view().len() implies v2.deep_view()[j]
        == v1.deep_view().push(x.deep_view())[j] by {
        if j < v1@.len() {
            assert(v2@[j] == v1@[j]);
        } else {
            assert(v2@[j] == x);
        }
    }
}

/// The concatenation of a sequence of strings, in order.
pub open spec fn spec_concat(ss: Seq<Seq<char>>) -> Seq<char>
    decreases ss.len(),
{
    if ss.len() == 0 {
        Seq::empty()
    } else {
        ss[0] + spec_concat(ss.drop_first())
    }
}

/// Appending one more string to a concatenation appends its characters.
pub proof fn lemma_concat_snoc(ss: Seq<Seq<char>>, x: Seq<char>)
    ensures
        spec_concat(ss.push(x)) == spec_concat(ss) + x,
    decreases ss.len(),
{
    if ss.len() == 0 {
        assert(ss.push(x)[0] == x);
        assert(ss.push(x).drop_first() =~= ss);
        assert(spec_concat(ss.push(x)) == x + spec_concat(ss));
        assert(x + spec_concat(ss) =~= spec_concat(ss) + x);
    } else {
        assert(ss.push(x).drop_first() =~= ss.drop_first().push(x));
        lemma_concat_snoc(ss.drop_first(), x);
        assert(ss[0] + (spec_concat(ss.drop_first()) + x) =~= (ss[0] + spec_concat(
            ss.drop_first(),
        )) + x);
        assert(spec_concat(ss.push(x)) =~= spec_concat(ss) + x);
    }
}

/// Renders a signed value in decimal.
pub fn i64_to_string(n: i64) -> (r: String)
    requires
        n > i64::MIN,
    ensures
        r@ == spec_i64_digits(n as int),
{
    if n >= 0 {
        u64_to_string(n as u64)
    } else {
        proof {
            reveal_strlit("-");
        }
        let mut r = String::from_str("-");
        let mag = u64_to_string((-n) as u64);
        r.append(mag.as_str());
        proof {
            assert(r@ =~= seq!['-'] + spec_u64_digits((-(n as int)) as nat));
        }
        r
    }
}

} // verus!
