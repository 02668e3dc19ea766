use vstd::prelude::*;

verus! {

use vstd::string::StrSliceExecFns;

/// Whitespace characters tolerated around a field value.
pub open spec fn is_wspace(c: char) -> bool {
    c == ' ' || c == '\t' || c == '\r' || c == '\n'
}

/// Index of the first occurrence of `c` in `s` at or after `i`, or -1.
pub open spec fn find_at(s: Seq<char>, c: char, i: int) -> int
    decreases s.len() - i,
{
    if i < 0 || i >= s.len() {
        -1
    } else if s[i] == c {
        i
    } else {
        find_at(s, c, i + 1)
    }
}

/// Index of the first occurrence of `c` in `s`, or -1.
pub open spec fn find_first(s: Seq<char>, c: char) -> int {
    find_at(s, c, 0)
}

/// `find_at` returns -1 exactly when `c` does not occur at or after `i`;
/// otherwise it returns the least index of an occurrence of `c`.
pub proof fn lemma_find_at(s: Seq<char>, c: char, i: int)
    requires
        0 <= i <= s.len(),
    ensures
        find_at(s, c, i) == -1 ==> forall|j: int| i <= j < s.len() ==> s[j] != c,
        find_at(s, c, i) != -1 ==> i <= find_at(s, c, i) < s.len() && s[find_at(s, c, i)] == c
            && forall|j: int| i <= j < find_at(s, c, i) ==> s[j] != c,
    decreases s.len() - i,
{
    if i < s.len() && s[i] != c {
        lemma_find_at(s, c, i + 1);
    }
}

/// Finds the first occurrence of `c` in `s` at or after char index `from`.
pub fn find_char_at(s: &str, c: char, from: usize) -> (r: Option<usize>)
    requires
        from <= s@.len(),
    ensures
        match r {
            Some(j) => from <= j < s@.len() && find_at(s@, c, from as int) == j,
            None => find_at(s@, c, from as int) == -1,
        },
{
    let n = s.unicode_len();
    let mut i: usize = from;
    while i < n
        invariant
            from <= i <= n,
            n == s@.len(),
            find_at(s@, c, from as int) == find_at(s@, c, i as int),
        decreases n - i,
    {
        if s.get_char(i) == c {
            return Some(i);
        }
        i += 1;
    }
    None
}

/// Character-for-character equality of two string slices.
pub fn str_eq(a: &str, b: &str) -> (r: bool)
    ensures
        r == (a@ == b@),
{
    let na = a.unicode_len();
    let nb = b.unicode_len();
    if na != nb {
        return false;
    }
    let mut i: usize = 0;
    while i < na
        invariant
            i <= na,
            na == a@.len(),
            nb == b@.len(),
            na == nb,
            forall|j: int| 0 <= j < i ==> a@[j] == b@[j],
        decreases na - i,
    {
        if a.get_char(i) != b.get_char(i) {
            return false;
        }
        i += 1;
    }
    proof {
        assert(a@ =~= b@);
    }
    true
}

/// Char index where the leading whitespace of `s` ends, scanning from `i`.
pub open spec fn skip_wspace(s: Seq<char>, i: int) -> int
    decreases s.len() - i,
{
    if i < 0 || i >= s.len() {
        s.len() as int
    } else if is_wspace(s[i]) {
        skip_wspace(s, i + 1)
    } else {
        i
    }
}

/// Char index just past the last non-whitespace char of `s` before `j`.
pub open spec fn rskip_wspace(s: Seq<char>, j: int) -> int
    decreases j,
{
    if j <= 0 || j > s.len() {
        0
    } else if is_wspace(s[j - 1]) {
        rskip_wspace(s, j - 1)
    } else {
        j
    }
}

/// `s` with leading and trailing whitespace removed.
pub open spec fn spec_trim(s: Seq<char>) -> Seq<char> {
    let a = skip_wspace(s, 0);
    let b = rskip_wspace(s, s.len() as int);
    if a <= b {
        s.subrange(a, b)
    } else {
        Seq::empty()
    }
}

/// Whether `c` is one of the whitespace characters trimmed around values.
pub fn is_ws(c: char) -> (b: bool)
    ensures
        b == is_wspace(c),
{
    c == ' ' || c == '\t' || c == '\r' || c == '\n'
}

/// `s` with leading and trailing whitespace removed.
pub fn trim_str(s: &str) -> (r: &str)
    ensures
        r@ == spec_trim(s@),
{
    let n = s.unicode_len();
    let mut a: usize = 0;
    loop
        invariant
            a <= n,
            n == s@.len(),
            skip_wspace(s@, 0) == skip_wspace(s@, a as int),
        ensures
            a <= n,
            skip_wspace(s@, 0) == a as int,
        decreases n - a,
    {
        if a < n {
            if is_ws(s.get_char(a)) {
                a += 1;
            } else {
                break;
            }
        } else {
            break;
        }
    }
    let mut b: usize = n;
    loop
        invariant
            b <= n,
            n == s@.len(),
            rskip_wspace(s@, n as int) == rskip_wspace(s@, b as int),
        ensures
            b <= n,
            rskip_wspace(s@, n as int) == b as int,
        decreases b,
    {
        if b > 0 {
            if is_ws(s.get_char(b - 1)) {
                b -= 1;
            } else {
                break;
            }
        } else {
            break;
        }
    }
    if a <= b {
        s.substring_char(a, b)
    } else {
        proof {
            assert(s@.subrange(0, 0) =~= Seq::<char>::empty());
        }
        s.substring_char(0, 0)
    }
}

/// The pieces of `s` at or after `p`, split at each occurrence of `c`.
pub open spec fn split_at_char(s: Seq<char>, c: char, p: int) -> Seq<Seq<char>>
    decreases s.len() - p,
    via split_at_char_decreases
{
    if p < 0 || p > s.len() {
        Seq::empty()
    } else {
        let f = find_at(s, c, p);
        if f < 0 {
            seq![s.subrange(p, s.len() as int)]
        } else {
            seq![s.subrange(p, f)] + split_at_char(s, c, f + 1)
        }
    }
}

#[via_fn]
proof fn split_at_char_decreases(s: Seq<char>, c: char, p: int) {
    if 0 <= p <= s.len() {
        lemma_find_at(s, c, p);
    }
}

/// The maximal non-empty runs of `s` at or after `p` that contain no space.
pub open spec fn space_tokens(s: Seq<char>, p: int) -> Seq<Seq<char>>
    decreases s.len() - p,
    via space_tokens_decreases
{
    if p < 0 || p >= s.len() {
        Seq::empty()
    } else {
        let f = find_at(s, ' ', p);
        if f < 0 {
            seq![s.subrange(p, s.len() as int)]
        } else if f == p {
            space_tokens(s, p + 1)
        } else {
            seq![s.subrange(p, f)] + space_tokens(s, f + 1)
        }
    }
}

#[via_fn]
proof fn space_tokens_decreases(s: Seq<char>, p: int) {
    if 0 <= p <= s.len() {
        lemma_find_at(s, ' ', p);
    }
}

} // verus!
