//! Character-level helpers on text seen as a sequence of `char`s: trimming,
//! substring search with or without ASCII case folding, and code-point order.
use vstd::prelude::*;

verus! {

/// The Unicode `White_Space` property, which `char::is_whitespace` tests.
pub open spec fn is_ws(c: char) -> bool {
    let u = c as u32;
    (0x9 <= u <= 0xd) || u == 0x20 || u == 0x85 || u == 0xa0 || u == 0x1680 || (0x2000 <= u
        <= 0x200a) || u == 0x2028 || u == 0x2029 || u == 0x202f || u == 0x205f || u == 0x3000
}

/// What a trim strips: white space (`None`) or one given character (`Some(c)`).
pub open spec fn strips(k: Option<char>, c: char) -> bool {
    match k {
        None => is_ws(c),
        Some(q) => c == q,
    }
}

/// `s` without the leading and trailing characters that `k` strips.
pub open spec fn trim_by(s: Seq<char>, k: Option<char>) -> Seq<char>
    decreases s.len(),
{
    if s.len() > 0 && strips(k, s[0]) {
        trim_by(s.drop_first(), k)
    } else if s.len() > 0 && strips(k, s.last()) {
        trim_by(s.drop_last(), k)
    } else {
        s
    }
}

/// `s` without leading and trailing white space, as `str::trim` gives it.
pub open spec fn trim_ws(s: Seq<char>) -> Seq<char> {
    trim_by(s, None)
}

/// ASCII upper case of one character; other characters are left as they are.
pub open spec fn upper(c: char) -> char {
    if 'a' <= c && c <= 'z' {
        (((c as u32) - 32) as u8) as char
    } else {
        c
    }
}

/// Whether `pat` occurs in `s` at index `i`; with `ci`, letters of `s` are
/// compared after ASCII upper-casing (so `pat` is written in upper case).
pub open spec fn occurs_at(s: Seq<char>, pat: Seq<char>, ci: bool, i: int) -> bool {
    &&& 0 <= i
    &&& i + pat.len() <= s.len()
    &&& forall|j: int|
        0 <= j < pat.len() ==> (if ci {
            upper(#[trigger] s[i + j]) == pat[j]
        } else {
            s[i + j] == pat[j]
        })
}

/// The first index at or after `i` where `pat` occurs in `s`.
pub open spec fn find_from(s: Seq<char>, pat: Seq<char>, ci: bool, i: int) -> Option<int>
    decreases s.len() - i,
{
    if i < 0 || i + pat.len() > s.len() {
        None
    } else if occurs_at(s, pat, ci, i) {
        Some(i)
    } else {
        find_from(s, pat, ci, i + 1)
    }
}

/// The first index where `pat` occurs in `s`.
pub open spec fn find_first(s: Seq<char>, pat: Seq<char>, ci: bool) -> Option<int> {
    find_from(s, pat, ci, 0)
}

/// Whether `pat` is a substring of `s`.
pub open spec fn has_substring(s: Seq<char>, pat: Seq<char>) -> bool {
    exists|i: int| occurs_at(s, pat, false, i)
}

/// Strict lexicographic order by code point, which is the order of `str`.
pub open spec fn lex_lt(a: Seq<char>, b: Seq<char>) -> bool
    decreases a.len(),
{
    if a.len() == 0 {
        b.len() > 0
    } else if b.len() == 0 {
        false
    } else if a[0] != b[0] {
        (a[0] as u32) < (b[0] as u32)
    } else {
        lex_lt(a.drop_first(), b.drop_first())
    }
}

pub proof fn lemma_find_from(s: Seq<char>, pat: Seq<char>, ci: bool, i: int)
    requires
        0 <= i,
    ensures
        match find_from(s, pat, ci, i) {
            Some(k) => i <= k && occurs_at(s, pat, ci, k) && forall|j: int|
                i <= j < k ==> !occurs_at(s, pat, ci, j),
            None => forall|j: int| i <= j ==> !occurs_at(s, pat, ci, j),
        },
    decreases s.len() - i,
{
    if i + pat.len() > s.len() {
    } else if occurs_at(s, pat, ci, i) {
    } else {
        lemma_find_from(s, pat, ci, i + 1);
    }
}

/// The characters of `s`, in order.
pub fn chars_of(s: &str) -> (r: Vec<char>)
    ensures
        r@ == s@,
{
    let n = s.unicode_len();
    let mut r: Vec<char> = Vec::new();
    let mut i: usize = 0;
    while i < n
        invariant
            n == s@.len(),
            i <= n,
            r@ == s@.subrange(0, i as int),
        decreases n - i,
    {
        r.push(s.get_char(i));
        i = i + 1;
    }
    assert(r@ =~= s@);
    r
}

/// Tests the `White_Space` property of one character.
pub fn is_whitespace(c: char) -> (r: bool)
    ensures
        r == is_ws(c),
{
    let u = c as u32;
    (0x9 <= u && u <= 0xd) || u == 0x20 || u == 0x85 || u == 0xa0 || u == 0x1680 || (0x2000 <= u
        && u <= 0x200a) || u == 0x2028 || u == 0x2029 || u == 0x202f || u == 0x205f || u == 0x3000
}

fn strips_exec(k: Option<char>, c: char) -> (r: bool)
    ensures
        r == strips(k, c),
{
    match k {
        None => is_whitespace(c),
        Some(q) => c == q,
    }
}

/// The bounds, within `lo..hi`, of what remains of `s[lo..hi]` once the
/// characters that `k` strips are taken from both of its ends.
pub fn trim_range(s: &Vec<char>, lo: usize, hi: usize, k: Option<char>) -> (r: (usize, usize))
    requires
        lo <= hi <= s@.len(),
    ensures
        lo <= r.0 <= r.1 <= hi,
        s@.subrange(r.0 as int, r.1 as int) == trim_by(s@.subrange(lo as int, hi as int), k),
{
    let mut a = lo;
    while a < hi && strips_exec(k, s[a])
        invariant
            lo <= a <= hi <= s@.len(),
            trim_by(s@.subrange(a as int, hi as int), k) == trim_by(
                s@.subrange(lo as int, hi as int),
                k,
            ),
        decreases hi - a,
    {
        assert(s@.subrange(a as int, hi as int).drop_first() =~= s@.subrange(
            a + 1,
            hi as int,
        ));
        a = a + 1;
    }
    let mut b = hi;
    while b > a && strips_exec(k, s[b - 1])
        invariant
            lo <= a <= b <= hi <= s@.len(),
            a < b ==> !strips(k, s@[a as int]),
            trim_by(s@.subrange(a as int, b as int), k) == trim_by(
                s@.subrange(lo as int, hi as int),
                k,
            ),
        decreases b - a,
    {
        assert(s@.subrange(a as int, b as int).drop_last() =~= s@.subrange(
            a as int,
            b - 1,
        ));
        b = b - 1;
    }
    (a, b)
}

/// The first index at or after `from` where `pat` occurs in `s`; with `ci`,
/// the letters of `s` are upper-cased (ASCII) before they are compared.
pub fn find(s: &Vec<char>, pat: &Vec<char>, ci: bool, from: usize) -> (r: Option<usize>)
    ensures
        r matches Some(k) ==> find_from(s@, pat@, ci, from as int) == Some(k as int),
        r is None ==> find_from(s@, pat@, ci, from as int) is None,
{
    let n = s.len();
    let m = pat.len();
    if m > n {
        return None;
    }
    let mut i = from;
    while i <= n - m
        invariant
            n == s@.len(),
            m == pat@.len(),
            m <= n,
            from <= i,
            find_from(s@, pat@, ci, i as int) == find_from(s@, pat@, ci, from as int),
        decreases n - i,
    {
        let mut j: usize = 0;
        let mut ok = true;
        while j < m && ok
            invariant
                0 <= i <= n - m,
                n == s@.len(),
                m == pat@.len(),
                j <= m,
                ok ==> forall|t: int|
                    0 <= t < j ==> (if ci {
                        upper(#[trigger] s@[i + t]) == pat@[t]
                    } else {
                        s@[i + t] == pat@[t]
                    }),
                !ok ==> !occurs_at(s@, pat@, ci, i as int),
            decreases m - j + (if ok { 1int } else { 0int }),
        {
            let c = s[i + j];
            let d = if ci {
                to_upper(c)
            } else {
                c
            };
            if d != pat[j] {
                ok = false;
                assert(!(if ci {
                    upper(s@[i + j]) == pat@[j as int]
                } else {
                    s@[i + j] == pat@[j as int]
                }));
            } else {
                j = j + 1;
            }
        }
        if ok {
            assert(occurs_at(s@, pat@, ci, i as int));
            return Some(i);
        }
        i = i + 1;
    }
    None
}

/// ASCII upper case of one character.
pub fn to_upper(c: char) -> (r: char)
    ensures
        r == upper(c),
{
    if 'a' <= c && c <= 'z' {
        (((c as u32) - 32) as u8) as char
    } else {
        c
    }
}

/// Whether `pat` is a substring of `s`.
pub fn contains(s: &Vec<char>, pat: &Vec<char>) -> (r: bool)
    ensures
        r == has_substring(s@, pat@),
{
    let f = find(s, pat, false, 0);
    proof {
        lemma_find_from(s@, pat@, false, 0);
    }
    match f {
        Some(k) => {
            assert(occurs_at(s@, pat@, false, k as int));
            true
        },
        None => false,
    }
}

/// Strict code-point order of two texts.
pub fn lex_less(a: &Vec<char>, b: &Vec<char>) -> (r: bool)
    ensures
        r == lex_lt(a@, b@),
{
    let mut i: usize = 0;
    assert(a@.subrange(0, a@.len() as int) =~= a@);
    assert(b@.subrange(0, b@.len() as int) =~= b@);
    while i < a.len() && i < b.len() && a[i] == b[i]
        invariant
            i <= a@.len(),
            i <= b@.len(),
            lex_lt(a@.subrange(i as int, a@.len() as int), b@.subrange(i as int, b@.len() as int))
                == lex_lt(a@, b@),
        decreases a@.len() - i,
    {
        assert(a@.subrange(i as int, a@.len() as int).drop_first() =~= a@.subrange(
            i + 1,
            a@.len() as int,
        ));
        assert(b@.subrange(i as int, b@.len() as int).drop_first() =~= b@.subrange(
            i + 1,
            b@.len() as int,
        ));
        i = i + 1;
    }
    if i == a.len() {
        i < b.len()
    } else if i == b.len() {
        false
    } else {
        (a[i] as u32) < (b[i] as u32)
    }
}

} // verus!
