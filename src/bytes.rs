use vstd::prelude::*;

verus! {

/// ASCII whitespace as `char::is_whitespace` sees it.
pub open spec fn is_space(b: u8) -> bool {
    b == 32u8 || b == 9u8 || b == 10u8 || b == 11u8 || b == 12u8 || b == 13u8
}

pub fn is_space_byte(b: u8) -> (r: bool)
    ensures
        r == is_space(b),
{
    b == 32u8 || b == 9u8 || b == 10u8 || b == 11u8 || b == 12u8 || b == 13u8
}

pub fn bytes_eq(a: &Vec<u8>, b: &Vec<u8>) -> (r: bool)
    ensures
        r == (a@ == b@),
{
    if a.len() != b.len() {
        return false;
    }
    let mut i: usize = 0;
    while i < a.len()
        invariant
            a@.len() == b@.len(),
            i <= a@.len(),
            a@.subrange(0, i as int) == b@.subrange(0, i as int),
        decreases a@.len() - i,
    {
        if a[i] != b[i] {
            assert(a@[i as int] != b@[i as int]);
            return false;
        }
        assert(a@.subrange(0, i + 1) == a@.subrange(0, i as int).push(a@[i as int]));
        assert(b@.subrange(0, i + 1) == b@.subrange(0, i as int).push(b@[i as int]));
        i += 1;
    }
    assert(a@ == a@.subrange(0, a@.len() as int));
    assert(b@ == b@.subrange(0, b@.len() as int));
    true
}

pub fn copy_bytes(a: &Vec<u8>) -> (r: Vec<u8>)
    ensures
        r@ == a@,
{
    let mut r: Vec<u8> = Vec::new();
    let mut i: usize = 0;
    while i < a.len()
        invariant
            i <= a@.len(),
            r@ == a@.subrange(0, i as int),
        decreases a@.len() - i,
    {
        r.push(a[i]);
        assert(a@.subrange(0, i + 1) == a@.subrange(0, i as int).push(a@[i as int]));
        i += 1;
    }
    assert(a@ == a@.subrange(0, a@.len() as int));
    r
}

/// `pat` occurs in `s` starting at `i`.
pub open spec fn occurs_at(s: Seq<u8>, pat: Seq<u8>, i: int) -> bool {
    0 <= i && i + pat.len() <= s.len() && s.subrange(i, i + pat.len()) == pat
}

pub open spec fn contains(s: Seq<u8>, pat: Seq<u8>) -> bool {
    exists|i: int| occurs_at(s, pat, i)
}

fn occurs_at_exec(s: &Vec<u8>, pat: &Vec<u8>, i: usize) -> (r: bool)
    requires
        i + pat@.len() <= s@.len(),
    ensures
        r == occurs_at(s@, pat@, i as int),
{
    let n: usize = s.len();
    let mut k: usize = 0;
    while k < pat.len()
        invariant
            n == s@.len(),
            i + pat@.len() <= s@.len(),
            k <= pat@.len(),
            s@.subrange(i as int, i + k) == pat@.subrange(0, k as int),
        decreases pat@.len() - k,
    {
        if s[i + k] != pat[k] {
            assert(s@.subrange(i as int, i + pat@.len())[k as int] != pat@[k as int]);
            return false;
        }
        assert(s@.subrange(i as int, i + k + 1) == s@.subrange(i as int, i + k).push(s@[i + k]));
        assert(pat@.subrange(0, k + 1) == pat@.subrange(0, k as int).push(pat@[k as int]));
        k += 1;
    }
    assert(pat@ == pat@.subrange(0, pat@.len() as int));
    true
}

pub fn contains_exec(s: &Vec<u8>, pat: &Vec<u8>) -> (r: bool)
    ensures
        r == contains(s@, pat@),
{
    if pat.len() > s.len() {
        return false;
    }
    if pat.len() == 0 {
        assert(s@.subrange(0, 0) == pat@);
        assert(occurs_at(s@, pat@, 0));
        return true;
    }
    let n: usize = s.len();
    let last: usize = n - pat.len();
    let mut i: usize = 0;
    while i <= last
        invariant
            n == s@.len(),
            last + pat@.len() == s@.len(),
            pat@.len() > 0,
            i <= last + 1,
            forall|j: int| 0 <= j < i ==> !occurs_at(s@, pat@, j),
        decreases last + 1 - i,
    {
        if occurs_at_exec(s, pat, i) {
            return true;
        }
        i += 1;
    }
    assert forall|j: int| !occurs_at(s@, pat@, j) by {
        if 0 <= j < i {
        }
    }
    false
}

/// Index where the text before the first `c` ends (or the length, when `c` is absent).
pub open spec fn is_first_stop(s: Seq<u8>, c: u8, k: int) -> bool {
    0 <= k <= s.len() && (forall|j: int| 0 <= j < k ==> s[j] != c) && (k == s.len() || s[k] == c)
}

/// Index where the text after the last `c` starts (or 0, when `c` is absent).
pub open spec fn is_last_start(s: Seq<u8>, c: u8, m: int) -> bool {
    0 <= m <= s.len() && (forall|j: int| m <= j < s.len() ==> s[j] != c) && (m == 0 || s[m - 1] == c)
}

pub proof fn lemma_first_stop_unique(s: Seq<u8>, c: u8, k1: int, k2: int)
    requires
        is_first_stop(s, c, k1),
        is_first_stop(s, c, k2),
    ensures
        k1 == k2,
{
    if k1 < k2 {
        assert(s[k1] != c);
    } else if k2 < k1 {
        assert(s[k2] != c);
    }
}

pub proof fn lemma_last_start_unique(s: Seq<u8>, c: u8, m1: int, m2: int)
    requires
        is_last_start(s, c, m1),
        is_last_start(s, c, m2),
    ensures
        m1 == m2,
{
    if m1 < m2 {
        assert(s[m2 - 1] != c);
    } else if m2 < m1 {
        assert(s[m1 - 1] != c);
    }
}

pub open spec fn first_stop(s: Seq<u8>, c: u8) -> int {
    choose|k: int| is_first_stop(s, c, k)
}

pub open spec fn last_start(s: Seq<u8>, c: u8) -> int {
    choose|m: int| is_last_start(s, c, m)
}

pub fn find_first_stop(s: &Vec<u8>, c: u8) -> (k: usize)
    ensures
        is_first_stop(s@, c, k as int),
        k as int == first_stop(s@, c),
{
    let mut k: usize = 0;
    while k < s.len() && s[k] != c
        invariant
            k <= s@.len(),
            forall|j: int| 0 <= j < k ==> s@[j] != c,
        decreases s@.len() - k,
    {
        k += 1;
    }
    proof {
        assert(is_first_stop(s@, c, k as int));
        let w = first_stop(s@, c);
        lemma_first_stop_unique(s@, c, k as int, w);
    }
    k
}

pub fn find_last_start(s: &Vec<u8>, c: u8) -> (m: usize)
    ensures
        is_last_start(s@, c, m as int),
        m as int == last_start(s@, c),
{
    let mut m: usize = s.len();
    while m > 0 && s[m - 1] != c
        invariant
            m <= s@.len(),
            forall|j: int| m <= j < s@.len() ==> s@[j] != c,
        decreases m,
    {
        m -= 1;
    }
    proof {
        assert(is_last_start(s@, c, m as int));
        let w = last_start(s@, c);
        lemma_last_start_unique(s@, c, m as int, w);
    }
    m
}

pub fn sub_bytes(s: &Vec<u8>, from: usize, to: usize) -> (r: Vec<u8>)
    requires
        from <= to <= s@.len(),
    ensures
        r@ == s@.subrange(from as int, to as int),
{
    let mut r: Vec<u8> = Vec::new();
    let mut i: usize = from;
    while i < to
        invariant
            from <= i <= to <= s@.len(),
            r@ == s@.subrange(from as int, i as int),
        decreases to - i,
    {
        r.push(s[i]);
        assert(s@.subrange(from as int, i + 1) == s@.subrange(from as int, i as int).push(s@[i as int]));
        i += 1;
    }
    r
}

} // verus!
