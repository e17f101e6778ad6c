use vstd::prelude::*;

verus! {

/// Whether `c` has the Unicode property `White_Space`.
pub open spec fn is_space(c: char) -> bool {
    let n = c as u32;
    ||| 0x09 <= n <= 0x0D
    ||| n == 0x20
    ||| n == 0x85
    ||| n == 0xA0
    ||| n == 0x1680
    ||| 0x2000 <= n <= 0x200A
    ||| n == 0x2028
    ||| n == 0x2029
    ||| n == 0x202F
    ||| n == 0x205F
    ||| n == 0x3000
}

/// Tells whether `c` is white space.
pub fn is_whitespace(c: char) -> (r: bool)
    ensures
        r == is_space(c),
{
    let n: u32 = c as u32;
    (0x09 <= n && n <= 0x0D) || n == 0x20 || n == 0x85 || n == 0xA0 || n == 0x1680 || (0x2000 <= n
        && n <= 0x200A) || n == 0x2028 || n == 0x2029 || n == 0x202F || n == 0x205F || n == 0x3000
}

/// `s` without the white space it begins with.
pub open spec fn trim_start(s: Seq<char>) -> Seq<char>
    decreases s.len(),
{
    if s.len() > 0 && is_space(s[0]) {
        trim_start(s.drop_first())
    } else {
        s
    }
}

/// `s` without the white space it ends with.
pub open spec fn trim_end(s: Seq<char>) -> Seq<char>
    decreases s.len(),
{
    if s.len() > 0 && is_space(s.last()) {
        trim_end(s.drop_last())
    } else {
        s
    }
}

/// `s` without the white space at either end.
pub open spec fn trim(s: Seq<char>) -> Seq<char> {
    trim_end(trim_start(s))
}

/// Neither the first nor the last character of `s` is white space.
pub open spec fn is_trimmed(s: Seq<char>) -> bool {
    s.len() > 0 ==> !is_space(s[0]) && !is_space(s.last())
}

/// Skipping a run of white space at the front of `s` gives `trim_start(s)`.
pub proof fn lemma_trim_start_skip(s: Seq<char>, k: int)
    requires
        0 <= k <= s.len(),
        forall|i: int| 0 <= i < k ==> is_space(#[trigger] s[i]),
    ensures
        trim_start(s) == trim_start(s.subrange(k, s.len() as int)),
    decreases k,
{
    if k == 0 {
        assert(s.subrange(0, s.len() as int) =~= s);
    } else {
        let t = s.drop_first();
        assert forall|i: int| 0 <= i < k - 1 implies is_space(#[trigger] t[i]) by {
            assert(t[i] == s[i + 1]);
        }
        lemma_trim_start_skip(t, k - 1);
        assert(t.subrange(k - 1, t.len() as int) =~= s.subrange(k, s.len() as int));
    }
}

/// Dropping a run of white space at the back of `s` gives `trim_end(s)`.
pub proof fn lemma_trim_end_skip(s: Seq<char>, k: int)
    requires
        0 <= k <= s.len(),
        forall|i: int| k <= i < s.len() ==> is_space(#[trigger] s[i]),
    ensures
        trim_end(s) == trim_end(s.subrange(0, k)),
    decreases s.len() - k,
{
    if k == s.len() {
        assert(s.subrange(0, k) =~= s);
    } else {
        let t = s.drop_last();
        lemma_trim_end_skip(t, k);
        assert(t.subrange(0, k) =~= s.subrange(0, k));
    }
}

/// What `trim` returns has no white space at either end, and is a part of `s`.
pub proof fn lemma_trim_is_trimmed(s: Seq<char>)
    ensures
        is_trimmed(trim(s)),
        trim(s).len() <= s.len(),
{
    lemma_trim_start_props(s);
    lemma_trim_end_props(trim_start(s));
}

/// What `trim` returns is a part of `s`.
pub proof fn lemma_trim_is_part(s: Seq<char>)
    ensures
        exists|from: int, to: int| 0 <= from <= to <= s.len() && trim(s) == s.subrange(from, to),
{
    lemma_trim_start_props(s);
    let front = trim_start(s);
    let k = choose|k: int| 0 <= k <= s.len() && front == s.subrange(k, s.len() as int);
    lemma_trim_end_props(front);
    let n = trim_end(front).len() as int;
    assert(front.subrange(0, n) =~= s.subrange(k, k + n));
}

proof fn lemma_trim_start_props(s: Seq<char>)
    ensures
        trim_start(s).len() <= s.len(),
        trim_start(s).len() > 0 ==> !is_space(trim_start(s)[0]),
        exists|k: int| 0 <= k <= s.len() && trim_start(s) == s.subrange(k, s.len() as int),
    decreases s.len(),
{
    if s.len() > 0 && is_space(s[0]) {
        let t = s.drop_first();
        lemma_trim_start_props(t);
        let k = choose|k: int| 0 <= k <= t.len() && trim_start(t) == t.subrange(k, t.len() as int);
        assert(t.subrange(k, t.len() as int) =~= s.subrange(k + 1, s.len() as int));
    } else {
        assert(s.subrange(0, s.len() as int) =~= s);
    }
}

proof fn lemma_trim_end_props(s: Seq<char>)
    ensures
        trim_end(s).len() <= s.len(),
        trim_end(s).len() > 0 ==> !is_space(trim_end(s).last()),
        trim_end(s) == s.subrange(0, trim_end(s).len() as int),
    decreases s.len(),
{
    if s.len() > 0 && is_space(s.last()) {
        let t = s.drop_last();
        lemma_trim_end_props(t);
        assert(t.subrange(0, trim_end(t).len() as int) =~= s.subrange(0, trim_end(t).len() as int));
    } else {
        assert(s.subrange(0, s.len() as int) =~= s);
    }
}

/// The bounds `(from, to)` of `trim(chars[lo..hi])` inside `chars`.
pub fn trim_bounds(chars: &Vec<char>, lo: usize, hi: usize) -> (r: (usize, usize))
    requires
        lo <= hi <= chars.len(),
    ensures
        lo <= r.0 <= r.1 <= hi,
        chars@.subrange(r.0 as int, r.1 as int) == trim(chars@.subrange(lo as int, hi as int)),
{
    let ghost s = chars@.subrange(lo as int, hi as int);
    let mut from: usize = lo;
    while from < hi && is_whitespace(chars[from])
        invariant
            lo <= from <= hi <= chars.len(),
            s == chars@.subrange(lo as int, hi as int),
            forall|i: int| 0 <= i < from - lo ==> is_space(#[trigger] s[i]),
        decreases hi - from,
    {
        from += 1;
    }
    let ghost front = s.subrange(from - lo, s.len() as int);
    proof {
        lemma_trim_start_skip(s, from - lo);
        assert(front =~= chars@.subrange(from as int, hi as int));
        assert(trim_start(front) == front) by {
            if front.len() > 0 {
                assert(front[0] == chars@[from as int]);
            }
        }
    }
    let mut to: usize = hi;
    while to > from && is_whitespace(chars[to - 1])
        invariant
            from <= to <= hi <= chars.len(),
            front == chars@.subrange(from as int, hi as int),
            forall|i: int| to - from <= i < front.len() ==> is_space(#[trigger] front[i]),
        decreases to - from,
    {
        to -= 1;
    }
    proof {
        lemma_trim_end_skip(front, to - from);
        let back = front.subrange(0, to - from);
        assert(back =~= chars@.subrange(from as int, to as int));
        assert(trim_end(back) == back) by {
            if back.len() > 0 {
                assert(back.last() == chars@[to - 1]);
            }
        }
    }
    (from, to)
}

/// Whether `needle` stands in `hay` at index `at`.
pub open spec fn occurs_at(hay: Seq<char>, needle: Seq<char>, at: int) -> bool {
    0 <= at && at + needle.len() <= hay.len() && hay.subrange(at, at + needle.len()) == needle
}

/// The least index from `start` on at which `needle` stands in `hay`, or -1
/// where there is none.
pub open spec fn find_from(hay: Seq<char>, needle: Seq<char>, start: int) -> int
    decreases hay.len() + 1 - start,
{
    if start < 0 || start + needle.len() > hay.len() {
        -1
    } else if occurs_at(hay, needle, start) {
        start
    } else {
        find_from(hay, needle, start + 1)
    }
}

/// The index of the first occurrence of `needle` in `hay`, or -1.
pub open spec fn first_occurrence(hay: Seq<char>, needle: Seq<char>) -> int {
    find_from(hay, needle, 0)
}

/// `find_from` returns the least occurrence at or after `start`, if any.
pub proof fn lemma_find_from(hay: Seq<char>, needle: Seq<char>, start: int)
    requires
        0 <= start,
    ensures
        ({
            let r = find_from(hay, needle, start);
            &&& r == -1 || (start <= r && occurs_at(hay, needle, r))
            &&& forall|j: int| start <= j && (j < r || r == -1) ==> !occurs_at(hay, needle, j)
        }),
    decreases hay.len() + 1 - start,
{
    if start + needle.len() > hay.len() {
    } else if occurs_at(hay, needle, start) {
    } else {
        lemma_find_from(hay, needle, start + 1);
    }
}

/// An occurrence with none before it is the one `find_from` returns.
pub proof fn lemma_find_from_is(hay: Seq<char>, needle: Seq<char>, start: int, at: int)
    requires
        0 <= start <= at,
        occurs_at(hay, needle, at),
        forall|j: int| start <= j < at ==> !occurs_at(hay, needle, j),
    ensures
        find_from(hay, needle, start) == at,
    decreases at - start,
{
    if start < at {
        lemma_find_from_is(hay, needle, start + 1, at);
    }
}

/// Whether `needle` stands in `hay` at index `at`.
pub fn matches_at(hay: &Vec<char>, needle: &Vec<char>, at: usize) -> (r: bool)
    requires
        at + needle.len() <= hay.len(),
    ensures
        r == occurs_at(hay@, needle@, at as int),
{
    let mut k: usize = 0;
    while k < needle.len()
        invariant
            k <= needle.len(),
            at + needle.len() <= hay.len(),
            forall|j: int| 0 <= j < k ==> hay@[at + j] == needle@[j],
        decreases needle.len() - k,
    {
        if hay[at + k] != needle[k] {
            proof {
                let w = hay@.subrange(at as int, at + needle@.len());
                assert(w[k as int] == hay@[at + k]);
            }
            return false;
        }
        k += 1;
    }
    assert(hay@.subrange(at as int, at + needle@.len()) =~= needle@);
    true
}

/// The index in `hay[..end]` of the first occurrence of `needle` at or after
/// `start`.
pub fn find(hay: &Vec<char>, needle: &Vec<char>, start: usize, end: usize) -> (r: Option<usize>)
    requires
        start <= end <= hay.len(),
    ensures
        match r {
            Some(at) => start <= at && at + needle.len() <= end && find_from(
                hay@.subrange(0, end as int),
                needle@,
                start as int,
            ) == at,
            None => find_from(hay@.subrange(0, end as int), needle@, start as int) == -1,
        },
{
    let ghost h = hay@.subrange(0, end as int);
    let mut at: usize = start;
    while needle.len() <= end - at
        invariant
            start <= at <= end <= hay.len(),
            h == hay@.subrange(0, end as int),
            find_from(h, needle@, start as int) == find_from(h, needle@, at as int),
        decreases end - at,
    {
        let hit = matches_at(hay, needle, at);
        proof {
            assert(hay@.subrange(at as int, at + needle@.len()) =~= h.subrange(
                at as int,
                at + needle@.len(),
            ));
        }
        if hit {
            return Some(at);
        }
        proof {
            if needle@.len() == 0 {
                assert(h.subrange(at as int, at as int) =~= needle@);
            }
        }
        at += 1;
    }
    None
}

/// The greatest index up to `start` at which `needle` stands in `hay`, or -1
/// where there is none.
pub open spec fn find_back(hay: Seq<char>, needle: Seq<char>, start: int) -> int
    decreases start + 1,
{
    if start < 0 {
        -1
    } else if occurs_at(hay, needle, start) {
        start
    } else {
        find_back(hay, needle, start - 1)
    }
}

/// The index of the last occurrence of `needle` in `hay`, or -1.
pub open spec fn last_occurrence(hay: Seq<char>, needle: Seq<char>) -> int {
    find_back(hay, needle, hay.len() - needle.len())
}

/// The index of the last occurrence of `needle` in `hay`.
pub fn find_last(hay: &Vec<char>, needle: &Vec<char>) -> (r: Option<usize>)
    ensures
        match r {
            Some(at) => at + needle.len() <= hay.len() && last_occurrence(hay@, needle@) == at,
            None => last_occurrence(hay@, needle@) == -1,
        },
{
    if needle.len() > hay.len() {
        return None;
    }
    let top = hay.len() - needle.len();
    let mut at: usize = top;
    loop
        invariant
            at <= top,
            top == hay.len() - needle.len(),
            needle.len() <= hay.len(),
            find_back(hay@, needle@, top as int) == find_back(hay@, needle@, at as int),
        decreases at,
    {
        if matches_at(hay, needle, at) {
            return Some(at);
        }
        if at == 0 {
            assert(find_back(hay@, needle@, -1) == -1);
            return None;
        }
        at -= 1;
    }
}

/// Tells whether `a` and `b` hold the same text.
pub fn same_text(a: &Vec<char>, b: &Vec<char>) -> (r: bool)
    ensures
        r == (a@ == b@),
{
    if a.len() != b.len() {
        return false;
    }
    let r = matches_at(a, b, 0);
    assert(a@.subrange(0, a@.len() as int) =~= a@);
    r
}

} // verus!
