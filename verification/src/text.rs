//! Character-sequence primitives shared by the parsers and page builders.
use vstd::prelude::*;
use vstd::utf8::{decode_utf8, valid_utf8};

verus! {

/// Appends one character to a string.
///
/// Wraps `String::push`; the contract claims what its documentation states:
/// the character is appended at the end and nothing else changes.
#[verifier::external_body]
pub(crate) fn push_char(s: &mut String, c: char)
    ensures
        final(s)@ == old(s)@.push(c),
{
    s.push(c);
}

/// The characters of a string slice, in order.
pub fn chars_of(s: &str) -> (v: Vec<char>)
    ensures
        v@ == s@,
{
    let mut v: Vec<char> = Vec::new();
    for c in it: s.chars()
        invariant
            v@ == it.seq().take(it.index() as int),
    {
        v.push(c);
    }
    v
}

/// A new string holding `v[lo..hi]`.
pub fn string_of(v: &Vec<char>, lo: usize, hi: usize) -> (s: String)
    requires
        lo <= hi <= v@.len(),
    ensures
        s@ == v@.subrange(lo as int, hi as int),
{
    let mut s = String::new();
    let mut i = lo;
    while i < hi
        invariant
            lo <= i <= hi <= v@.len(),
            s@ == v@.subrange(lo as int, i as int),
        decreases hi - i,
    {
        push_char(&mut s, v[i]);
        assert(v@.subrange(lo as int, i + 1) =~= v@.subrange(lo as int, i as int).push(v@[i as int]));
        i = i + 1;
    }
    s
}

/// Appends `v[lo..hi]` to `s`.
pub fn push_range(s: &mut String, v: &Vec<char>, lo: usize, hi: usize)
    requires
        lo <= hi <= v@.len(),
    ensures
        final(s)@ == old(s)@ + v@.subrange(lo as int, hi as int),
{
    let ghost start = s@;
    let mut i = lo;
    while i < hi
        invariant
            lo <= i <= hi <= v@.len(),
            s@ == start + v@.subrange(lo as int, i as int),
        decreases hi - i,
    {
        push_char(s, v[i]);
        assert(v@.subrange(lo as int, i + 1) =~= v@.subrange(lo as int, i as int).push(v@[i as int]));
        assert(start + v@.subrange(lo as int, i + 1) =~= (start + v@.subrange(lo as int, i as int)).push(v@[i as int]));
        i = i + 1;
    }
}

/// Appends all of `t` to `s`.
pub fn push_str(s: &mut String, t: &str)
    ensures
        final(s)@ == old(s)@ + t@,
{
    let v = chars_of(t);
    push_range(s, &v, 0, v.len());
    assert(v@.subrange(0, v@.len() as int) =~= v@);
}

/// Unicode `White_Space`: the characters `char::is_whitespace` accepts.
pub open spec fn is_white_space(c: char) -> bool {
    let u = c as u32;
    ||| 0x09 <= u <= 0x0D
    ||| u == 0x20
    ||| u == 0x85
    ||| u == 0xA0
    ||| u == 0x1680
    ||| 0x2000 <= u <= 0x200A
    ||| u == 0x2028
    ||| u == 0x2029
    ||| u == 0x202F
    ||| u == 0x205F
    ||| u == 0x3000
}

pub fn is_white_space_exec(c: char) -> (b: bool)
    ensures
        b == is_white_space(c),
{
    let u = c as u32;
    (0x09 <= u && u <= 0x0D) || u == 0x20 || u == 0x85 || u == 0xA0 || u == 0x1680 || (0x2000 <= u
        && u <= 0x200A) || u == 0x2028 || u == 0x2029 || u == 0x202F || u == 0x205F || u == 0x3000
}

/// `s` without its leading white space.
pub open spec fn trim_start(s: Seq<char>) -> Seq<char>
    decreases s.len(),
{
    if s.len() > 0 && is_white_space(s[0]) {
        trim_start(s.drop_first())
    } else {
        s
    }
}

/// `s` without its trailing white space.
pub open spec fn trim_end(s: Seq<char>) -> Seq<char>
    decreases s.len(),
{
    if s.len() > 0 && is_white_space(s.last()) {
        trim_end(s.drop_last())
    } else {
        s
    }
}

/// `s` without leading and trailing white space (`str::trim`).
pub open spec fn trim(s: Seq<char>) -> Seq<char> {
    trim_end(trim_start(s))
}

/// Text that neither begins nor ends in white space is its own trim.
pub proof fn lemma_trim_unpadded(s: Seq<char>)
    requires
        s.len() > 0 ==> !is_white_space(s[0]) && !is_white_space(s.last()),
    ensures
        trim(s) == s,
{
    assert(trim_start(s) == s);
    assert(trim_end(s) == s);
}

/// The bounds of `trim(v[lo..hi])` inside `v`.
pub fn trim_range(v: &Vec<char>, lo: usize, hi: usize) -> (r: (usize, usize))
    requires
        lo <= hi <= v@.len(),
    ensures
        lo <= r.0 <= r.1 <= hi,
        v@.subrange(r.0 as int, r.1 as int) == trim(v@.subrange(lo as int, hi as int)),
{
    let mut a = lo;
    while a < hi && is_white_space_exec(v[a])
        invariant
            lo <= a <= hi <= v@.len(),
            trim_start(v@.subrange(lo as int, hi as int)) == trim_start(v@.subrange(a as int, hi as int)),
        decreases hi - a,
    {
        assert(v@.subrange(a as int, hi as int).drop_first() =~= v@.subrange(a + 1, hi as int));
        a = a + 1;
    }
    let mut b = hi;
    while b > a && is_white_space_exec(v[b - 1])
        invariant
            lo <= a <= b <= hi <= v@.len(),
            trim_start(v@.subrange(lo as int, hi as int)) == v@.subrange(a as int, hi as int),
            trim(v@.subrange(lo as int, hi as int)) == trim_end(v@.subrange(a as int, b as int)),
        decreases b - a,
    {
        assert(v@.subrange(a as int, b as int).drop_last() =~= v@.subrange(a as int, b - 1));
        b = b - 1;
    }
    (a, b)
}


/// `p` occurs in `s` starting at index `i`.
pub open spec fn occurs_at<A>(s: Seq<A>, p: Seq<A>, i: int) -> bool {
    0 <= i && i + p.len() <= s.len() && s.subrange(i, i + p.len()) == p
}

/// `i` is the first index at which `p` occurs in `s`.
pub open spec fn is_first_occurrence<A>(s: Seq<A>, p: Seq<A>, i: int) -> bool {
    occurs_at(s, p, i) && forall|j: int| 0 <= j < i ==> !occurs_at(s, p, j)
}

/// The index of the first occurrence of `p` in `s`, if any (`str::find`, `slice::windows`
/// followed by `position`).
pub open spec fn find<A>(s: Seq<A>, p: Seq<A>) -> Option<int> {
    if exists|i: int| is_first_occurrence(s, p, i) {
        Some(choose|i: int| is_first_occurrence(s, p, i))
    } else {
        None
    }
}

/// Every occurrence has a first occurrence at or before it.
pub proof fn lemma_first_occurrence_exists<A>(s: Seq<A>, p: Seq<A>, k: int)
    requires
        occurs_at(s, p, k),
    ensures
        exists|i: int| i <= k && is_first_occurrence(s, p, i),
    decreases k,
{
    if !is_first_occurrence(s, p, k) {
        let j = choose|j: int| 0 <= j < k && occurs_at(s, p, j);
        lemma_first_occurrence_exists(s, p, j);
    }
}

/// `find` gives the first occurrence, and nothing when there is none.
pub proof fn lemma_find<A>(s: Seq<A>, p: Seq<A>)
    ensures
        find(s, p) matches Some(i) ==> is_first_occurrence(s, p, i),
        find(s, p) is None ==> forall|j: int| !occurs_at(s, p, j),
{
    if exists|j: int| occurs_at(s, p, j) {
        let j = choose|j: int| occurs_at(s, p, j);
        lemma_first_occurrence_exists(s, p, j);
    }
}

/// A first occurrence is what `find` gives.
pub proof fn lemma_find_is<A>(s: Seq<A>, p: Seq<A>, i: int)
    requires
        is_first_occurrence(s, p, i),
    ensures
        find(s, p) == Some(i),
{
    let c = choose|c: int| is_first_occurrence(s, p, c);
    assert(is_first_occurrence(s, p, c));
    if c < i {
        assert(!occurs_at(s, p, c));
    } else if c > i {
        assert(!occurs_at(s, p, i));
    }
}

/// The first occurrence of `p` in `v[lo..hi]`, as an index into `v`.
pub fn find_chars(v: &Vec<char>, lo: usize, hi: usize, p: &Vec<char>) -> (r: Option<usize>)
    requires
        lo <= hi <= v@.len(),
    ensures
        match r {
            Some(k) => lo <= k && k + p@.len() <= hi && find(v@.subrange(lo as int, hi as int), p@)
                == Some(k - lo),
            None => find(v@.subrange(lo as int, hi as int), p@) is None,
        },
{
    let ghost sub = v@.subrange(lo as int, hi as int);
    if p.len() > hi - lo {
        proof {
            lemma_find(sub, p@);
        }
        return None;
    }
    let last = hi - p.len();
    let mut i = lo;
    while i <= last
        invariant
            lo <= i <= last + 1,
            last + p@.len() == hi <= v@.len(),
            sub == v@.subrange(lo as int, hi as int),
            forall|j: int| 0 <= j < i - lo ==> !occurs_at(sub, p@, j),
        decreases last + 1 - i,
    {
        let mut k: usize = 0;
        let mut same = true;
        while k < p.len()
            invariant
                0 <= k <= p@.len(),
                lo <= i <= last,
                last + p@.len() == hi <= v@.len(),
                same == (forall|m: int| 0 <= m < k ==> v@[i + m] == #[trigger] p@[m]),
            decreases p@.len() - k,
        {
            if v[i + k] != p[k] {
                same = false;
            }
            k = k + 1;
        }
        if same {
            proof {
                assert(sub.subrange(i - lo, i - lo + p@.len()) =~= p@);
                lemma_find_is(sub, p@, i - lo);
            }
            return Some(i);
        }
        proof {
            if occurs_at(sub, p@, i - lo) {
                assert forall|m: int| 0 <= m < p@.len() implies v@[i + m] == #[trigger] p@[m] by {
                    assert(sub.subrange(i - lo, i - lo + p@.len())[m] == p@[m]);
                }
            }
        }
        i = i + 1;
    }
    proof {
        lemma_find(sub, p@);
        assert forall|j: int| !occurs_at(sub, p@, j) by {
            if 0 <= j < i - lo {
            }
        }
    }
    None
}


/// The first occurrence of `p` in `v[lo..]`, as an index into `v`.
pub fn find_bytes(v: &[u8], lo: usize, p: &[u8]) -> (r: Option<usize>)
    requires
        lo <= v@.len(),
    ensures
        match r {
            Some(k) => lo <= k && k + p@.len() <= v@.len() && find(v@.subrange(lo as int, v@.len() as int), p@)
                == Some(k - lo),
            None => find(v@.subrange(lo as int, v@.len() as int), p@) is None,
        },
{
    let hi = v.len();
    let ghost sub = v@.subrange(lo as int, hi as int);
    if p.len() > hi - lo {
        proof {
            lemma_find(sub, p@);
        }
        return None;
    }
    let last = hi - p.len();
    let mut i = lo;
    while i <= last
        invariant
            lo <= i <= last + 1,
            last + p@.len() == hi == v@.len(),
            sub == v@.subrange(lo as int, hi as int),
            forall|j: int| 0 <= j < i - lo ==> !occurs_at(sub, p@, j),
        decreases last + 1 - i,
    {
        let mut k: usize = 0;
        let mut same = true;
        while k < p.len()
            invariant
                0 <= k <= p@.len(),
                lo <= i <= last,
                last + p@.len() == hi == v@.len(),
                same == (forall|m: int| 0 <= m < k ==> v@[i + m] == #[trigger] p@[m]),
            decreases p@.len() - k,
        {
            if v[i + k] != p[k] {
                same = false;
            }
            k = k + 1;
        }
        if same {
            proof {
                assert(sub.subrange(i - lo, i - lo + p@.len()) =~= p@);
                lemma_find_is(sub, p@, i - lo);
            }
            return Some(i);
        }
        proof {
            if occurs_at(sub, p@, i - lo) {
                assert forall|m: int| 0 <= m < p@.len() implies v@[i + m] == #[trigger] p@[m] by {
                    assert(sub.subrange(i - lo, i - lo + p@.len())[m] == p@[m]);
                }
            }
        }
        i = i + 1;
    }
    proof {
        lemma_find(sub, p@);
        assert forall|j: int| !occurs_at(sub, p@, j) by {
            if 0 <= j < i - lo {
            }
        }
    }
    None
}

/// `v[lo..hi]` begins with `p`.
pub fn starts_with_at(v: &Vec<char>, lo: usize, hi: usize, p: &Vec<char>) -> (b: bool)
    requires
        lo <= hi <= v@.len(),
    ensures
        b == p@.is_prefix_of(v@.subrange(lo as int, hi as int)),
{
    if p.len() > hi - lo {
        return false;
    }
    let mut k: usize = 0;
    while k < p.len()
        invariant
            0 <= k <= p@.len(),
            lo + p@.len() <= hi <= v@.len(),
            forall|m: int| 0 <= m < k ==> v@[lo + m] == #[trigger] p@[m],
        decreases p@.len() - k,
    {
        if v[lo + k] != p[k] {
            proof {
                let sub = v@.subrange(lo as int, hi as int);
                assert(sub[k as int] != p@[k as int]);
            }
            return false;
        }
        k = k + 1;
    }
    proof {
        assert(p@ =~= v@.subrange(lo as int, hi as int).subrange(0, p@.len() as int));
    }
    true
}

/// ASCII lower-casing of a character code; other characters are left alone.
pub open spec fn lower_code(c: char) -> int {
    let u = c as u32;
    if 65 <= u <= 90 {
        u + 32
    } else {
        u as int
    }
}

/// `s` begins with `p` when ASCII letters are compared without regard to case.
///
/// For the lower-case ASCII patterns this library matches, this is exactly
/// `s.to_lowercase().starts_with(p)`: the only characters whose Unicode lower
/// case begins with an ASCII letter are the ASCII capitals, KELVIN SIGN (to `k`,
/// which no pattern holds) and LATIN CAPITAL LETTER I WITH DOT ABOVE (to `i`
/// followed by a combining mark, which no pattern holds after an `i`).
pub open spec fn starts_with_ci(s: Seq<char>, p: Seq<char>) -> bool {
    p.len() <= s.len() && forall|m: int| 0 <= m < p.len() ==> lower_code(s[m]) == lower_code(#[trigger] p[m])
}

pub fn lower_code_exec(c: char) -> (r: u32)
    ensures
        r == lower_code(c),
{
    let u = c as u32;
    if 65 <= u && u <= 90 {
        u + 32
    } else {
        u
    }
}

/// `v[lo..hi]` begins with `p`, ASCII case ignored.
pub fn starts_with_ci_at(v: &Vec<char>, lo: usize, hi: usize, p: &Vec<char>) -> (b: bool)
    requires
        lo <= hi <= v@.len(),
    ensures
        b == starts_with_ci(v@.subrange(lo as int, hi as int), p@),
{
    if p.len() > hi - lo {
        return false;
    }
    let mut k: usize = 0;
    while k < p.len()
        invariant
            0 <= k <= p@.len(),
            lo + p@.len() <= hi <= v@.len(),
            forall|m: int| 0 <= m < k ==> lower_code(v@[lo + m]) == lower_code(#[trigger] p@[m]),
        decreases p@.len() - k,
    {
        if lower_code_exec(v[lo + k]) != lower_code_exec(p[k]) {
            proof {
                let sub = v@.subrange(lo as int, hi as int);
                assert(sub[k as int] == v@[lo + k]);
            }
            return false;
        }
        k = k + 1;
    }
    proof {
        let sub = v@.subrange(lo as int, hi as int);
        assert forall|m: int| 0 <= m < p@.len() implies lower_code(sub[m]) == lower_code(#[trigger] p@[m]) by {
            assert(sub[m] == v@[lo + m]);
        }
    }
    true
}

/// The pieces of `s` between occurrences of `c` (`str::split` with a character).
pub open spec fn split_on(s: Seq<char>, c: char) -> Seq<Seq<char>>
    decreases s.len(),
{
    if s.len() == 0 {
        seq![Seq::<char>::empty()]
    } else {
        let init = split_on(s.drop_last(), c);
        if s.last() == c {
            init.push(Seq::<char>::empty())
        } else {
            init.update(init.len() - 1, init.last().push(s.last()))
        }
    }
}

pub proof fn lemma_split_on_nonempty(s: Seq<char>, c: char)
    ensures
        split_on(s, c).len() >= 1,
    decreases s.len(),
{
    if s.len() > 0 {
        lemma_split_on_nonempty(s.drop_last(), c);
    }
}

/// Text without `c` is one piece.
pub proof fn lemma_split_on_plain(s: Seq<char>, c: char)
    requires
        !s.contains(c),
    ensures
        split_on(s, c) == seq![s],
    decreases s.len(),
{
    if s.len() > 0 {
        let t = s.drop_last();
        assert(!t.contains(c)) by {
            if t.contains(c) {
                let i = choose|i: int| 0 <= i < t.len() && t[i] == c;
                assert(s[i] == c);
            }
        }
        lemma_split_on_plain(t, c);
        assert(s.last() != c) by {
            assert(s[s.len() - 1] == s.last());
        }
        assert(t.push(s.last()) =~= s);
        assert(seq![t].update(0, s) =~= seq![s]);
    } else {
        assert(s =~= Seq::<char>::empty());
    }
}

/// Splitting text joined by `c` splits each side.
pub proof fn lemma_split_on_append(a: Seq<char>, b: Seq<char>, c: char)
    ensures
        split_on(a + seq![c] + b, c) == split_on(a, c) + split_on(b, c),
    decreases b.len(),
{
    let s = a + seq![c] + b;
    lemma_split_on_nonempty(a, c);
    if b.len() == 0 {
        assert(s.drop_last() =~= a);
        assert(split_on(b, c) == seq![Seq::<char>::empty()]);
        assert(split_on(a, c).push(Seq::<char>::empty()) =~= split_on(a, c) + seq![Seq::<char>::empty()]);
    } else {
        let bt = b.drop_last();
        lemma_split_on_append(a, bt, c);
        lemma_split_on_nonempty(bt, c);
        assert(s.drop_last() =~= a + seq![c] + bt);
        assert(s.last() == b.last());
        let x = split_on(a, c);
        let y = split_on(bt, c);
        if b.last() == c {
            assert((x + y).push(Seq::<char>::empty()) =~= x + y.push(Seq::<char>::empty()));
        } else {
            let xy = x + y;
            assert(xy.last() == y.last());
            assert(xy.update(xy.len() - 1, xy.last().push(b.last())) =~= x + y.update(
                y.len() - 1,
                y.last().push(b.last()),
            ));
        }
    }
}

/// The bounds of each piece of `v[lo..hi]` split at `c`.
pub fn split_ranges(v: &Vec<char>, lo: usize, hi: usize, c: char) -> (r: Vec<(usize, usize)>)
    requires
        lo <= hi <= v@.len(),
    ensures
        r@.len() == split_on(v@.subrange(lo as int, hi as int), c).len(),
        forall|k: int| 0 <= k < r@.len() ==> lo <= (#[trigger] r@[k]).0 <= r@[k].1 <= hi
            && v@.subrange(r@[k].0 as int, r@[k].1 as int) == split_on(v@.subrange(lo as int, hi as int), c)[k],
{
    let mut r: Vec<(usize, usize)> = Vec::new();
    let mut start = lo;
    let mut i = lo;
    while i < hi
        invariant
            lo <= start <= i <= hi <= v@.len(),
            r@.len() + 1 == split_on(v@.subrange(lo as int, i as int), c).len(),
            forall|k: int| 0 <= k < r@.len() ==> lo <= (#[trigger] r@[k]).0 <= r@[k].1 <= i
                && v@.subrange(r@[k].0 as int, r@[k].1 as int) == split_on(v@.subrange(lo as int, i as int), c)[k],
            v@.subrange(start as int, i as int) == split_on(v@.subrange(lo as int, i as int), c).last(),
        decreases hi - i,
    {
        let ghost prev = split_on(v@.subrange(lo as int, i as int), c);
        proof {
            lemma_split_on_nonempty(v@.subrange(lo as int, i as int), c);
            assert(v@.subrange(lo as int, i + 1).drop_last() =~= v@.subrange(lo as int, i as int));
            assert(v@.subrange(lo as int, i + 1).last() == v@[i as int]);
        }
        if v[i] == c {
            r.push((start, i));
            start = i + 1;
            proof {
                assert(v@.subrange(start as int, i + 1) =~= Seq::<char>::empty());
            }
        } else {
            proof {
                assert(v@.subrange(start as int, i + 1) =~= v@.subrange(start as int, i as int).push(v@[i as int]));
            }
        }
        i = i + 1;
    }
    r.push((start, hi));
    proof {
        lemma_split_on_nonempty(v@.subrange(lo as int, hi as int), c);
    }
    r
}


/// A line without the carriage return that ended it.
pub open spec fn strip_cr(l: Seq<char>) -> Seq<char> {
    if l.len() > 0 && l.last() == '\r' {
        l.drop_last()
    } else {
        l
    }
}

/// The lines of `s` (`str::lines`): pieces between `'\n'`, a `'\r'` right before a
/// `'\n'` dropped, and no empty piece after a final `'\n'`.
pub open spec fn lines(s: Seq<char>) -> Seq<Seq<char>> {
    let p = split_on(s, '\n');
    let body = p.drop_last().map_values(|l: Seq<char>| strip_cr(l));
    if p.last().len() == 0 {
        body
    } else {
        body.push(p.last())
    }
}

/// The bounds of each line of `v[lo..hi]`.
pub fn line_ranges(v: &Vec<char>, lo: usize, hi: usize) -> (r: Vec<(usize, usize)>)
    requires
        lo <= hi <= v@.len(),
    ensures
        r@.len() == lines(v@.subrange(lo as int, hi as int)).len(),
        forall|k: int| 0 <= k < r@.len() ==> lo <= (#[trigger] r@[k]).0 <= r@[k].1 <= hi
            && v@.subrange(r@[k].0 as int, r@[k].1 as int) == lines(v@.subrange(lo as int, hi as int))[k],
{
    let pieces = split_ranges(v, lo, hi, '\n');
    let ghost p = split_on(v@.subrange(lo as int, hi as int), '\n');
    proof {
        lemma_split_on_nonempty(v@.subrange(lo as int, hi as int), '\n');
    }
    let n = pieces.len();
    let mut r: Vec<(usize, usize)> = Vec::new();
    let mut k: usize = 0;
    while k + 1 < n
        invariant
            n == pieces@.len() == p.len() >= 1,
            0 <= k <= n - 1,
            r@.len() == k,
            forall|j: int| 0 <= j < pieces@.len() ==> lo <= (#[trigger] pieces@[j]).0 <= pieces@[j].1 <= hi
                && v@.subrange(pieces@[j].0 as int, pieces@[j].1 as int) == p[j],
            hi <= v@.len(),
            forall|j: int| 0 <= j < r@.len() ==> lo <= (#[trigger] r@[j]).0 <= r@[j].1 <= hi
                && v@.subrange(r@[j].0 as int, r@[j].1 as int) == strip_cr(p[j]),
        decreases n - k,
    {
        let (a, b) = pieces[k];
        let mut e = b;
        if b > a && v[b - 1] == '\r' {
            e = b - 1;
            proof {
                assert(v@.subrange(a as int, e as int) =~= v@.subrange(a as int, b as int).drop_last());
            }
        }
        r.push((a, e));
        k = k + 1;
    }
    let (a, b) = pieces[n - 1];
    if b > a {
        r.push((a, b));
    }
    proof {
        let sub = v@.subrange(lo as int, hi as int);
        assert(p.last() == v@.subrange(a as int, b as int));
        let body = p.drop_last().map_values(|l: Seq<char>| strip_cr(l));
        assert forall|j: int| 0 <= j < body.len() implies body[j] == strip_cr(p[j]) by {}
    }
    r
}


/// `v[lo..hi]` is exactly `lit`.
pub fn range_is(v: &Vec<char>, lo: usize, hi: usize, lit: &str) -> (b: bool)
    requires
        lo <= hi <= v@.len(),
    ensures
        b == (v@.subrange(lo as int, hi as int) == lit@),
{
    let p = chars_of(lit);
    if p.len() != hi - lo {
        return false;
    }
    let r = starts_with_at(v, lo, hi, &p);
    proof {
        if r {
            assert(v@.subrange(lo as int, hi as int) =~= p@);
        }
    }
    r
}

/// `s` is exactly `lit`.
pub fn str_is(s: &str, lit: &str) -> (b: bool)
    ensures
        b == (s@ == lit@),
{
    let v = chars_of(s);
    let r = range_is(&v, 0, v.len(), lit);
    proof {
        assert(v@.subrange(0, v@.len() as int) =~= v@);
    }
    r
}


/// `p` occurs in `v` at `start`, checked byte by byte.
pub fn bytes_match_at(v: &[u8], start: usize, p: &[u8]) -> (b: bool)
    ensures
        b == occurs_at(v@, p@, start as int),
{
    if start > v.len() || p.len() > v.len() - start {
        return false;
    }
    let mut k: usize = 0;
    while k < p.len()
        invariant
            0 <= k <= p@.len(),
            start + p@.len() <= v@.len(),
            v@.len() == v.len(),
            forall|m: int| 0 <= m < k ==> v@[start + m] == #[trigger] p@[m],
        decreases p@.len() - k,
    {
        if v[start + k] != p[k] {
            proof {
                assert(v@.subrange(start as int, start + p@.len())[k as int] != p@[k as int]);
            }
            return false;
        }
        k = k + 1;
    }
    proof {
        assert(v@.subrange(start as int, start + p@.len()) =~= p@);
    }
    true
}

/// The first `Some` of a sequence of options.
pub open spec fn first_some<T>(s: Seq<Option<T>>) -> Option<T>
    decreases s.len(),
{
    if s.len() == 0 {
        None
    } else if s[0] is Some {
        s[0]
    } else {
        first_some(s.drop_first())
    }
}

/// Stepping over one element of `first_some`.
pub proof fn lemma_first_some_step<T>(s: Seq<Option<T>>, k: int)
    requires
        0 <= k < s.len(),
    ensures
        first_some(s.skip(k)) == if s[k] is Some {
            s[k]
        } else {
            first_some(s.skip(k + 1))
        },
{
    assert(s.skip(k).drop_first() =~= s.skip(k + 1));
}

/// `std::str::from_utf8`: the bytes read as text, when they are valid UTF-8 (std
/// returns an error exactly for bytes that are not).
#[verifier::external_body]
pub(crate) fn utf8_text(bytes: &[u8]) -> (r: Option<&str>)
    ensures
        r is Some <==> valid_utf8(bytes@),
        r matches Some(s) ==> s@ == decode_utf8(bytes@),
{
    std::str::from_utf8(bytes).ok()
}

} // verus!
