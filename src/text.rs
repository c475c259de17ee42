//! Character-level text model: whitespace, trimming, words and lines.
use vstd::prelude::*;

verus! {

/// The characters with the Unicode `White_Space` property, which is what
/// `char::is_whitespace` tests.
pub open spec fn is_ws(c: char) -> bool {
    let u = c as u32;
    ||| 0x09 <= u <= 0x0d
    ||| u == 0x20
    ||| u == 0x85
    ||| u == 0xa0
    ||| u == 0x1680
    ||| 0x2000 <= u <= 0x200a
    ||| u == 0x2028
    ||| u == 0x2029
    ||| u == 0x202f
    ||| u == 0x205f
    ||| u == 0x3000
}

/// Executable whitespace test.
pub fn is_whitespace(c: char) -> (r: bool)
    ensures
        r == is_ws(c),
{
    let u = c as u32;
    (0x09 <= u && u <= 0x0d) || u == 0x20 || u == 0x85 || u == 0xa0 || u == 0x1680 || (0x2000
        <= u && u <= 0x200a) || u == 0x2028 || u == 0x2029 || u == 0x202f || u == 0x205f || u
        == 0x3000
}

/// `s` without its leading whitespace.
pub open spec fn trim_start(s: Seq<char>) -> Seq<char>
    decreases s.len(),
{
    if s.len() > 0 && is_ws(s[0]) {
        trim_start(s.drop_first())
    } else {
        s
    }
}

/// `s` without its trailing whitespace.
pub open spec fn trim_end(s: Seq<char>) -> Seq<char>
    decreases s.len(),
{
    if s.len() > 0 && is_ws(s.last()) {
        trim_end(s.drop_last())
    } else {
        s
    }
}

/// `s` without leading and trailing whitespace, as `str::trim` gives it.
pub open spec fn trim(s: Seq<char>) -> Seq<char> {
    trim_end(trim_start(s))
}

/// `s` with every occurrence of `p` taken out, scanning left to right without
/// overlap, as `str::replace(p, "")` does.
pub open spec fn remove_all(s: Seq<char>, p: Seq<char>) -> Seq<char>
    recommends
        p.len() > 0,
    decreases s.len(),
{
    if s.len() == 0 {
        s
    } else if p.len() > 0 && p.len() <= s.len() && s.subrange(0, p.len() as int) == p {
        remove_all(s.subrange(p.len() as int, s.len() as int), p)
    } else {
        seq![s[0]] + remove_all(s.drop_first(), p)
    }
}

/// The words of `s` after the pending word `cur`: the maximal runs of
/// non-whitespace characters, in order.
pub open spec fn words_from(s: Seq<char>, cur: Seq<char>) -> Seq<Seq<char>>
    decreases s.len(),
{
    if s.len() == 0 {
        if cur.len() > 0 {
            seq![cur]
        } else {
            seq![]
        }
    } else if is_ws(s[0]) {
        (if cur.len() > 0 {
            seq![cur]
        } else {
            seq![]
        }) + words_from(s.drop_first(), seq![])
    } else {
        words_from(s.drop_first(), cur.push(s[0]))
    }
}

/// The whitespace-separated words of `s`, as `str::split_whitespace` yields them.
pub open spec fn words(s: Seq<char>) -> Seq<Seq<char>> {
    words_from(s, seq![])
}

/// The characters of `s`, in order.
pub fn chars_of(s: &str) -> (r: Vec<char>)
    ensures
        r@ == s@,
{
    broadcast use vstd::string::group_string_axioms;

    let mut r: Vec<char> = Vec::new();
    for c in iter: s.chars()
        invariant
            iter.seq() == s@,
            r@ == s@.take(iter.index() as int),
    {
        r.push(c);
    }
    assert(r@ =~= s@);
    r
}

/// The bounds `(a, b)` of the trimmed part of `v[lo..hi]`.
pub fn trim_bounds(v: &Vec<char>, lo: usize, hi: usize) -> (r: (usize, usize))
    requires
        lo <= hi <= v.len(),
    ensures
        lo <= r.0 <= r.1 <= hi,
        v@.subrange(r.0 as int, r.1 as int) == trim(v@.subrange(lo as int, hi as int)),
{
    let mut a: usize = lo;
    while a < hi && is_whitespace(v[a])
        invariant
            lo <= a <= hi <= v.len(),
            trim_start(v@.subrange(lo as int, hi as int)) == trim_start(
                v@.subrange(a as int, hi as int),
            ),
        decreases hi - a,
    {
        assert(v@.subrange(a as int, hi as int).drop_first() =~= v@.subrange(
            a + 1,
            hi as int,
        ));
        a = a + 1;
    }
    let mut b: usize = hi;
    while b > a && is_whitespace(v[b - 1])
        invariant
            lo <= a <= b <= hi <= v.len(),
            trim_end(v@.subrange(a as int, hi as int)) == trim_end(v@.subrange(a as int, b as int)),
        decreases b,
    {
        assert(v@.subrange(a as int, b as int).drop_last() =~= v@.subrange(a as int, b - 1));
        b = b - 1;
    }
    (a, b)
}

/// A copy of `s` with leading and trailing whitespace removed.
pub fn trimmed(s: &str) -> (r: String)
    ensures
        r@ == trim(s@),
{
    let v = chars_of(s);
    let (a, b) = trim_bounds(&v, 0, v.len());
    assert(v@.subrange(0, v@.len() as int) =~= s@);
    String::from_str(s.substring_char(a, b))
}

/// Whether `p` occurs in `v` at position `k`, within `v[..hi]`.
pub fn occurs_at(v: &Vec<char>, k: usize, hi: usize, p: &Vec<char>) -> (r: bool)
    requires
        k <= hi <= v.len(),
    ensures
        r == (p.len() <= hi - k && v@.subrange(k as int, k + p.len()) == p@),
{
    if p.len() > hi - k {
        return false;
    }
    let mut j: usize = 0;
    while j < p.len()
        invariant
            j <= p.len() <= hi - k,
            k <= hi <= v.len(),
            v@.subrange(k as int, k + j) == p@.take(j as int),
        decreases p.len() - j,
    {
        if v[k + j] != p[j] {
            assert(v@.subrange(k as int, k + p.len())[j as int] != p@[j as int]);
            return false;
        }
        assert(v@.subrange(k as int, k + j + 1) =~= p@.take(j + 1));
        j = j + 1;
    }
    assert(p@.take(p.len() as int) =~= p@);
    true
}

/// `remove_all` of `v[lo..hi]` and `p`, where `v` holds the characters of `s`.
pub fn removed(s: &str, v: &Vec<char>, lo: usize, hi: usize, p: &Vec<char>) -> (r: String)
    requires
        v@ == s@,
        lo <= hi <= v.len(),
        p.len() > 0,
    ensures
        r@ == remove_all(v@.subrange(lo as int, hi as int), p@),
{
    let mut r = String::new();
    let mut seg: usize = lo;
    let mut k: usize = lo;
    while k < hi
        invariant
            v@ == s@,
            lo <= seg <= k <= hi <= v.len(),
            p.len() > 0,
            r@ + v@.subrange(seg as int, k as int) + remove_all(v@.subrange(k as int, hi as int), p@)
                == remove_all(v@.subrange(lo as int, hi as int), p@),
        decreases hi - k,
    {
        let ghost rest = v@.subrange(k as int, hi as int);
        let ghost pending = v@.subrange(seg as int, k as int);
        let ghost r0 = r@;
        if occurs_at(v, k, hi, p) {
            assert(rest.subrange(0, p.len() as int) =~= v@.subrange(k as int, k + p.len()));
            assert(rest.subrange(p.len() as int, rest.len() as int) =~= v@.subrange(
                k + p.len(),
                hi as int,
            ));
            assert(remove_all(rest, p@) == remove_all(
                v@.subrange(k + p.len(), hi as int),
                p@,
            ));
            r.append(s.substring_char(seg, k));
            k = k + p.len();
            seg = k;
            assert(v@.subrange(seg as int, k as int) =~= Seq::<char>::empty());
            assert(r@ + v@.subrange(seg as int, k as int) + remove_all(
                v@.subrange(k as int, hi as int),
                p@,
            ) =~= r0 + pending + remove_all(rest, p@));
        } else {
            assert(rest.drop_first() =~= v@.subrange(k + 1, hi as int));
            assert(p.len() <= rest.len() ==> rest.subrange(0, p.len() as int) =~= v@.subrange(
                k as int,
                k + p.len(),
            ));
            assert(remove_all(rest, p@) == seq![v@[k as int]] + remove_all(
                v@.subrange(k + 1, hi as int),
                p@,
            ));
            assert(v@.subrange(seg as int, k + 1) =~= pending + seq![v@[k as int]]);
            k = k + 1;
            assert(r@ + v@.subrange(seg as int, k as int) + remove_all(
                v@.subrange(k as int, hi as int),
                p@,
            ) =~= r0 + pending + remove_all(rest, p@));
        }
    }
    assert(v@.subrange(k as int, hi as int) =~= Seq::<char>::empty());
    r.append(s.substring_char(seg, k));
    assert(r@ =~= remove_all(v@.subrange(lo as int, hi as int), p@));
    r
}

} // verus!
