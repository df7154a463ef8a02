use vstd::prelude::*;
use vstd::string::*;

verus! {

/// The characters of `s`, in order.
pub fn chars_of(s: &str) -> (r: Vec<char>)
    ensures
        r@ == s@,
{
    let n = s.unicode_len();
    let mut r: Vec<char> = Vec::new();
    let mut i: usize = 0;
    while i < n
        invariant
            n == s@.len(),
            i <= n,
            r@ == s@.take(i as int),
        decreases n - i,
    {
        let c = s.get_char(i);
        r.push(c);
        assert(r@ =~= s@.take(i + 1));
        i = i + 1;
    }
    assert(r@ =~= s@);
    r
}

/// The text before the first `sep` in `s` (all of `s` if there is none).
pub open spec fn field(s: Seq<char>, sep: char) -> Seq<char>
    decreases s.len(),
{
    if s.len() == 0 {
        s
    } else if s[0] == sep {
        Seq::empty()
    } else {
        seq![s[0]] + field(s.drop_first(), sep)
    }
}

/// The text after the first `sep` in `s` (empty if there is none).
pub open spec fn after_field(s: Seq<char>, sep: char) -> Seq<char>
    decreases s.len(),
{
    if s.len() == 0 {
        s
    } else if s[0] == sep {
        s.drop_first()
    } else {
        after_field(s.drop_first(), sep)
    }
}

pub proof fn lemma_field_at(s: Seq<char>, sep: char, j: int)
    requires
        0 <= j <= s.len(),
        j < s.len() ==> s[j] == sep,
        forall|i: int| 0 <= i < j ==> s[i] != sep,
    ensures
        field(s, sep) == s.take(j),
        j < s.len() ==> after_field(s, sep) == s.skip(j + 1),
        j == s.len() ==> after_field(s, sep) == Seq::<char>::empty(),
    decreases j,
{
    if j > 0 {
        let t = s.drop_first();
        assert forall|i: int| 0 <= i < j - 1 implies t[i] != sep by {
            assert(t[i] == s[i + 1]);
        }
        lemma_field_at(t, sep, j - 1);
        assert(seq![s[0]] + t.take(j - 1) =~= s.take(j));
        if j < s.len() {
            assert(t.skip(j) =~= s.skip(j + 1));
        }
    } else {
        assert(s.take(0) =~= Seq::<char>::empty());
        if s.len() > 0 {
            assert(s.drop_first() =~= s.skip(1));
        }
    }
}

/// Whether `a` directly followed by `b` occurs in `s`.
pub open spec fn contains_pair(s: Seq<char>, a: char, b: char) -> bool {
    exists|i: int| 0 <= i && i + 1 < s.len() && s[i] == a && #[trigger] s[i + 1] == b
}

pub open spec fn ends_with_pair(s: Seq<char>, a: char, b: char) -> bool {
    s.len() >= 2 && s[s.len() - 2] == a && s[s.len() - 1] == b
}

/// `s` with every trailing repetition of `a` `b` removed.
pub open spec fn trim_end_pair(s: Seq<char>, a: char, b: char) -> Seq<char>
    decreases s.len(),
{
    if ends_with_pair(s, a, b) {
        trim_end_pair(s.take(s.len() - 2), a, b)
    } else {
        s
    }
}

pub fn has_pair(s: &Vec<char>, a: char, b: char) -> (r: bool)
    ensures
        r == contains_pair(s@, a, b),
{
    let mut i: usize = 0;
    while i < s.len() && i + 1 < s.len()
        invariant
            i <= s@.len(),
            forall|k: int| 0 <= k < i && k + 1 < s@.len() ==> !(s@[k] == a && #[trigger] s@[k + 1] == b),
        decreases s.len() - i,
    {
        if s[i] == a && s[i + 1] == b {
            return true;
        }
        i = i + 1;
    }
    false
}

/// The length of the prefix `s[..to]` left after trimming trailing
/// repetitions of `a` `b`.
pub fn trimmed_end(s: &Vec<char>, to: usize, a: char, b: char) -> (r: usize)
    requires
        to <= s@.len(),
    ensures
        r <= to,
        s@.take(r as int) == trim_end_pair(s@.take(to as int), a, b),
{
    let mut n: usize = to;
    while n >= 2 && s[n - 2] == a && s[n - 1] == b
        invariant
            n <= to <= s@.len(),
            trim_end_pair(s@.take(n as int), a, b) == trim_end_pair(s@.take(to as int), a, b),
        decreases n,
    {
        assert(s@.take(n as int).take(n - 2) =~= s@.take(n - 2));
        n = n - 2;
    }
    n
}

/// The first index of `sep` in `s[from..to]`, or `to` if there is none.
pub fn find_char(s: &Vec<char>, from: usize, to: usize, sep: char) -> (r: usize)
    requires
        from <= to <= s@.len(),
    ensures
        from <= r <= to,
        r < to ==> s@[r as int] == sep,
        forall|i: int| from <= i < r ==> s@[i] != sep,
{
    let mut i: usize = from;
    while i < to
        invariant
            from <= i <= to <= s@.len(),
            forall|k: int| from <= k < i ==> s@[k] != sep,
        decreases to - i,
    {
        if s[i] == sep {
            return i;
        }
        i = i + 1;
    }
    i
}

/// Field `k` (from 0) of `s` split at each `sep`, if `s` has that many.
pub open spec fn nth_field(s: Seq<char>, sep: char, k: nat) -> Option<Seq<char>>
    decreases k,
{
    if k == 0 {
        Some(field(s, sep))
    } else if s.contains(sep) {
        nth_field(after_field(s, sep), sep, (k - 1) as nat)
    } else {
        None
    }
}

/// Where field `k` of `s[..]` split at each `sep` lies, as a range of
/// indices.
pub fn find_nth_field(s: &Vec<char>, sep: char, k: usize) -> (r: Option<(usize, usize)>)
    ensures
        match r {
            Some((from, to)) => from <= to <= s@.len() && nth_field(s@, sep, k as nat) == Some(
                s@.subrange(from as int, to as int),
            ),
            None => nth_field(s@, sep, k as nat) is None,
        },
{
    let n = s.len();
    let mut pos: usize = 0;
    let mut left: usize = k;
    assert(s@.skip(0) =~= s@);
    while left > 0
        invariant
            pos <= n == s@.len(),
            left <= k,
            nth_field(s@.skip(pos as int), sep, left as nat) == nth_field(s@, sep, k as nat),
        decreases left,
    {
        let j = find_char(s, pos, n, sep);
        let ghost t = s@.skip(pos as int);
        proof {
            assert forall|i: int| 0 <= i < j - pos implies t[i] != sep by {
                assert(t[i] == s@[pos + i]);
            }
            lemma_field_at(t, sep, j - pos);
        }
        if j == n {
            proof {
                assert(!t.contains(sep)) by {
                    if t.contains(sep) {
                        let i = choose|i: int| 0 <= i < t.len() && t[i] == sep;
                        assert(s@[pos + i] == sep);
                    }
                }
            }
            return None;
        }
        proof {
            assert(t[j - pos] == sep);
            assert(t.contains(sep));
            assert(t.skip(j - pos + 1) =~= s@.skip(j + 1));
        }
        pos = j + 1;
        left = left - 1;
    }
    let end = find_char(s, pos, n, sep);
    proof {
        let t = s@.skip(pos as int);
        assert forall|i: int| 0 <= i < end - pos implies t[i] != sep by {
            assert(t[i] == s@[pos + i]);
        }
        lemma_field_at(t, sep, end - pos);
        assert(t.take(end - pos) =~= s@.subrange(pos as int, end as int));
    }
    Some((pos, end))
}

/// `p` occurs in `s` at index `i`.
pub open spec fn occurs_at(s: Seq<char>, p: Seq<char>, i: int) -> bool {
    0 <= i && i + p.len() <= s.len() && s.subrange(i, i + p.len()) == p
}

/// The text before the first occurrence of `p` in `s` (all of `s` if there
/// is none).
pub open spec fn pat_field(s: Seq<char>, p: Seq<char>) -> Seq<char>
    decreases s.len(),
{
    if s.len() == 0 {
        s
    } else if occurs_at(s, p, 0) {
        Seq::empty()
    } else {
        seq![s[0]] + pat_field(s.drop_first(), p)
    }
}

/// The text after the first occurrence of `p` in `s` (empty if there is
/// none).
pub open spec fn pat_after(s: Seq<char>, p: Seq<char>) -> Seq<char>
    decreases s.len(),
{
    if s.len() == 0 {
        s
    } else if occurs_at(s, p, 0) {
        s.skip(p.len() as int)
    } else {
        pat_after(s.drop_first(), p)
    }
}

pub open spec fn has_pat(s: Seq<char>, p: Seq<char>) -> bool {
    exists|i: int| #[trigger] occurs_at(s, p, i)
}

pub proof fn lemma_pat_field_at(s: Seq<char>, p: Seq<char>, j: int)
    requires
        p.len() > 0,
        0 <= j <= s.len(),
        j < s.len() ==> occurs_at(s, p, j),
        forall|i: int| 0 <= i < j ==> !occurs_at(s, p, i),
    ensures
        pat_field(s, p) == s.take(j),
        j < s.len() ==> pat_after(s, p) == s.skip(j + p.len()),
        j == s.len() ==> pat_after(s, p) == Seq::<char>::empty(),
    decreases j,
{
    if j > 0 {
        let t = s.drop_first();
        assert forall|i: int| 0 <= i < j - 1 implies !occurs_at(t, p, i) by {
            if occurs_at(t, p, i) {
                assert(s.subrange(i + 1, i + 1 + p.len()) =~= t.subrange(i, i + p.len()));
                assert(occurs_at(s, p, i + 1));
            }
        }
        if j < s.len() {
            assert(s.subrange(j, j + p.len()) =~= t.subrange(j - 1, j - 1 + p.len()));
        }
        assert(!occurs_at(s, p, 0));
        lemma_pat_field_at(t, p, j - 1);
        assert(seq![s[0]] + t.take(j - 1) =~= s.take(j));
        if j < s.len() {
            assert(t.skip(j - 1 + p.len()) =~= s.skip(j + p.len()));
        }
    } else {
        assert(s.take(0) =~= Seq::<char>::empty());
    }
}

/// The first index at or after `from` where `p` occurs in `s`, or `s.len()`
/// if there is none.
pub fn find_pat(s: &Vec<char>, from: usize, p: &Vec<char>) -> (r: usize)
    requires
        from <= s@.len(),
        p@.len() > 0,
    ensures
        from <= r <= s@.len(),
        r < s@.len() ==> occurs_at(s@, p@, r as int),
        forall|i: int| from <= i < r ==> !occurs_at(s@, p@, i),
{
    let n = s.len();
    let m = p.len();
    let mut i: usize = from;
    while i < n
        invariant
            from <= i <= n == s@.len(),
            m == p@.len() > 0,
            forall|k: int| from <= k < i ==> !occurs_at(s@, p@, k),
        decreases n - i,
    {
        if m <= n - i {
            let mut j: usize = 0;
            let mut same = true;
            while j < m
                invariant
                    i + m <= n == s@.len(),
                    m == p@.len(),
                    j <= m,
                    same == forall|k: int| 0 <= k < j ==> s@[i + k] == p@[k],
                decreases m - j,
            {
                same = same && s[i + j] == p[j];
                j = j + 1;
            }
            if same {
                assert(s@.subrange(i as int, i + m) =~= p@);
                return i;
            }
            assert(!occurs_at(s@, p@, i as int)) by {
                if occurs_at(s@, p@, i as int) {
                    let k = choose|k: int| 0 <= k < m && s@[i + k] != p@[k];
                    assert(s@.subrange(i as int, i + m)[k] == s@[i + k]);
                }
            }
        }
        i = i + 1;
    }
    i
}

/// Relies on `String`'s `FromIterator<char>` (through `collect`): the string
/// of the given characters.
#[verifier::external_body]
pub(crate) fn string_of(chars: &Vec<char>) -> (r: String)
    ensures
        r@ == chars@,
{
    chars.iter().collect()
}

/// The first two fields of `s` split at each `p`, as `str::split` gives
/// them; `None` when `p` does not occur, so that there is no second field.
pub open spec fn first_two_fields(s: Seq<char>, p: Seq<char>) -> Option<(Seq<char>, Seq<char>)> {
    if has_pat(s, p) {
        Some((pat_field(s, p), pat_field(pat_after(s, p), p)))
    } else {
        None
    }
}

pub fn split_two(s: &str, p: &str) -> (r: Option<(String, String)>)
    requires
        p@.len() > 0,
    ensures
        match r {
            Some((a, b)) => first_two_fields(s@, p@) == Some((a@, b@)),
            None => first_two_fields(s@, p@) is None,
        },
{
    let c = chars_of(s);
    let pc = chars_of(p);
    let j = find_pat(&c, 0, &pc);
    proof {
        lemma_pat_field_at(c@, pc@, j as int);
    }
    if j == c.len() {
        proof {
            assert(!has_pat(c@, pc@)) by {
                if has_pat(c@, pc@) {
                    let i = choose|i: int| #[trigger] occurs_at(c@, pc@, i);
                    assert(i < c@.len());
                }
            }
        }
        return None;
    }
    let start = j + pc.len();
    let k = find_pat(&c, start, &pc);
    let ghost rest = c@.skip(start as int);
    proof {
        assert(has_pat(c@, pc@));
        assert forall|i: int| 0 <= i < k - start implies !occurs_at(rest, pc@, i) by {
            if occurs_at(rest, pc@, i) {
                assert(c@.subrange(start + i, start + i + pc@.len()) =~= rest.subrange(
                    i,
                    i + pc@.len(),
                ));
                assert(occurs_at(c@, pc@, start + i));
            }
        }
        if k < c@.len() {
            assert(c@.subrange(k as int, k + pc@.len()) =~= rest.subrange(
                k - start,
                k - start + pc@.len(),
            ));
        }
        lemma_pat_field_at(rest, pc@, k - start);
    }
    let mut first: Vec<char> = Vec::new();
    let mut i: usize = 0;
    while i < j
        invariant
            j <= c@.len(),
            i <= j,
            first@ == c@.take(i as int),
        decreases j - i,
    {
        first.push(c[i]);
        assert(first@ =~= c@.take(i + 1));
        i = i + 1;
    }
    let mut second: Vec<char> = Vec::new();
    let mut i: usize = start;
    while i < k
        invariant
            start <= i <= k <= c@.len(),
            second@ == c@.subrange(start as int, i as int),
        decreases k - i,
    {
        second.push(c[i]);
        assert(second@ =~= c@.subrange(start as int, i + 1));
        i = i + 1;
    }
    assert(rest.take(k - start) =~= c@.subrange(start as int, k as int));
    Some((string_of(&first), string_of(&second)))
}

} // verus!
