//! Splitting a line on a literal delimiter.

use vstd::prelude::*;

verus! {

/// The text of each string, in order.
pub open spec fn views(v: Seq<String>) -> Seq<Seq<char>> {
    v.map_values(|c: String| c@)
}

/// `r` with `p` put in front of its first component.
pub open spec fn prepend_to_first(p: Seq<char>, r: Seq<Seq<char>>) -> Seq<Seq<char>> {
    r.update(0, p + r[0])
}

/// The components of `s` around the occurrences of the delimiter `d`, found
/// left to right without overlap. With an empty delimiter every character is a
/// component of its own, and an empty component stands at each end.
pub open spec fn split_on(s: Seq<char>, d: Seq<char>) -> Seq<Seq<char>>
    decreases s.len(),
{
    if d.len() == 0 {
        seq![Seq::<char>::empty()] + s.map(|_i: int, c: char| seq![c]) + seq![Seq::<char>::empty()]
    } else if s.len() < d.len() {
        seq![s]
    } else if s.subrange(0, d.len() as int) == d {
        seq![Seq::<char>::empty()] + split_on(s.subrange(d.len() as int, s.len() as int), d)
    } else {
        prepend_to_first(seq![s[0]], split_on(s.subrange(1, s.len() as int), d))
    }
}

/// A split always yields at least one component.
pub proof fn lemma_split_nonempty(s: Seq<char>, d: Seq<char>)
    ensures
        split_on(s, d).len() >= 1,
    decreases s.len(),
{
    if d.len() > 0 && s.len() >= d.len() {
        if s.subrange(0, d.len() as int) == d {
            lemma_split_nonempty(s.subrange(d.len() as int, s.len() as int), d);
        } else {
            lemma_split_nonempty(s.subrange(1, s.len() as int), d);
        }
    }
}

/// Where no delimiter starts at the front, the first character joins the first
/// component of the rest.
proof fn lemma_split_skip(t: Seq<char>, d: Seq<char>)
    requires
        d.len() > 0,
        t.len() > 0,
        !(d.len() <= t.len() && t.subrange(0, d.len() as int) == d),
    ensures
        split_on(t, d) == prepend_to_first(seq![t[0]], split_on(t.subrange(1, t.len() as int), d)),
{
    if t.len() < d.len() {
        let rest = t.subrange(1, t.len() as int);
        assert(split_on(rest, d) == seq![rest]);
        assert(seq![t[0]] + rest =~= t);
        assert(prepend_to_first(seq![t[0]], seq![rest]) =~= seq![t]);
    }
}

/// The characters of `s`, in order.
pub fn chars_of(s: &str) -> (r: Vec<char>)
    ensures
        r@ == s@,
{
    let mut r: Vec<char> = Vec::new();
    for c in it: s.chars()
        invariant
            r@ == it.seq().subrange(0, it.index() as int),
    {
        r.push(c);
    }
    r
}

/// Whether `d` occurs in `s` at position `i`.
pub fn occurs_at(s: &Vec<char>, d: &Vec<char>, i: usize) -> (r: bool)
    requires
        i <= s.len(),
    ensures
        r == (i + d.len() <= s.len() && s@.subrange(i as int, i + d.len()) == d@),
{
    if d.len() > s.len() - i {
        return false;
    }
    let mut j: usize = 0;
    while j < d.len()
        invariant
            j <= d.len(),
            i + d.len() <= s.len(),
            forall|k: int| 0 <= k < j ==> s@[i + k] == d@[k],
        decreases d.len() - j,
    {
        if s[i + j] != d[j] {
            assert(s@.subrange(i as int, i + d.len())[j as int] != d@[j as int]);
            return false;
        }
        j = j + 1;
    }
    assert(s@.subrange(i as int, i + d.len()) =~= d@);
    true
}

/// Splits `line` on every occurrence of `delimiter`, left to right and without
/// overlap.
pub fn split_line(line: &str, delimiter: &str) -> (r: Vec<String>)
    ensures
        views(r@) == split_on(line@, delimiter@),
{
    let s = chars_of(line);
    let d = chars_of(delimiter);
    let n = s.len();
    let m = d.len();
    let mut parts: Vec<String> = Vec::new();
    if m == 0 {
        parts.push(String::new());
        for k in 0..n
            invariant
                n == s.len(),
                s@ == line@,
                views(parts@) =~= seq![Seq::<char>::empty()] + s@.subrange(0, k as int).map(
                    |_i: int, c: char| seq![c],
                ),
        {
            let one = String::from_str(line.substring_char(k, k + 1));
            let ghost before = parts@;
            parts.push(one);
            proof {
                assert(s@.subrange(0, k + 1) =~= s@.subrange(0, k as int).push(s@[k as int]));
                assert(views(parts@) =~= views(before).push(one@));
                assert(one@ =~= seq![s@[k as int]]);
            }
        }
        parts.push(String::new());
        assert(s@.subrange(0, n as int) =~= s@);
        assert(views(parts@) =~= split_on(line@, delimiter@));
        return parts;
    }
    let mut start: usize = 0;
    let mut i: usize = 0;
    proof {
        lemma_split_nonempty(s@, d@);
        assert(s@.subrange(0, n as int) =~= s@);
        assert(prepend_to_first(Seq::<char>::empty(), split_on(s@, d@)) =~= split_on(s@, d@));
        assert(views(parts@) =~= Seq::<Seq<char>>::empty());
    }
    while i < n
        invariant
            start <= i <= n,
            n == s.len(),
            m == d.len(),
            m > 0,
            s@ == line@,
            d@ == delimiter@,
            split_on(s@, d@) =~= views(parts@) + prepend_to_first(
                s@.subrange(start as int, i as int),
                split_on(s@.subrange(i as int, n as int), d@),
            ),
        decreases n - i,
    {
        let ghost t = s@.subrange(i as int, n as int);
        if occurs_at(&s, &d, i) {
            let part = String::from_str(line.substring_char(start, i));
            proof {
                let rest = s@.subrange(i + m, n as int);
                assert(t.subrange(0, m as int) =~= d@);
                assert(t.subrange(m as int, t.len() as int) =~= rest);
                lemma_split_nonempty(rest, d@);
                assert(prepend_to_first(Seq::<char>::empty(), split_on(rest, d@)) =~= split_on(
                    rest,
                    d@,
                ));
                assert(prepend_to_first(
                    s@.subrange(start as int, i as int),
                    seq![Seq::<char>::empty()] + split_on(rest, d@),
                ) =~= seq![s@.subrange(start as int, i as int)] + split_on(rest, d@));
            }
            parts.push(part);
            i = i + m;
            start = i;
            proof {
                assert(s@.subrange(start as int, i as int) =~= Seq::<char>::empty());
                assert(views(parts@) =~= views(parts@.drop_last()).push(parts@.last()@));
            }
        } else {
            proof {
                let rest = s@.subrange(i + 1, n as int);
                assert(t.subrange(1, t.len() as int) =~= rest);
                if m <= t.len() {
                    assert(t.subrange(0, m as int) =~= s@.subrange(i as int, i + m));
                }
                lemma_split_skip(t, d@);
                lemma_split_nonempty(rest, d@);
                let x0 = split_on(rest, d@)[0];
                assert((s@.subrange(start as int, i as int) + seq![t[0]]) + x0 =~= s@.subrange(
                    start as int,
                    i as int,
                ) + (seq![t[0]] + x0));
                assert(s@.subrange(start as int, i as int) + seq![t[0]] =~= s@.subrange(
                    start as int,
                    i + 1,
                ));
                assert(prepend_to_first(
                    s@.subrange(start as int, i as int),
                    prepend_to_first(seq![t[0]], split_on(rest, d@)),
                ) =~= prepend_to_first(s@.subrange(start as int, i + 1), split_on(rest, d@)));
            }
            i = i + 1;
        }
    }
    let last = String::from_str(line.substring_char(start, n));
    proof {
        let e = s@.subrange(n as int, n as int);
        assert(e =~= Seq::<char>::empty());
        assert(split_on(e, d@) == seq![e]);
        assert(prepend_to_first(s@.subrange(start as int, n as int), seq![e]) =~= seq![
            s@.subrange(start as int, n as int),
        ]);
    }
    parts.push(last);
    assert(views(parts@) =~= split_on(line@, delimiter@));
    parts
}

} // verus!
