//! Splitting and joining on a separator character, with the round-trip
//! law that the build tool's control-character flag encoding relies on.

use vstd::prelude::*;

use crate::text::str_views;

verus! {

/// `s` divided at every occurrence of `sep`.  The empty string divides
/// into one empty piece, so the result always holds at least one piece.
pub open spec fn split_on(s: Seq<char>, sep: char) -> Seq<Seq<char>>
    decreases s.len(),
{
    if s.len() == 0 {
        seq![Seq::<char>::empty()]
    } else if s[0] == sep {
        seq![Seq::<char>::empty()] + split_on(s.drop_first(), sep)
    } else {
        let r = split_on(s.drop_first(), sep);
        seq![seq![s[0]] + r[0]] + r.subrange(1, r.len() as int)
    }
}

/// The pieces joined back with `sep` between each pair of neighbours.
pub open spec fn join_with(l: Seq<Seq<char>>, sep: char) -> Seq<char>
    decreases l.len(),
{
    if l.len() == 0 {
        Seq::empty()
    } else if l.len() == 1 {
        l[0]
    } else {
        l[0] + seq![sep] + join_with(l.subrange(1, l.len() as int), sep)
    }
}

pub proof fn lemma_split_on_len(s: Seq<char>, sep: char)
    ensures
        split_on(s, sep).len() >= 1,
    decreases s.len(),
{
    if s.len() > 0 {
        lemma_split_on_len(s.drop_first(), sep);
    }
}

/// A separator-free string divides into exactly itself.
proof fn lemma_split_on_free(x: Seq<char>, sep: char)
    requires
        !x.contains(sep),
    ensures
        split_on(x, sep) == seq![x],
    decreases x.len(),
{
    if x.len() == 0 {
        assert(split_on(x, sep) =~~= seq![x]);
    } else {
        assert(x[0] != sep);
        let t = x.drop_first();
        assert(!t.contains(sep)) by {
            if t.contains(sep) {
                let j = choose|j: int| 0 <= j < t.len() && t[j] == sep;
                assert(x[j + 1] == sep);
            }
        }
        lemma_split_on_free(t, sep);
        let r = split_on(t, sep);
        assert(seq![x[0]] + r[0] =~= x);
        assert(r.subrange(1, r.len() as int) =~= Seq::<Seq<char>>::empty());
        assert(split_on(x, sep) =~= seq![x]);
    }
}

/// Dividing `a + sep + rest` peels off the separator-free piece `a`.
proof fn lemma_split_on_step(a: Seq<char>, rest: Seq<char>, sep: char)
    requires
        !a.contains(sep),
    ensures
        split_on(a + seq![sep] + rest, sep) == seq![a] + split_on(rest, sep),
    decreases a.len(),
{
    let s = a + seq![sep] + rest;
    if a.len() == 0 {
        assert(s[0] == sep);
        assert(s.drop_first() =~= rest);
        assert(seq![Seq::<char>::empty()] + split_on(rest, sep) =~~= seq![a] + split_on(
            rest,
            sep,
        ));
    } else {
        assert(s[0] == a[0]);
        assert(a[0] != sep);
        let t = a.drop_first();
        assert(!t.contains(sep)) by {
            if t.contains(sep) {
                let j = choose|j: int| 0 <= j < t.len() && t[j] == sep;
                assert(a[j + 1] == sep);
            }
        }
        assert(s.drop_first() =~= t + seq![sep] + rest);
        lemma_split_on_step(t, rest, sep);
        let r = split_on(s.drop_first(), sep);
        assert(r == seq![t] + split_on(rest, sep));
        assert(r[0] == t);
        assert(seq![s[0]] + r[0] =~= a);
        assert(r.subrange(1, r.len() as int) =~= split_on(rest, sep));
        assert(split_on(s, sep) =~= seq![a] + split_on(rest, sep));
    }
}

/// Joining separator-free pieces and dividing again recovers the pieces.
pub proof fn lemma_split_join(l: Seq<Seq<char>>, sep: char)
    requires
        l.len() >= 1,
        forall|i: int| 0 <= i < l.len() ==> !(#[trigger] l[i]).contains(sep),
    ensures
        split_on(join_with(l, sep), sep) == l,
    decreases l.len(),
{
    if l.len() == 1 {
        lemma_split_on_free(l[0], sep);
        assert(seq![l[0]] =~= l);
    } else {
        let tail = l.subrange(1, l.len() as int);
        lemma_split_join(tail, sep);
        lemma_split_on_step(l[0], join_with(tail, sep), sep);
        assert(seq![l[0]] + tail =~= l);
    }
}

/// A piece added on the right extends the joined string on the right.
pub proof fn lemma_join_push(l: Seq<Seq<char>>, x: Seq<char>, sep: char)
    requires
        l.len() >= 1,
    ensures
        join_with(l.push(x), sep) == join_with(l, sep) + seq![sep] + x,
    decreases l.len(),
{
    if l.len() == 1 {
        let lp = l.push(x);
        assert(lp.subrange(1, lp.len() as int) =~~= seq![x]);
        assert(join_with(seq![x], sep) == x);
        assert(join_with(lp, sep) == lp[0] + seq![sep] + join_with(
            lp.subrange(1, lp.len() as int),
            sep,
        ));
    } else {
        let tail = l.subrange(1, l.len() as int);
        lemma_join_push(tail, x, sep);
        assert(l.push(x).subrange(1, l.len() as int + 1) =~= tail.push(x));
        assert(join_with(l.push(x), sep) =~= l[0] + seq![sep] + (join_with(tail, sep)
            + seq![sep] + x));
        assert(l[0] + seq![sep] + (join_with(tail, sep) + seq![sep] + x) =~= (l[0] + seq![sep]
            + join_with(tail, sep)) + seq![sep] + x);
    }
}

/// The not yet finished piece, waiting at the head of the still undivided rest.
spec fn prepend_head(pre: Seq<char>, l: Seq<Seq<char>>) -> Seq<Seq<char>> {
    seq![pre + l[0]] + l.subrange(1, l.len() as int)
}

pub fn split_str(s: &str, sep: char) -> (r: Vec<String>)
    ensures
        str_views(r@) == split_on(s@, sep),
{
    let n = s.unicode_len();
    let mut parts: Vec<String> = Vec::new();
    let mut cur: String = String::new();
    let mut i: usize = 0;
    proof {
        assert(Seq::<char>::empty() + split_on(s@, sep)[0] =~= split_on(s@, sep)[0]);
        lemma_split_on_len(s@, sep);
        assert(split_on(s@, sep) =~= prepend_head(Seq::<char>::empty(), split_on(s@, sep)));
        assert(s@.subrange(0, n as int) =~= s@);
    }
    while i < n
        invariant
            i <= n,
            n == s@.len(),
            split_on(s@, sep) == str_views(parts@) + prepend_head(
                cur@,
                split_on(s@.subrange(i as int, n as int), sep),
            ),
        decreases n - i,
    {
        let c = s.get_char(i);
        proof {
            let rest = s@.subrange(i as int, n as int);
            let rest1 = s@.subrange(i + 1, n as int);
            assert(rest[0] == s@[i as int]);
            assert(rest.drop_first() =~= rest1);
            lemma_split_on_len(rest1, sep);
            let q = split_on(rest1, sep);
            if s@[i as int] == sep {
                assert(split_on(rest, sep) == seq![Seq::<char>::empty()] + q);
                assert(prepend_head(cur@, split_on(rest, sep)) =~= seq![cur@] + prepend_head(
                    Seq::<char>::empty(),
                    q,
                ));
                assert(str_views(parts@.push(cur)) =~= parts@.map_values(
                    |t: String| t@,
                ).push(cur@));
                assert(str_views(parts@).push(cur@) + prepend_head(
                    Seq::<char>::empty(),
                    q,
                ) =~= str_views(parts@) + (seq![cur@] + prepend_head(
                    Seq::<char>::empty(),
                    q,
                )));
                assert(Seq::<char>::empty() + q[0] =~= q[0]);
                assert(prepend_head(Seq::<char>::empty(), q) =~= q);
            } else {
                assert(split_on(rest, sep) == seq![seq![rest[0]] + q[0]] + q.subrange(
                    1,
                    q.len() as int,
                ));
                assert(cur@ + (seq![s@[i as int]] + q[0]) =~= cur@.push(s@[i as int]) + q[0]);
                assert(prepend_head(cur@, split_on(rest, sep)) =~= prepend_head(
                    cur@.push(s@[i as int]),
                    q,
                ));
            }
        }
        if c == sep {
            parts.push(cur);
            cur = String::new();
        } else {
            cur.push(c);
        }
        i += 1;
    }
    proof {
        let rest = s@.subrange(n as int, n as int);
        assert(rest =~= Seq::<char>::empty());
        assert(split_on(rest, sep) == seq![Seq::<char>::empty()]);
        assert(cur@ + Seq::<char>::empty() =~= cur@);
        assert(prepend_head(cur@, split_on(rest, sep)) =~= seq![cur@]);
        assert(str_views(parts@.push(cur)) =~= str_views(parts@)
            + seq![cur@]);
    }
    parts.push(cur);
    parts
}

pub fn join_str(items: &Vec<String>, sep: char) -> (r: String)
    ensures
        r@ == join_with(str_views(items@), sep),
{
    let ghost dv = str_views(items@);
    if items.len() == 0 {
        return String::new();
    }
    let mut out = String::new();
    out.append(items[0].as_str());
    let mut i: usize = 1;
    proof {
        assert(dv.subrange(0, 1) =~= seq![dv[0]]);
        assert(out@ == join_with(dv.subrange(0, 1), sep));
    }
    while i < items.len()
        invariant
            1 <= i <= items.len(),
            dv == str_views(items@),
            dv.len() == items@.len(),
            out@ == join_with(dv.subrange(0, i as int), sep),
        decreases items.len() - i,
    {
        proof {
            lemma_join_push(dv.subrange(0, i as int), dv[i as int], sep);
            assert(dv.subrange(0, i as int).push(dv[i as int]) =~= dv.subrange(0, i + 1));
        }
        out.push(sep);
        out.append(items[i].as_str());
        proof {
            assert(out@ =~= join_with(dv.subrange(0, i as int), sep) + seq![sep] + dv[i as int]);
        }
        i += 1;
    }
    proof {
        assert(dv.subrange(0, dv.len() as int) =~= dv);
    }
    out
}

} // verus!
