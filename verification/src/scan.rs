//! Streaming extraction of artifact-path announcements from the build
//! tool's diagnostic lines.  The whole fragile text protocol sits behind
//! this one narrow interface: a line either yields the path enclosed in
//! the first viable pair of parentheses, or nothing.

use vstd::prelude::*;

use crate::text::{contains_seq, contains_sub, option_str_view};

verus! {

/// The run of characters before the first close paren, or nothing when
/// no close paren follows.
pub open spec fn run_to_close(t: Seq<char>) -> Option<Seq<char>>
    decreases t.len(),
{
    if t.len() == 0 {
        Option::None
    } else if t[0] == ')' {
        Option::Some(Seq::empty())
    } else {
        match run_to_close(t.drop_first()) {
            Option::Some(c) => Option::Some(seq![t[0]] + c),
            Option::None => Option::None,
        }
    }
}

/// The text enclosed by the leftmost open paren that is followed by at
/// least one character and then a close paren; offsets are tried left to
/// right, as the path-extraction pattern does.
pub open spec fn extract_between(s: Seq<char>) -> Option<Seq<char>>
    decreases s.len(),
{
    if s.len() == 0 {
        Option::None
    } else if s[0] == '(' {
        match run_to_close(s.drop_first()) {
            Option::Some(c) => if c.len() >= 1 {
                Option::Some(c)
            } else {
                extract_between(s.drop_first())
            },
            Option::None => extract_between(s.drop_first()),
        }
    } else {
        extract_between(s.drop_first())
    }
}

proof fn lemma_run_to_close_at(t: Seq<char>, m: int)
    requires
        0 <= m < t.len(),
        t[m] == ')',
        forall|k: int| 0 <= k < m ==> t[k] != ')',
    ensures
        run_to_close(t) == Option::Some(t.subrange(0, m)),
    decreases m,
{
    if m == 0 {
        assert(t.subrange(0, 0) =~= Seq::<char>::empty());
    } else {
        let u = t.drop_first();
        assert(forall|k: int| 0 <= k < m - 1 ==> u[k] == t[k + 1]);
        lemma_run_to_close_at(u, m - 1);
        assert(seq![t[0]] + u.subrange(0, m - 1) =~= t.subrange(0, m));
    }
}

proof fn lemma_run_to_close_none(t: Seq<char>)
    requires
        forall|k: int| 0 <= k < t.len() ==> t[k] != ')',
    ensures
        run_to_close(t) == Option::None::<Seq<char>>,
    decreases t.len(),
{
    if t.len() > 0 {
        lemma_run_to_close_none(t.drop_first());
    }
}

/// The path-extraction pattern: the text inside the first viable pair of
/// parentheses, or nothing when no such pair occurs in the line.
pub fn extract_path(line: &str) -> (r: Option<String>)
    ensures
        option_str_view(r) == extract_between(line@),
{
    let n = line.unicode_len();
    let mut i: usize = 0;
    proof {
        assert(line@.skip(0) =~= line@);
    }
    while i < n
        invariant
            i <= n,
            n == line@.len(),
            extract_between(line@) == extract_between(line@.skip(i as int)),
        decreases n - i,
    {
        proof {
            assert(line@.skip(i as int).drop_first() =~= line@.skip(i + 1));
            assert(line@.skip(i as int)[0] == line@[i as int]);
        }
        if line.get_char(i) == '(' {
            let mut j: usize = i + 1;
            while j < n && line.get_char(j) != ')'
                invariant
                    i + 1 <= j <= n,
                    n == line@.len(),
                    forall|k: int| i + 1 <= k < j ==> line@[k] != ')',
                decreases n - j,
            {
                j += 1;
            }
            proof {
                let t = line@.skip(i + 1);
                assert(forall|k: int| 0 <= k < t.len() ==> t[k] == line@[k + i + 1]);
                if j < n {
                    assert(line@[j as int] == ')');
                    lemma_run_to_close_at(t, j - i - 1);
                    assert(t.subrange(0, j - i - 1) =~= line@.subrange(i + 1, j as int));
                } else {
                    lemma_run_to_close_none(t);
                }
            }
            if j < n && j > i + 1 {
                let sub = line.substring_char(i + 1, j);
                return Option::Some(String::from_str(sub));
            }
            i += 1;
        } else {
            i += 1;
        }
    }
    proof {
        assert(line@.skip(n as int) =~= Seq::<char>::empty());
    }
    Option::None
}

/// One diagnostic line, reduced to its announcement if it makes one: the
/// line must carry the fixed marker text and a viable parenthesized path.
pub fn scan_line(line: &str) -> (r: Option<String>)
    ensures
        contains_seq(line@, "Executable unittests"@) ==> option_str_view(r) == extract_between(
            line@,
        ),
        !contains_seq(line@, "Executable unittests"@) ==> option_str_view(r)
            == Option::None::<Seq<char>>,
{
    if contains_sub(line, "Executable unittests") {
        extract_path(line)
    } else {
        Option::None
    }
}

} // verus!
