//! Decimal rendering of machine words, and of whole arrays of them in
//! source-literal form, pinned to a recursive digit specification.

use vstd::prelude::*;

verus! {

pub open spec fn digit_char(d: int) -> char {
    if d == 0 {
        '0'
    } else if d == 1 {
        '1'
    } else if d == 2 {
        '2'
    } else if d == 3 {
        '3'
    } else if d == 4 {
        '4'
    } else if d == 5 {
        '5'
    } else if d == 6 {
        '6'
    } else if d == 7 {
        '7'
    } else if d == 8 {
        '8'
    } else {
        '9'
    }
}

/// The decimal digits of a non-negative number, most significant first.
pub open spec fn dec_digits(n: int) -> Seq<char>
    decreases n,
{
    if n < 10 {
        seq![digit_char(n)]
    } else {
        dec_digits(n / 10).push(digit_char(n % 10))
    }
}

fn digit_char_exec(d: u32) -> (r: char)
    requires
        d < 10,
    ensures
        r == digit_char(d as int),
{
    if d == 0 {
        '0'
    } else if d == 1 {
        '1'
    } else if d == 2 {
        '2'
    } else if d == 3 {
        '3'
    } else if d == 4 {
        '4'
    } else if d == 5 {
        '5'
    } else if d == 6 {
        '6'
    } else if d == 7 {
        '7'
    } else if d == 8 {
        '8'
    } else {
        '9'
    }
}

pub fn u32_dec(n: u32) -> (r: String)
    ensures
        r@ == dec_digits(n as int),
{
    let mut rev: Vec<char> = Vec::new();
    let mut m: u32 = n;
    while m >= 10
        invariant
            dec_digits(n as int) == dec_digits(m as int) + rev@.reverse(),
        decreases m,
    {
        let d = m % 10;
        proof {
            assert(dec_digits(m as int) == dec_digits(m as int / 10).push(digit_char(
                m as int % 10,
            )));
            assert(rev@.push(digit_char(m as int % 10)).reverse() =~= seq![
                digit_char(m as int % 10),
            ] + rev@.reverse());
            assert(dec_digits(m as int / 10).push(digit_char(m as int % 10)) + rev@.reverse()
                =~= dec_digits(m as int / 10) + (seq![digit_char(m as int % 10)]
                + rev@.reverse()));
        }
        rev.push(digit_char_exec(d));
        m = m / 10;
    }
    proof {
        assert(rev@.push(digit_char(m as int)).reverse() =~= seq![digit_char(m as int)]
            + rev@.reverse());
        assert(dec_digits(m as int) + rev@.reverse() =~= seq![digit_char(m as int)]
            + rev@.reverse());
    }
    rev.push(digit_char_exec(m));
    let mut out = String::new();
    let mut i: usize = rev.len();
    while i > 0
        invariant
            i <= rev@.len(),
            out@ == rev@.reverse().subrange(0, rev@.len() - i),
        decreases i,
    {
        proof {
            assert(rev@.reverse()[rev@.len() - i] == rev@[i - 1]);
            assert(rev@.reverse().subrange(0, rev@.len() - i).push(rev@[i - 1]) =~= rev@.reverse()
                .subrange(0, rev@.len() - (i - 1)));
        }
        out.push(rev[i - 1]);
        i -= 1;
    }
    proof {
        assert(rev@.reverse().subrange(0, rev@.len() as int) =~= rev@.reverse());
        assert(dec_digits(n as int) =~= rev@.reverse());
    }
    out
}

/// The numbers rendered in decimal, a comma and a space between neighbours.
pub open spec fn dec_list(l: Seq<int>) -> Seq<char>
    decreases l.len(),
{
    if l.len() == 0 {
        Seq::empty()
    } else if l.len() == 1 {
        dec_digits(l[0])
    } else {
        dec_digits(l[0]) + seq![',', ' '] + dec_list(l.subrange(1, l.len() as int))
    }
}

/// The numbers as a bracketed source-text array literal.
pub open spec fn array_lit(l: Seq<int>) -> Seq<char> {
    seq!['['] + dec_list(l) + seq![']']
}

proof fn lemma_dec_list_push(l: Seq<int>, x: int)
    requires
        l.len() >= 1,
    ensures
        dec_list(l.push(x)) == dec_list(l) + seq![',', ' '] + dec_digits(x),
    decreases l.len(),
{
    if l.len() == 1 {
        let lp = l.push(x);
        assert(lp.subrange(1, lp.len() as int) =~= seq![x]);
        assert(dec_list(seq![x]) == dec_digits(x));
        assert(dec_list(lp) == dec_digits(lp[0]) + seq![',', ' '] + dec_list(
            lp.subrange(1, lp.len() as int),
        ));
    } else {
        let tail = l.subrange(1, l.len() as int);
        lemma_dec_list_push(tail, x);
        assert(l.push(x).subrange(1, l.len() as int + 1) =~= tail.push(x));
        assert(dec_list(l.push(x)) =~= dec_digits(l[0]) + seq![',', ' '] + (dec_list(tail)
            + seq![',', ' '] + dec_digits(x)));
        assert(dec_digits(l[0]) + seq![',', ' '] + (dec_list(tail) + seq![',', ' '] + dec_digits(
            x,
        )) =~= (dec_digits(l[0]) + seq![',', ' '] + dec_list(tail)) + seq![',', ' ']
            + dec_digits(x));
    }
}

pub fn render_u32_list(items: &Vec<u32>) -> (r: String)
    ensures
        r@ == array_lit(items@.map_values(|x: u32| x as int)),
{
    let ghost dv = items@.map_values(|x: u32| x as int);
    let mut out = String::new();
    out.push('[');
    let mut i: usize = 0;
    proof {
        assert(dv.subrange(0, 0) =~= Seq::<int>::empty());
        assert(out@ =~= seq!['['] + dec_list(dv.subrange(0, 0)));
    }
    while i < items.len()
        invariant
            i <= items@.len(),
            dv == items@.map_values(|x: u32| x as int),
            dv.len() == items@.len(),
            out@ == seq!['['] + dec_list(dv.subrange(0, i as int)),
        decreases items@.len() - i,
    {
        if i > 0 {
            proof {
                lemma_dec_list_push(dv.subrange(0, i as int), dv[i as int]);
                assert(dv.subrange(0, i as int).push(dv[i as int]) =~= dv.subrange(0, i + 1));
            }
            out.push(',');
            out.push(' ');
            let d = u32_dec(items[i]);
            out.append(d.as_str());
            proof {
                assert(out@ =~= seq!['['] + (dec_list(dv.subrange(0, i as int)) + seq![',', ' ']
                    + dec_digits(dv[i as int])));
            }
        } else {
            let d = u32_dec(items[i]);
            out.append(d.as_str());
            proof {
                assert(dv.subrange(0, 1) =~= seq![dv[0]]);
                assert(out@ =~= seq!['['] + dec_list(dv.subrange(0, 1)));
            }
        }
        i += 1;
    }
    out.push(']');
    proof {
        assert(dv.subrange(0, dv.len() as int) =~= dv);
        assert(out@ =~= array_lit(dv));
    }
    out
}

pub fn render_u8_list(items: &Vec<u8>) -> (r: String)
    ensures
        r@ == array_lit(items@.map_values(|x: u8| x as int)),
{
    let mut wide: Vec<u32> = Vec::new();
    let mut i: usize = 0;
    while i < items.len()
        invariant
            i <= items@.len(),
            wide@.len() == i,
            forall|j: int| 0 <= j < i ==> wide@[j] == items@[j] as u32,
        decreases items@.len() - i,
    {
        wide.push(items[i] as u32);
        i += 1;
    }
    let r = render_u32_list(&wide);
    proof {
        assert(wide@.map_values(|x: u32| x as int) =~= items@.map_values(|x: u8| x as int));
    }
    r
}

} // verus!
