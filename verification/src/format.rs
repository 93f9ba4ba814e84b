//! Building display text: decimal numbers, joined lists, and list notation.

use vstd::prelude::*;
use vstd::string::StringExecFns;

use crate::model::views;
use crate::text::{lemma_pieces_concat, lemma_pieces_free, pieces, push_char};

verus! {

/// The decimal digit character for a value below ten.
pub open spec fn digit_char(d: nat) -> char {
    (48 + d) as char
}

/// The decimal notation of a natural number, without leading zeros.
pub open spec fn decimal(n: nat) -> Seq<char>
    decreases n,
{
    if n < 10 {
        seq![digit_char(n)]
    } else {
        decimal(n / 10).push(digit_char(n % 10))
    }
}

/// Parts joined with a separator between neighbours.
pub open spec fn joined(parts: Seq<Seq<char>>, sep: Seq<char>) -> Seq<char>
    decreases parts.len(),
{
    if parts.len() == 0 {
        Seq::empty()
    } else if parts.len() == 1 {
        parts[0]
    } else {
        joined(parts.drop_last(), sep) + sep + parts.last()
    }
}

/// The decimal notations of a list of numbers.
pub open spec fn decimals(v: Seq<u32>) -> Seq<Seq<char>> {
    v.map_values(|x: u32| decimal(x as nat))
}

/// A list of numbers in bracketed list notation, e.g. `[1, 2, 3]`.
pub open spec fn number_list(v: Seq<u32>) -> Seq<char> {
    "["@ + joined(decimals(v), ", "@) + "]"@
}

/// Splitting parts joined by a separator character gives the parts back,
/// when no part holds a separator.
pub proof fn lemma_pieces_of_joined(t: Seq<Seq<char>>, c: char, sep: spec_fn(char) -> bool)
    requires
        t.len() > 0,
        sep(c),
        forall|i: int, j: int| 0 <= i < t.len() && 0 <= j < t[i].len() ==> !sep(#[trigger] t[i][j]),
    ensures
        pieces(joined(t, seq![c]), sep) == t,
    decreases t.len(),
{
    let last = t[t.len() - 1];
    assert forall|j: int| 0 <= j < last.len() implies !sep(#[trigger] last[j]) by {
        assert(!sep(t[t.len() - 1][j]));
    }
    lemma_pieces_free(last, sep);
    if t.len() == 1 {
        assert(seq![last] =~= t);
    } else {
        let rest = t.drop_last();
        assert forall|i: int, j: int| 0 <= i < rest.len() && 0 <= j < rest[i].len() implies !sep(
            #[trigger] rest[i][j],
        ) by {
            assert(rest[i] == t[i]);
        }
        lemma_pieces_of_joined(rest, c, sep);
        lemma_pieces_concat(joined(rest, seq![c]), c, last, sep);
        assert(rest + seq![last] =~= t);
    }
}

/// A property of every character of the parts and of the separator holds of
/// every character of the joined text.
pub proof fn lemma_joined_chars(t: Seq<Seq<char>>, sep: Seq<char>, p: spec_fn(char) -> bool)
    requires
        forall|i: int, j: int| 0 <= i < t.len() && 0 <= j < t[i].len() ==> p(#[trigger] t[i][j]),
        forall|j: int| 0 <= j < sep.len() ==> p(#[trigger] sep[j]),
    ensures
        forall|i: int| 0 <= i < joined(t, sep).len() ==> p(#[trigger] joined(t, sep)[i]),
    decreases t.len(),
{
    if t.len() == 1 {
        assert forall|i: int| 0 <= i < joined(t, sep).len() implies p(#[trigger] joined(t, sep)[i]) by {
            assert(p(t[0][i]));
        }
    } else if t.len() > 1 {
        let rest = t.drop_last();
        assert forall|i: int, j: int| 0 <= i < rest.len() && 0 <= j < rest[i].len() implies p(
            #[trigger] rest[i][j],
        ) by {
            assert(rest[i] == t[i]);
        }
        lemma_joined_chars(rest, sep, p);
        let a = joined(rest, sep);
        let last = t[t.len() - 1];
        let jt = joined(t, sep);
        assert(jt == a + sep + last);
        assert forall|i: int| 0 <= i < jt.len() implies p(#[trigger] jt[i]) by {
            if i < a.len() {
                assert(jt[i] == a[i]);
            } else if i < a.len() + sep.len() {
                assert(jt[i] == sep[i - a.len()]);
            } else {
                assert(jt[i] == last[i - a.len() - sep.len()]);
                assert(p(t[t.len() - 1][i - a.len() - sep.len()]));
            }
        }
    }
}

/// Append the decimal notation of `n`.
pub fn push_decimal(s: &mut String, n: u32)
    ensures
        final(s)@ == old(s)@ + decimal(n as nat),
    decreases n,
{
    if n >= 10 {
        push_decimal(s, n / 10);
    }
    let d: u32 = n % 10;
    let c = (48u8 + (d as u8)) as char;
    assert(c == digit_char(d as nat));
    push_char(s, c);
    proof {
        if n >= 10 {
            assert(decimal(n as nat) == decimal((n / 10) as nat).push(digit_char(d as nat)));
        }
    }
}

/// Append the strings joined by the separator.
pub fn push_joined(s: &mut String, parts: &Vec<String>, sep: &str)
    ensures
        final(s)@ == old(s)@ + joined(views(parts@), sep@),
{
    let ghost start = s@;
    let ghost ps = views(parts@);
    let mut i: usize = 0;
    while i < parts.len()
        invariant
            0 <= i <= parts@.len(),
            ps == views(parts@),
            s@ == start + joined(ps.take(i as int), sep@),
        decreases parts@.len() - i,
    {
        assert(ps.take(i + 1).drop_last() =~= ps.take(i as int));
        assert(ps.take(i + 1).last() == parts@[i as int]@);
        if i > 0 {
            s.append(sep);
        }
        s.append(parts[i].as_str());
        proof {
            if i == 0 {
                assert(ps.take(1)[0] == parts@[0]@);
            }
        }
        i += 1;
    }
    assert(ps.take(parts@.len() as int) =~= ps);
}

/// Append the numbers in bracketed list notation, e.g. `[1, 2, 3]`.
pub fn push_number_list(s: &mut String, v: &Vec<u32>)
    ensures
        final(s)@ == old(s)@ + number_list(v@),
{
    let ghost start = s@;
    let ghost ds = decimals(v@);
    s.append("[");
    let ghost opened = s@;
    let mut i: usize = 0;
    while i < v.len()
        invariant
            0 <= i <= v@.len(),
            ds == decimals(v@),
            s@ == opened + joined(ds.take(i as int), ", "@),
        decreases v@.len() - i,
    {
        assert(ds.take(i + 1).drop_last() =~= ds.take(i as int));
        assert(ds.take(i + 1).last() == decimal(v@[i as int] as nat));
        if i > 0 {
            s.append(", ");
        }
        push_decimal(s, v[i]);
        proof {
            if i == 0 {
                assert(ds.take(1)[0] == decimal(v@[0] as nat));
            }
        }
        i += 1;
    }
    assert(ds.take(v@.len() as int) =~= ds);
    s.append("]");
}

} // verus!
