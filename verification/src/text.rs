//! Building program text: joining parts with a separator and writing
//! unsigned integers in decimal.
use vstd::prelude::*;

verus! {

/// The parts laid end to end with `sep` between each two neighbours.
pub open spec fn seq_join(parts: Seq<Seq<char>>, sep: Seq<char>) -> Seq<char>
    decreases parts.len(),
{
    if parts.len() == 0 {
        Seq::empty()
    } else if parts.len() == 1 {
        parts[0]
    } else {
        seq_join(parts.drop_last(), sep) + sep + parts.last()
    }
}

/// The views of a list of strings.
pub open spec fn string_views(l: Seq<String>) -> Seq<Seq<char>> {
    l.map_values(|s: String| s@)
}

/// One more part at the end of a join.
pub proof fn lemma_seq_join_push(parts: Seq<Seq<char>>, p: Seq<char>, sep: Seq<char>)
    ensures
        seq_join(parts.push(p), sep) == if parts.len() == 0 {
            p
        } else {
            seq_join(parts, sep) + sep + p
        },
{
    assert(parts.push(p).drop_last() =~= parts);
}

/// Appends the strings of `l` to `f`, with `separator` between each two of them.
pub fn write_list_strings(f: &mut String, l: Vec<String>, separator: &str)
    ensures
        final(f)@ == old(f)@ + seq_join(string_views(l@), separator@),
{
    let ghost start = f@;
    let n = l.len();
    for i in 0..n
        invariant
            n == l@.len(),
            f@ == start + seq_join(string_views(l@.take(i as int)), separator@),
    {
        proof {
            assert(l@.take(i + 1) =~= l@.take(i as int).push(l@[i as int]));
            assert(string_views(l@.take(i + 1)) =~= string_views(l@.take(i as int)).push(l@[i as int]@));
            lemma_seq_join_push(string_views(l@.take(i as int)), l@[i as int]@, separator@);
        }
        if i > 0 {
            f.append(separator);
        }
        f.append(l[i].as_str());
        proof {
            if i == 0 {
                assert(string_views(l@.take(0)) =~= Seq::<Seq<char>>::empty());
            }
        }
    }
    assert(l@.take(n as int) =~= l@);
}

/// The decimal digit for `d` (which is below ten).
pub open spec fn digit_char(d: nat) -> char {
    if d == 0 { '0' }
    else if d == 1 { '1' }
    else if d == 2 { '2' }
    else if d == 3 { '3' }
    else if d == 4 { '4' }
    else if d == 5 { '5' }
    else if d == 6 { '6' }
    else if d == 7 { '7' }
    else if d == 8 { '8' }
    else { '9' }
}

/// `n` written in decimal, with no leading zeros ("0" for zero).
pub open spec fn decimal(n: nat) -> Seq<char>
    decreases n,
{
    if n < 10 {
        seq![digit_char(n)]
    } else {
        decimal(n / 10).push(digit_char(n % 10))
    }
}

fn digit_str(d: u64) -> (r: &'static str)
    requires
        d < 10,
    ensures
        r@ == seq![digit_char(d as nat)],
{
    proof {
        reveal_strlit("0");
        reveal_strlit("1");
        reveal_strlit("2");
        reveal_strlit("3");
        reveal_strlit("4");
        reveal_strlit("5");
        reveal_strlit("6");
        reveal_strlit("7");
        reveal_strlit("8");
        reveal_strlit("9");
    }
    if d == 0 {
        "0"
    } else if d == 1 {
        "1"
    } else if d == 2 {
        "2"
    } else if d == 3 {
        "3"
    } else if d == 4 {
        "4"
    } else if d == 5 {
        "5"
    } else if d == 6 {
        "6"
    } else if d == 7 {
        "7"
    } else if d == 8 {
        "8"
    } else {
        "9"
    }
}

/// Appends `n` in decimal to `f`.
pub fn write_decimal(f: &mut String, n: u64)
    ensures
        final(f)@ == old(f)@ + decimal(n as nat),
    decreases n,
{
    if n >= 10 {
        write_decimal(f, n / 10);
    }
    f.append(digit_str(n % 10));
    proof {
        if n >= 10 {
            assert(old(f)@ + decimal(n as nat) =~= old(f)@ + decimal((n / 10) as nat) + seq![digit_char((n % 10) as nat)]);
        }
    }
}

/// `n` in decimal.
pub fn decimal_string(n: u64) -> (r: String)
    ensures
        r@ == decimal(n as nat),
{
    let mut s = String::new();
    write_decimal(&mut s, n);
    assert(s@ =~= decimal(n as nat));
    s
}

} // verus!
