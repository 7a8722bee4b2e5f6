//! Building display text: decimal numbers, padding, lists and joins.

use vstd::prelude::*;

verus! {

/// The character of a decimal digit.
pub open spec fn digit_char(d: nat) -> char {
    ((d + 48) as u8) as char
}

/// Decimal digits of a natural number, most significant first.
pub open spec fn dec_nat(n: nat) -> Seq<char>
    decreases n,
{
    if n < 10 {
        seq![digit_char(n)]
    } else {
        dec_nat(n / 10).push(digit_char(n % 10))
    }
}

/// Decimal rendering of an integer, with a leading `-` when negative.
pub open spec fn dec_int(i: int) -> Seq<char> {
    if i < 0 {
        seq!['-'] + dec_nat((-i) as nat)
    } else {
        dec_nat(i as nat)
    }
}

/// Decimal rendering with an explicit sign: `+` for zero and positives.
pub open spec fn dec_signed(i: int) -> Seq<char> {
    if i < 0 {
        dec_int(i)
    } else {
        seq!['+'] + dec_nat(i as nat)
    }
}

/// `n` copies of the space character.
pub open spec fn spaces(n: nat) -> Seq<char> {
    Seq::new(n, |_i: int| ' ')
}

/// Right-aligned in a field of `w` characters.
pub open spec fn pad_left(s: Seq<char>, w: nat) -> Seq<char> {
    if s.len() < w {
        spaces((w - s.len()) as nat) + s
    } else {
        s
    }
}

/// Left-aligned in a field of `w` characters.
pub open spec fn pad_right(s: Seq<char>, w: nat) -> Seq<char> {
    if s.len() < w {
        s + spaces((w - s.len()) as nat)
    } else {
        s
    }
}

/// The elements of `s` joined by `sep`.
pub open spec fn join(s: Seq<Seq<char>>, sep: Seq<char>) -> Seq<char>
    decreases s.len(),
{
    if s.len() == 0 {
        Seq::empty()
    } else if s.len() == 1 {
        s[0]
    } else {
        join(s.drop_last(), sep) + sep + s.last()
    }
}

/// Debug rendering of a list of integers: `[1, 2, 3]`.
pub open spec fn dbg_list(s: Seq<int>) -> Seq<char> {
    seq!['['] + join(s.map_values(|x: int| dec_int(x)), seq![',', ' ']) + seq![']']
}

/// Debug rendering of an optional integer: `Some(5)` or `None`.
pub open spec fn dbg_opt(o: Option<int>) -> Seq<char> {
    match o {
        Some(x) => seq!['S', 'o', 'm', 'e', '('] + dec_int(x) + seq![')'],
        None => seq!['N', 'o', 'n', 'e'],
    }
}

/// The concatenation of `f` applied to each element of `s`.
pub open spec fn concat_map<T>(s: Seq<T>, f: spec_fn(T) -> Seq<char>) -> Seq<char>
    decreases s.len(),
{
    if s.len() == 0 {
        Seq::empty()
    } else {
        concat_map(s.drop_last(), f) + f(s.last())
    }
}

/// Widens a list of bytes to `i128`.
pub fn widen_u8s(v: &Vec<u8>) -> (r: Vec<i128>)
    ensures
        r@.map_values(|x: i128| x as int) == v@.map_values(|x: u8| x as int),
{
    let mut r: Vec<i128> = Vec::new();
    for i in 0..v.len()
        invariant
            r@.map_values(|x: i128| x as int) == v@.take(i as int).map_values(|x: u8| x as int),
    {
        let ghost before = r@;
        r.push(v[i] as i128);
        assert(v@.take(i + 1) =~= v@.take(i as int).push(v@[i as int]));
        assert(r@ =~= before.push(v@[i as int] as i128));
        assert(r@.map_values(|x: i128| x as int) =~= before.map_values(|x: i128| x as int).push(v@[i as int] as int));
        assert(v@.take(i + 1).map_values(|x: u8| x as int) =~= v@.take(i as int).map_values(|x: u8| x as int).push(v@[i as int] as int));
    }
    assert(v@.take(v.len() as int) =~= v@);
    r
}

/// Appends one character to a `String` (`String::push`).
#[verifier::external_body]
pub(crate) fn push_char(s: &mut String, c: char)
    ensures
        final(s)@ == old(s)@.push(c),
{
    s.push(c);
}

/// Appends the characters of `v`.
pub fn push_chars(s: &mut String, v: &Vec<char>)
    ensures
        final(s)@ == old(s)@ + v@,
{
    let ghost start = s@;
    for i in 0..v.len()
        invariant
            s@ == start + v@.take(i as int),
    {
        push_char(s, v[i]);
        assert(v@.take(i + 1) =~= v@.take(i as int).push(v@[i as int]));
    }
    assert(v@.take(v.len() as int) =~= v@);
}

/// The characters of `s`, in order.
pub fn chars_of(s: &str) -> (v: Vec<char>)
    ensures
        v@ == s@,
{
    let mut v: Vec<char> = Vec::new();
    for c in it: s.chars()
        invariant
            v@ == it.seq().take(it.index() as int),
    {
        v.push(c);
    }
    v
}

/// A `String` holding the characters of `v`.
pub fn string_of(v: &Vec<char>) -> (s: String)
    ensures
        s@ == v@,
{
    let mut s = String::new();
    push_chars(&mut s, v);
    s
}

/// Appends the decimal digits of `n`.
pub fn push_nat(s: &mut String, n: u128)
    ensures
        final(s)@ == old(s)@ + dec_nat(n as nat),
    decreases n,
{
    if n >= 10 {
        push_nat(s, n / 10);
    }
    let d: u8 = (n % 10) as u8;
    push_char(s, (d + 48) as char);
    assert(dec_nat(n as nat) == if n < 10 { seq![digit_char(n as nat)] } else {
        dec_nat((n / 10) as nat).push(digit_char((n % 10) as nat))
    });
}

/// Appends the decimal rendering of `i`.
pub fn push_int(s: &mut String, i: i128)
    ensures
        final(s)@ == old(s)@ + dec_int(i as int),
{
    if i < 0 {
        push_char(s, '-');
        let m: u128 = (-(i + 1)) as u128 + 1;
        push_nat(s, m);
    } else {
        push_nat(s, i as u128);
    }
}

/// Appends the sign-prefixed decimal rendering of `i` (`{:+}`).
pub fn push_signed(s: &mut String, i: i128)
    ensures
        final(s)@ == old(s)@ + dec_signed(i as int),
{
    if i >= 0 {
        push_char(s, '+');
    }
    push_int(s, i);
}

/// Appends `n` spaces.
pub fn push_spaces(s: &mut String, n: usize)
    ensures
        final(s)@ == old(s)@ + spaces(n as nat),
{
    let ghost start = s@;
    for k in 0..n
        invariant
            s@ == start + spaces(k as nat),
    {
        push_char(s, ' ');
        assert(spaces((k + 1) as nat) =~= spaces(k as nat).push(' '));
    }
}

/// Appends `v` right-aligned in a field of `w` characters.
pub fn push_padded_left(s: &mut String, v: &Vec<char>, w: usize)
    ensures
        final(s)@ == old(s)@ + pad_left(v@, w as nat),
{
    if v.len() < w {
        push_spaces(s, w - v.len());
    }
    push_chars(s, v);
}

/// Appends `v` left-aligned in a field of `w` characters.
pub fn push_padded_right(s: &mut String, v: &Vec<char>, w: usize)
    ensures
        final(s)@ == old(s)@ + pad_right(v@, w as nat),
{
    push_chars(s, v);
    if v.len() < w {
        push_spaces(s, w - v.len());
    }
}

/// The decimal digits of `i`, as characters.
pub fn int_chars(i: i128) -> (v: Vec<char>)
    ensures
        v@ == dec_int(i as int),
{
    let mut s = String::new();
    push_int(&mut s, i);
    chars_of(s.as_str())
}

/// Appends the Debug rendering of a list of integers.
pub fn push_dbg_list(s: &mut String, items: &Vec<i128>)
    ensures
        final(s)@ == old(s)@ + dbg_list(items@.map_values(|x: i128| x as int)),
{
    let ghost start = s@;
    let ghost all = items@.map_values(|x: i128| x as int);
    push_char(s, '[');
    for i in 0..items.len()
        invariant
            all == items@.map_values(|x: i128| x as int),
            s@ == start + seq!['['] + join(
                all.take(i as int).map_values(|x: int| dec_int(x)),
                seq![',', ' '],
            ),
    {
        let ghost before = s@;
        if i > 0 {
            push_char(s, ',');
            push_char(s, ' ');
        }
        push_int(s, items[i]);
        let ghost prev = all.take(i as int).map_values(|x: int| dec_int(x));
        let ghost next = all.take(i + 1).map_values(|x: int| dec_int(x));
        assert(next.drop_last() =~= prev);
        assert(next.last() == dec_int(items@[i as int] as int));
        if i == 0 {
            assert(next.len() == 1);
            assert(s@ =~= start + seq!['['] + join(next, seq![',', ' ']));
        } else {
            assert(s@ =~= start + seq!['['] + join(next, seq![',', ' ']));
        }
    }
    push_char(s, ']');
    assert(all.take(items.len() as int) =~= all);
    assert(s@ =~= start + dbg_list(all));
}

/// Appends the Debug rendering of an optional integer.
pub fn push_dbg_opt(s: &mut String, o: Option<i128>)
    ensures
        final(s)@ == old(s)@ + dbg_opt(
            match o {
                Some(x) => Some(x as int),
                None => None,
            },
        ),
{
    match o {
        Some(x) => {
            let ghost start = s@;
            push_char(s, 'S');
            push_char(s, 'o');
            push_char(s, 'm');
            push_char(s, 'e');
            push_char(s, '(');
            push_int(s, x);
            push_char(s, ')');
            assert(s@ =~= start + (seq!['S', 'o', 'm', 'e', '('] + dec_int(x as int) + seq![')']));
        },
        None => {
            let ghost start = s@;
            push_char(s, 'N');
            push_char(s, 'o');
            push_char(s, 'n');
            push_char(s, 'e');
            assert(s@ =~= start + seq!['N', 'o', 'n', 'e']);
        },
    }
}

/// Appends the elements of `items` joined by `sep`.
pub fn push_join(s: &mut String, items: &Vec<String>, sep: &str)
    ensures
        final(s)@ == old(s)@ + join(items@.map_values(|x: String| x@), sep@),
{
    let ghost start = s@;
    let ghost all = items@.map_values(|x: String| x@);
    for i in 0..items.len()
        invariant
            all == items@.map_values(|x: String| x@),
            s@ == start + join(all.take(i as int), sep@),
    {
        if i > 0 {
            s.append(sep);
        }
        s.append(items[i].as_str());
        let ghost next = all.take(i + 1);
        assert(next.drop_last() =~= all.take(i as int));
        if i == 0 {
            assert(s@ =~= start + join(next, sep@));
        } else {
            assert(s@ =~= start + join(next, sep@));
        }
    }
    assert(all.take(items.len() as int) =~= all);
}

} // verus!
