//! Character sequences: cutting at a separator, splitting, joining, and decimal numerals.

use vstd::prelude::*;

verus! {

/// What is taken for granted of std's `String::push`: it appends the character to the
/// end of the string, and changes nothing else of it.
pub assume_specification[ String::push ](s: &mut String, c: char)
    ensures
        final(s)@ == old(s)@.push(c),
;

/// The index of the first `c` in `s`, or the length of `s` where `c` does not occur.
pub open spec fn position(s: Seq<char>, c: char) -> nat
    decreases s.len(),
{
    if s.len() == 0 || s[0] == c {
        0
    } else {
        1 + position(s.drop_first(), c)
    }
}

/// The part of `s` in front of the first `c`; all of `s` where `c` does not occur.
pub open spec fn until(s: Seq<char>, c: char) -> Seq<char> {
    s.take(position(s, c) as int)
}

/// The part of `s` behind the first `c`; empty where `c` does not occur.
pub open spec fn after(s: Seq<char>, c: char) -> Seq<char> {
    if position(s, c) < s.len() {
        s.skip(position(s, c) as int + 1)
    } else {
        Seq::empty()
    }
}

/// `position` is the least index that holds `c`, and is bounded by the length.
pub proof fn lemma_position(s: Seq<char>, c: char)
    ensures
        position(s, c) <= s.len(),
        forall|i: int| 0 <= i < position(s, c) ==> s[i] != c,
        position(s, c) < s.len() ==> s[position(s, c) as int] == c,
    decreases s.len(),
{
    if s.len() == 0 || s[0] == c {
    } else {
        let t = s.drop_first();
        lemma_position(t, c);
        assert forall|i: int| 0 <= i < position(s, c) implies s[i] != c by {
            if i > 0 {
                assert(s[i] == t[i - 1]);
            }
        }
    }
}

/// An index that holds the first `c`, or the length where there is none, is `position`.
pub proof fn lemma_position_is(s: Seq<char>, c: char, k: int)
    requires
        0 <= k <= s.len(),
        forall|i: int| 0 <= i < k ==> s[i] != c,
        k < s.len() ==> s[k] == c,
    ensures
        position(s, c) == k,
{
    lemma_position(s, c);
    let p = position(s, c) as int;
    if p < k {
        assert(s[p] == c);
    } else if k < p {
        assert(s[k] != c);
    }
}

/// Whether `c` does not occur in `s`.
pub open spec fn lacks(s: Seq<char>, c: char) -> bool {
    forall|i: int| 0 <= i < s.len() ==> s[i] != c
}

/// Where a `c` follows a front that lacks it, the front is what stands before the
/// first `c`, and what follows that `c` is what stands behind it.
pub proof fn lemma_cut_at(front: Seq<char>, back: Seq<char>, c: char)
    requires
        lacks(front, c),
    ensures
        until(front + seq![c] + back, c) == front,
        after(front + seq![c] + back, c) == back,
        until(front, c) == front,
        after(front, c) == Seq::<char>::empty(),
{
    let whole = front + seq![c] + back;
    lemma_position_is(whole, c, front.len() as int);
    lemma_position_is(front, c, front.len() as int);
    assert(whole.take(front.len() as int) =~= front);
    assert(whole.skip(front.len() as int + 1) =~= back);
    assert(front.take(front.len() as int) =~= front);
}

/// The pieces of `s` between occurrences of `c`, where a `c` at the very end
/// closes the last piece and opens no further one. The empty sequence has no pieces.
pub open spec fn split_terminator(s: Seq<char>, c: char) -> Seq<Seq<char>>
    decreases s.len(),
    via split_terminator_decreases
{
    if s.len() == 0 {
        Seq::empty()
    } else {
        seq![until(s, c)] + split_terminator(after(s, c), c)
    }
}

#[via_fn]
proof fn split_terminator_decreases(s: Seq<char>, c: char) {
    lemma_position(s, c);
}

/// The parts in order, with `sep` between each two neighbours.
pub open spec fn join<T>(parts: Seq<Seq<T>>, sep: Seq<T>) -> Seq<T>
    decreases parts.len(),
{
    if parts.len() == 0 {
        Seq::empty()
    } else if parts.len() == 1 {
        parts[0]
    } else {
        join(parts.drop_last(), sep) + sep + parts.last()
    }
}

/// Joining with a part in front: the part, then the separator and the rest where there is one.
pub proof fn lemma_join_front<T>(head: Seq<T>, rest: Seq<Seq<T>>, sep: Seq<T>)
    ensures
        join(seq![head] + rest, sep) == if rest.len() == 0 {
            head
        } else {
            head + sep + join(rest, sep)
        },
    decreases rest.len(),
{
    let all = seq![head] + rest;
    if rest.len() == 0 {
        assert(all =~= seq![head]);
    } else if rest.len() == 1 {
        assert(all.drop_last() =~= seq![head]);
        assert(join(seq![head], sep) == head);
        assert(join(rest, sep) == rest[0]);
    } else {
        lemma_join_front(head, rest.drop_last(), sep);
        assert(all.drop_last() =~= seq![head] + rest.drop_last());
        assert(all.last() == rest.last());
        assert(join(all, sep) =~= head + sep + join(rest, sep));
    }
}

/// The decimal digit for a number below ten.
pub open spec fn digit(d: nat) -> char {
    (48 + d) as u8 as char
}

/// The decimal numeral of `n`, without leading zeros.
pub open spec fn decimal(n: nat) -> Seq<char>
    decreases n,
{
    if n < 10 {
        seq![digit(n)]
    } else {
        decimal(n / 10).push(digit(n % 10))
    }
}

/// The numerals `0`, `1`, ... up to `count - 1`.
pub open spec fn numerals(count: nat) -> Seq<Seq<char>> {
    Seq::new(count, |i: int| decimal(i as nat))
}

/// Appends the decimal numeral of `n`.
pub fn push_decimal(out: &mut String, n: usize)
    ensures
        final(out)@ == old(out)@ + decimal(n as nat),
    decreases n,
{
    if n >= 10 {
        push_decimal(out, n / 10);
    }
    let d: u8 = (n % 10) as u8;
    out.push((48u8 + d) as char);
}

/// The strings `"0"`, `"1"`, ... up to `count - 1`.
pub fn numeral_strings(count: usize) -> (v: Vec<String>)
    ensures
        v.deep_view() == numerals(count as nat),
{
    let mut v: Vec<String> = Vec::new();
    let mut i: usize = 0;
    while i < count
        invariant
            i <= count,
            v@.len() == i,
            v.deep_view() == numerals(i as nat),
        decreases count - i,
    {
        let ghost before = v@;
        let mut s = String::new();
        push_decimal(&mut s, i);
        assert(s@ =~= decimal(i as nat));
        v.push(s);
        i += 1;
        assert forall|j: int| 0 <= j < i implies v.deep_view()[j] == numerals(i as nat)[j] by {
            if j < i - 1 {
                assert(before[j]@ == numerals((i - 1) as nat)[j]);
            }
        }
        assert(v.deep_view() =~= numerals(i as nat));
    }
    assert(v.deep_view() =~= numerals(count as nat));
    v
}

} // verus!
