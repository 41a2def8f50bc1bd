//! Text helpers: comparing strings and writing integers in decimal.
use vstd::prelude::*;

verus! {

/// The character of a decimal digit `d` (for `0 <= d < 10`).
pub open spec fn digit_char(d: int) -> char {
    if d == 0 {
        '0'
    } else if d == 1 {
        '1'
    } else if d == 2 {
        '2'
    } else if d == 3 {
        '3'
    } else if d == 4 {
        '4'
    } else if d == 5 {
        '5'
    } else if d == 6 {
        '6'
    } else if d == 7 {
        '7'
    } else if d == 8 {
        '8'
    } else {
        '9'
    }
}

/// The decimal digits of a natural number, most significant first, with no
/// leading zeros.
pub open spec fn nat_digits(n: nat) -> Seq<char>
    decreases n,
{
    if n < 10 {
        seq![digit_char(n as int)]
    } else {
        nat_digits(n / 10) + seq![digit_char((n % 10) as int)]
    }
}

/// The decimal text of an integer, with a leading `-` when it is negative.
pub open spec fn int_text(n: int) -> Seq<char> {
    if n < 0 {
        seq!['-'] + nat_digits((-n) as nat)
    } else {
        nat_digits(n as nat)
    }
}

/// Whether `needle` occurs in `hay` as a contiguous piece.
pub open spec fn contains_text(hay: Seq<char>, needle: Seq<char>) -> bool {
    exists|before: Seq<char>, after: Seq<char>| hay == before + needle + after
}

/// Whether two strings hold the same characters.
pub fn same_text(a: &str, b: &str) -> (same: bool)
    ensures
        same == (a@ == b@),
{
    let n = a.unicode_len();
    if n != b.unicode_len() {
        return false;
    }
    let mut i: usize = 0;
    while i < n
        invariant
            n == a@.len(),
            n == b@.len(),
            i <= n,
            forall|j: int| 0 <= j < i ==> a@[j] == b@[j],
        decreases n - i,
    {
        if a.get_char(i) != b.get_char(i) {
            return false;
        }
        i = i + 1;
    }
    assert(a@ =~= b@);
    true
}

/// The one-character text of a decimal digit.
fn digit_text(d: u32) -> (t: &'static str)
    requires
        d < 10,
    ensures
        t@ == seq![digit_char(d as int)],
{
    proof {
        reveal_strlit("0");
        reveal_strlit("1");
        reveal_strlit("2");
        reveal_strlit("3");
        reveal_strlit("4");
        reveal_strlit("5");
        reveal_strlit("6");
        reveal_strlit("7");
        reveal_strlit("8");
        reveal_strlit("9");
    }
    match d {
        0 => "0",
        1 => "1",
        2 => "2",
        3 => "3",
        4 => "4",
        5 => "5",
        6 => "6",
        7 => "7",
        8 => "8",
        _ => "9",
    }
}

/// Appends the decimal digits of `m` to `out`.
fn push_digits(out: &mut String, m: u32)
    ensures
        final(out)@ == old(out)@ + nat_digits(m as nat),
    decreases m,
{
    if m >= 10 {
        push_digits(out, m / 10);
    }
    out.append(digit_text(m % 10));
    proof {
        assert(final(out)@ =~= old(out)@ + nat_digits(m as nat));
    }
}

/// Appends the decimal text of `n` to `out`.
pub fn push_int(out: &mut String, n: i32)
    ensures
        final(out)@ == old(out)@ + int_text(n as int),
{
    if n < 0 {
        proof {
            reveal_strlit("-");
        }
        out.append("-");
        let m: u32 = (0i64 - (n as i64)) as u32;
        push_digits(out, m);
        proof {
            assert(final(out)@ =~= old(out)@ + int_text(n as int));
        }
    } else {
        push_digits(out, n as u32);
    }
}

/// The decimal text of `n`, as `i32`'s `to_string` writes it.
pub fn int_to_text(n: i32) -> (t: String)
    ensures
        t@ == int_text(n as int),
{
    let mut t = String::new();
    push_int(&mut t, n);
    assert(t@ =~= int_text(n as int));
    t
}

/// The value of a decimal digit character, or -1 for any other character.
pub open spec fn digit_value(c: char) -> int {
    if c == '0' {
        0
    } else if c == '1' {
        1
    } else if c == '2' {
        2
    } else if c == '3' {
        3
    } else if c == '4' {
        4
    } else if c == '5' {
        5
    } else if c == '6' {
        6
    } else if c == '7' {
        7
    } else if c == '8' {
        8
    } else if c == '9' {
        9
    } else {
        -1
    }
}

/// Whether `s` is a non-empty run of decimal digits with no leading zero
/// (the single digit `0` aside).
pub open spec fn canonical_digits(s: Seq<char>) -> bool {
    &&& s.len() > 0
    &&& forall|i: int| 0 <= i < s.len() ==> digit_value(#[trigger] s[i]) >= 0
    &&& (s[0] == '0' ==> s.len() == 1)
}

/// The number that a run of decimal digits denotes, read most significant
/// digit first.
pub open spec fn digits_value(s: Seq<char>) -> int
    decreases s.len(),
{
    if s.len() == 0 {
        0
    } else {
        digits_value(s.drop_last()) * 10 + digit_value(s.last())
    }
}

/// Whether `s` is the canonical decimal text of some integer: canonical
/// digits, possibly after a `-` that is not followed by the single digit 0.
pub open spec fn canonical_decimal(s: Seq<char>) -> bool {
    ||| canonical_digits(s)
    ||| s.len() > 1 && s[0] == '-' && canonical_digits(s.drop_first()) && s.drop_first()
        != seq!['0']
}

/// The integer that a decimal text denotes.
pub open spec fn decimal_value(s: Seq<char>) -> int {
    if s.len() > 0 && s[0] == '-' {
        -digits_value(s.drop_first())
    } else {
        digits_value(s)
    }
}

proof fn lemma_nat_digits_read_back(n: nat)
    ensures
        canonical_digits(nat_digits(n)),
        digits_value(nat_digits(n)) == n,
        nat_digits(n)[0] == '0' <==> n == 0,
    decreases n,
{
    if n >= 10 {
        lemma_nat_digits_read_back(n / 10);
        let t = nat_digits(n);
        assert(t.drop_last() =~= nat_digits(n / 10));
        assert(t.last() == digit_char((n % 10) as int));
        assert(digit_value(digit_char((n % 10) as int)) == n % 10);
        assert((n / 10) * 10 + n % 10 == n) by (nonlinear_arith);
        assert(digits_value(t) == digits_value(t.drop_last()) * 10 + digit_value(t.last()));
        assert(t[0] == nat_digits(n / 10)[0]);
        assert forall|i: int| 0 <= i < t.len() implies digit_value(#[trigger] t[i]) >= 0 by {
            if i < t.len() - 1 {
                assert(t[i] == nat_digits(n / 10)[i]);
            }
        }
    } else {
        let t = nat_digits(n);
        assert(t.drop_last() =~= Seq::<char>::empty());
        assert(digit_value(digit_char(n as int)) == n);
        assert(digits_value(t) == digits_value(t.drop_last()) * 10 + digit_value(t.last()));
        assert(digits_value(t.drop_last()) == 0);
    }
}

/// The decimal text of an integer is canonical and reads back as that
/// integer.
pub proof fn lemma_int_text_read_back(n: int)
    ensures
        canonical_decimal(int_text(n)),
        decimal_value(int_text(n)) == n,
{
    if n < 0 {
        let m = (-n) as nat;
        lemma_nat_digits_read_back(m);
        let t = int_text(n);
        assert(t.drop_first() =~= nat_digits(m));
        assert(nat_digits(m) != seq!['0']) by {
            if nat_digits(m) == seq!['0'] {
                assert(nat_digits(m)[0] == '0');
            }
        }
    } else {
        lemma_nat_digits_read_back(n as nat);
        assert(nat_digits(n as nat)[0] != '-');
    }
}

/// Two integers with the same decimal text are equal.
pub proof fn lemma_int_text_injective(a: int, b: int)
    requires
        int_text(a) == int_text(b),
    ensures
        a == b,
{
    lemma_int_text_read_back(a);
    lemma_int_text_read_back(b);
}

} // verus!
