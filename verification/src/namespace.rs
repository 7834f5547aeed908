//! Namespaces: the name of the partition that holds an identity's files at
//! one generation, which is the identity followed by the generation in
//! decimal.

use vstd::prelude::*;

verus! {

/// The decimal digit for `d`, where `0 <= d <= 9`.
pub open spec fn digit_char(d: int) -> char {
    if d == 0 {
        '0'
    } else if d == 1 {
        '1'
    } else if d == 2 {
        '2'
    } else if d == 3 {
        '3'
    } else if d == 4 {
        '4'
    } else if d == 5 {
        '5'
    } else if d == 6 {
        '6'
    } else if d == 7 {
        '7'
    } else if d == 8 {
        '8'
    } else {
        '9'
    }
}

/// Whether `c` is one of the ten decimal digits.
pub open spec fn is_digit(c: char) -> bool {
    exists|d: int| 0 <= d <= 9 && c == #[trigger] digit_char(d)
}

/// A natural number in decimal, without leading zeros.
pub open spec fn nat_decimal(n: nat) -> Seq<char>
    decreases n,
{
    if n < 10 {
        seq![digit_char(n as int)]
    } else {
        nat_decimal(n / 10).push(digit_char((n % 10) as int))
    }
}

/// An integer in decimal, with a minus sign in front where it is negative.
pub open spec fn int_decimal(i: int) -> Seq<char> {
    if i < 0 {
        seq!['-'] + nat_decimal((-i) as nat)
    } else {
        nat_decimal(i as nat)
    }
}

/// The namespace of `identity` at `generation`.
pub open spec fn namespace_of(identity: Seq<char>, generation: int) -> Seq<char> {
    identity + int_decimal(generation)
}

/// A number in decimal has at least one character, and all of them are digits.
pub proof fn lemma_nat_decimal_digits(n: nat)
    ensures
        nat_decimal(n).len() >= 1,
        forall|k: int| 0 <= k < nat_decimal(n).len() ==> is_digit(#[trigger] nat_decimal(n)[k]),
    decreases n,
{
    if n >= 10 {
        lemma_nat_decimal_digits(n / 10);
    }
}

/// Two natural numbers with the same decimal form are equal.
pub proof fn lemma_nat_decimal_injective(a: nat, b: nat)
    requires
        nat_decimal(a) == nat_decimal(b),
    ensures
        a == b,
    decreases a,
{
    lemma_nat_decimal_digits(a / 10);
    lemma_nat_decimal_digits(b / 10);
    if a < 10 && b < 10 {
        assert(nat_decimal(a)[0] == digit_char(a as int));
        assert(nat_decimal(b)[0] == digit_char(b as int));
    } else if a >= 10 && b >= 10 {
        let x = nat_decimal(a / 10);
        let y = nat_decimal(b / 10);
        let p = digit_char((a % 10) as int);
        let q = digit_char((b % 10) as int);
        assert(x.push(p).drop_last() == x);
        assert(y.push(q).drop_last() == y);
        assert(x.push(p).last() == p);
        assert(y.push(q).last() == q);
        lemma_nat_decimal_injective(a / 10, b / 10);
        assert(a == 10 * (a / 10) + a % 10);
        assert(b == 10 * (b / 10) + b % 10);
    } else {
        assert(nat_decimal(a).len() == nat_decimal(b).len());
        assert(a < 10 ==> nat_decimal(a).len() == 1 && nat_decimal(b).len() >= 2);
        assert(b < 10 ==> nat_decimal(b).len() == 1 && nat_decimal(a).len() >= 2);
    }
}

/// Two integers with the same decimal form are equal.
pub proof fn lemma_int_decimal_injective(a: int, b: int)
    requires
        int_decimal(a) == int_decimal(b),
    ensures
        a == b,
{
    if a < 0 && b < 0 {
        let x = nat_decimal((-a) as nat);
        let y = nat_decimal((-b) as nat);
        assert((seq!['-'] + x).len() == (seq!['-'] + y).len());
        assert((seq!['-'] + x).subrange(1, 1 + x.len() as int) == x);
        assert((seq!['-'] + y).subrange(1, 1 + y.len() as int) == y);
        lemma_nat_decimal_injective((-a) as nat, (-b) as nat);
    } else if a >= 0 && b >= 0 {
        lemma_nat_decimal_injective(a as nat, b as nat);
    } else if a < 0 {
        lemma_nat_decimal_digits(b as nat);
        assert(int_decimal(a)[0] == '-');
        assert(is_digit(nat_decimal(b as nat)[0]));
    } else {
        lemma_nat_decimal_digits(a as nat);
        assert(int_decimal(b)[0] == '-');
        assert(is_digit(nat_decimal(a as nat)[0]));
    }
}

/// One identity has a different namespace at every generation: a namespace
/// that was left behind is never the current one again.
pub proof fn lemma_namespace_differs_by_generation(identity: Seq<char>, g1: int, g2: int)
    requires
        g1 != g2,
    ensures
        namespace_of(identity, g1) != namespace_of(identity, g2),
{
    let a = int_decimal(g1);
    let b = int_decimal(g2);
    if namespace_of(identity, g1) == namespace_of(identity, g2) {
        assert((identity + a).len() == (identity + b).len());
        assert((identity + a).subrange(identity.len() as int, (identity + a).len() as int) == a);
        assert((identity + b).subrange(identity.len() as int, (identity + b).len() as int) == b);
        lemma_int_decimal_injective(g1, g2);
    }
}

/// Identities of one length never share a namespace: the namespace tells
/// both the identity and the generation.
pub proof fn lemma_namespace_injective_same_length(
    identity1: Seq<char>,
    g1: int,
    identity2: Seq<char>,
    g2: int,
)
    requires
        identity1.len() == identity2.len(),
        namespace_of(identity1, g1) == namespace_of(identity2, g2),
    ensures
        identity1 == identity2,
        g1 == g2,
{
    let a = int_decimal(g1);
    let b = int_decimal(g2);
    let n = identity1.len() as int;
    assert((identity1 + a).len() == (identity2 + b).len());
    assert((identity1 + a).subrange(0, n) == identity1);
    assert((identity2 + b).subrange(0, n) == identity2);
    assert((identity1 + a).subrange(n, (identity1 + a).len() as int) == a);
    assert((identity2 + b).subrange(n, (identity2 + b).len() as int) == b);
    lemma_int_decimal_injective(g1, g2);
}

/// Whether the last character of `text` is a decimal digit.
pub open spec fn ends_in_digit(text: Seq<char>) -> bool {
    text.len() >= 1 && is_digit(text.last())
}

/// Identities that do not end in a digit never share a namespace, at
/// generations from 0 on: the digits at the end of the namespace are the
/// generation, and what stands before them is the identity. Among
/// identities that end in a digit this fails: `ab1` at generation 2 and `ab`
/// at generation 12 both have the namespace `ab12`.
pub proof fn lemma_namespace_injective_without_trailing_digit(
    identity1: Seq<char>,
    g1: int,
    identity2: Seq<char>,
    g2: int,
)
    requires
        g1 >= 0,
        g2 >= 0,
        !ends_in_digit(identity1),
        !ends_in_digit(identity2),
        namespace_of(identity1, g1) == namespace_of(identity2, g2),
    ensures
        identity1 == identity2,
        g1 == g2,
{
    let a = nat_decimal(g1 as nat);
    let b = nat_decimal(g2 as nat);
    lemma_nat_decimal_digits(g1 as nat);
    lemma_nat_decimal_digits(g2 as nat);
    assert((identity1 + a).len() == (identity2 + b).len());
    if identity1.len() > identity2.len() {
        let last = identity1.len() - 1;
        assert((identity1 + a)[last] == identity1.last());
        assert((identity2 + b)[last] == b[last - identity2.len()]);
    } else if identity2.len() > identity1.len() {
        let last = identity2.len() - 1;
        assert((identity2 + b)[last] == identity2.last());
        assert((identity1 + a)[last] == a[last - identity1.len()]);
    } else {
        lemma_namespace_injective_same_length(identity1, g1, identity2, g2);
    }
}

/// The text of one decimal digit.
fn digit_text(d: u32) -> (text: &'static str)
    requires
        d <= 9,
    ensures
        text@ == seq![digit_char(d as int)],
{
    proof {
        reveal_strlit("0");
        reveal_strlit("1");
        reveal_strlit("2");
        reveal_strlit("3");
        reveal_strlit("4");
        reveal_strlit("5");
        reveal_strlit("6");
        reveal_strlit("7");
        reveal_strlit("8");
        reveal_strlit("9");
    }
    match d {
        0 => "0",
        1 => "1",
        2 => "2",
        3 => "3",
        4 => "4",
        5 => "5",
        6 => "6",
        7 => "7",
        8 => "8",
        _ => "9",
    }
}

/// Appends `n` in decimal to `out`.
fn push_decimal(out: &mut String, n: u32)
    ensures
        final(out)@ == old(out)@ + nat_decimal(n as nat),
    decreases n,
{
    if n >= 10 {
        push_decimal(out, n / 10);
    }
    out.append(digit_text(n % 10));
}

/// Derives the namespace of `identity` at `generation`: the identity,
/// followed by the generation in decimal.
pub fn derive_namespace(identity: &String, generation: i32) -> (namespace: String)
    ensures
        namespace@ == namespace_of(identity@, generation as int),
{
    let mut namespace = identity.clone();
    if generation < 0 {
        proof {
            reveal_strlit("-");
        }
        namespace.append("-");
        let magnitude: u32 = if generation == i32::MIN {
            2147483648u32
        } else {
            (-generation) as u32
        };
        push_decimal(&mut namespace, magnitude);
    } else {
        push_decimal(&mut namespace, generation as u32);
    }
    namespace
}

} // verus!
