//! Unique identifiers: a counter that hands out numbers, and the decimal
//! text of a number, from which string ids such as `hook:3` are built.

use vstd::prelude::*;

verus! {

/// The character of a decimal digit.
pub open spec fn digit_char(d: nat) -> char {
    if d == 0 { '0' }
    else if d == 1 { '1' }
    else if d == 2 { '2' }
    else if d == 3 { '3' }
    else if d == 4 { '4' }
    else if d == 5 { '5' }
    else if d == 6 { '6' }
    else if d == 7 { '7' }
    else if d == 8 { '8' }
    else { '9' }
}

/// The decimal text of a number, without sign or leading zeros.
pub open spec fn decimal(n: nat) -> Seq<char>
    decreases n,
{
    if n < 10 {
        seq![digit_char(n)]
    } else {
        decimal(n / 10).push(digit_char(n % 10))
    }
}

/// The text `prefix:n`.
pub open spec fn numbered(prefix: Seq<char>, n: nat) -> Seq<char> {
    prefix + seq![':'] + decimal(n)
}

/// The decimal text of a number is never empty.
pub proof fn lemma_decimal_len(n: nat)
    ensures
        decimal(n).len() >= 1,
        n >= 10 ==> decimal(n).len() >= 2,
    decreases n,
{
    if n >= 10 {
        lemma_decimal_len(n / 10);
    }
}

/// Different numbers have different decimal texts.
pub proof fn lemma_decimal_injective(a: nat, b: nat)
    requires
        decimal(a) == decimal(b),
    ensures
        a == b,
    decreases a,
{
    lemma_decimal_len(a);
    lemma_decimal_len(b);
    if a < 10 && b < 10 {
        assert(decimal(a)[0] == digit_char(a));
        assert(decimal(b)[0] == digit_char(b));
    } else if a >= 10 && b >= 10 {
        let da = decimal(a);
        let db = decimal(b);
        assert(da.last() == db.last());
        assert(digit_char(a % 10) == digit_char(b % 10));
        assert(a % 10 == b % 10);
        assert(da.drop_last() =~= decimal(a / 10));
        assert(db.drop_last() =~= decimal(b / 10));
        lemma_decimal_injective(a / 10, b / 10);
        assert(a == 10 * (a / 10) + a % 10);
        assert(b == 10 * (b / 10) + b % 10);
    } else {
        assert(decimal(a).len() == decimal(b).len());
    }
}

/// Ids made from the same prefix and different numbers differ.
pub proof fn lemma_numbered_injective(prefix: Seq<char>, a: nat, b: nat)
    requires
        numbered(prefix, a) == numbered(prefix, b),
    ensures
        a == b,
{
    let k = prefix.len() + 1;
    assert(numbered(prefix, a).subrange(k as int, numbered(prefix, a).len() as int) =~= decimal(a));
    assert(numbered(prefix, b).subrange(k as int, numbered(prefix, b).len() as int) =~= decimal(b));
    lemma_decimal_injective(a, b);
}

fn digit_str(d: u64) -> (r: &'static str)
    requires
        d < 10,
    ensures
        r@ == seq![digit_char(d as nat)],
{
    proof {
        reveal_strlit("0");
        reveal_strlit("1");
        reveal_strlit("2");
        reveal_strlit("3");
        reveal_strlit("4");
        reveal_strlit("5");
        reveal_strlit("6");
        reveal_strlit("7");
        reveal_strlit("8");
        reveal_strlit("9");
    }
    if d == 0 {
        "0"
    } else if d == 1 {
        "1"
    } else if d == 2 {
        "2"
    } else if d == 3 {
        "3"
    } else if d == 4 {
        "4"
    } else if d == 5 {
        "5"
    } else if d == 6 {
        "6"
    } else if d == 7 {
        "7"
    } else if d == 8 {
        "8"
    } else {
        "9"
    }
}

/// Appends the decimal text of a number to a string.
pub fn push_decimal(s: &mut String, n: u64)
    ensures
        final(s)@ == old(s)@ + decimal(n as nat),
    decreases n,
{
    if n < 10 {
        s.append(digit_str(n));
    } else {
        push_decimal(s, n / 10);
        s.append(digit_str(n % 10));
        proof {
            assert(old(s)@ + decimal(n as nat) =~= old(s)@ + decimal((n / 10) as nat) + seq![digit_char((n % 10) as nat)]);
        }
    }
}

/// Builds the text `prefix:n`.
pub fn numbered_id(prefix: &str, n: u64) -> (r: String)
    ensures
        r@ == numbered(prefix@, n as nat),
{
    let mut s = String::from_str(prefix);
    s.append(":");
    proof {
        reveal_strlit(":");
    }
    push_decimal(&mut s, n);
    proof {
        assert(s@ =~= numbered(prefix@, n as nat));
    }
    s
}

/// A source of numbers that hands out consecutive values, wrapping around
/// after the largest `u64`.
pub struct IdSequence {
    next: u64,
}

impl IdSequence {
    /// The number the next call of `take` returns.
    pub closed spec fn peek(&self) -> u64 {
        self.next
    }

    /// A sequence whose first number is `first`.
    pub fn starting_at(first: u64) -> (r: Self)
        ensures
            r.peek() == first,
    {
        IdSequence { next: first }
    }

    /// Hands out the current number and advances to the next one.
    pub fn take(&mut self) -> (r: u64)
        ensures
            r == old(self).peek(),
            final(self).peek() == (if r == u64::MAX { 0 } else { r + 1 }),
    {
        let r = self.next;
        self.next = self.next.wrapping_add(1);
        r
    }
}

/// Two ids that a sequence hands out one after the other differ.
pub proof fn law_consecutive_ids_differ(prefix: Seq<char>, first: u64, second: u64)
    requires
        second == (if first == u64::MAX { 0 } else { first + 1 }),
    ensures
        numbered(prefix, first as nat) != numbered(prefix, second as nat),
{
    if numbered(prefix, first as nat) == numbered(prefix, second as nat) {
        lemma_numbered_injective(prefix, first as nat, second as nat);
    }
}

/// The number a sequence hands out after `n`.
pub open spec fn next_id(n: u64) -> u64 {
    if n == u64::MAX { 0 } else { (n + 1) as u64 }
}

/// Whether `ns` are numbers that a sequence handed out by successive calls
/// of `take`.
pub open spec fn successive(ns: Seq<u64>) -> bool {
    forall|i: int| 0 <= i < ns.len() - 1 ==> ns[i + 1] == next_id(#[trigger] ns[i])
}

/// The `i`-th of successive numbers counts on from the first, wrapping once
/// past the largest `u64`.
proof fn lemma_successive_nth(ns: Seq<u64>, i: int)
    requires
        successive(ns),
        0 <= i < ns.len(),
        ns.len() <= u64::MAX + 1,
    ensures
        ns[i] == (if ns[0] + i <= u64::MAX { ns[0] + i } else { ns[0] + i - (u64::MAX + 1) }),
    decreases i,
{
    if i > 0 {
        lemma_successive_nth(ns, i - 1);
        assert(ns[i] == next_id(ns[i - 1]));
    }
}

/// Ids never repeat: the numbers a sequence hands out differ from each other
/// until it has handed out every `u64` once, and so do the ids built from
/// them under one prefix, such as hook ids, key handler ids and view ids.
pub proof fn law_ids_never_repeat(prefix: Seq<char>, ns: Seq<u64>)
    requires
        successive(ns),
        ns.len() <= u64::MAX + 1,
    ensures
        ns.no_duplicates(),
        forall|i: int, j: int| 0 <= i < j < ns.len() ==> numbered(prefix, #[trigger] ns[i] as nat) != numbered(prefix, #[trigger] ns[j] as nat),
{
    assert forall|i: int, j: int| 0 <= i < j < ns.len() implies ns[i] != ns[j] by {
        lemma_successive_nth(ns, i);
        lemma_successive_nth(ns, j);
    }
    assert forall|i: int, j: int| 0 <= i < j < ns.len() implies numbered(prefix, #[trigger] ns[i] as nat) != numbered(prefix, #[trigger] ns[j] as nat) by {
        if numbered(prefix, ns[i] as nat) == numbered(prefix, ns[j] as nat) {
            lemma_numbered_injective(prefix, ns[i] as nat, ns[j] as nat);
        }
    }
}

} // verus!
