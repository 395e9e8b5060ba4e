//! Base 58, the notation of peer ids.
use vstd::prelude::*;

verus! {

/// The number that the bytes write down, most significant byte first.
pub open spec fn big_endian(bytes: Seq<u8>) -> nat
    decreases bytes.len(),
{
    if bytes.len() == 0 {
        0
    } else {
        256 * big_endian(bytes.drop_last()) + bytes.last() as nat
    }
}

/// The digit of a number below 58: `1` to `9`, `A` to `Z` and `a` to `z` without `I`,
/// `O` and `l`.
pub open spec fn base58_digit(value: nat) -> char {
    if value < 9 {
        ('1' as int + value) as char
    } else if value < 17 {
        ('A' as int + value - 9) as char
    } else if value < 22 {
        ('J' as int + value - 17) as char
    } else if value < 33 {
        ('P' as int + value - 22) as char
    } else if value < 44 {
        ('a' as int + value - 33) as char
    } else {
        ('m' as int + value - 44) as char
    }
}

/// The digits of `n` in base 58, most significant first; none of zero.
pub open spec fn base58_digits(n: nat) -> Seq<char>
    decreases n,
{
    if n == 0 {
        Seq::empty()
    } else {
        base58_digits(n / 58).push(base58_digit(n % 58))
    }
}

/// The number of zero bytes that `bytes` begins with.
pub open spec fn leading_zeros(bytes: Seq<u8>) -> nat
    decreases bytes.len(),
{
    if bytes.len() == 0 || bytes[0] != 0 {
        0
    } else {
        1 + leading_zeros(bytes.drop_first())
    }
}

/// Base 58 of the bytes: a `1` for each leading zero byte, then the digits of their
/// number.
pub open spec fn base58(bytes: Seq<u8>) -> Seq<char> {
    Seq::new(leading_zeros(bytes), |i: int| '1') + base58_digits(big_endian(bytes))
}

/// The digits of a number begin with one that is not `1`, the digit of zero.
proof fn lemma_first_digit(n: nat)
    requires
        n > 0,
    ensures
        base58_digits(n).len() > 0,
        base58_digits(n)[0] != '1',
    decreases n,
{
    let higher = base58_digits(n / 58);
    assert(base58_digits(n) == higher.push(base58_digit(n % 58)));
    if n / 58 > 0 {
        lemma_first_digit(n / 58);
        assert(base58_digits(n)[0] == higher[0]);
    } else {
        assert(higher =~= Seq::empty());
        assert(n % 58 == n);
    }
}

/// A number is told by its digits.
proof fn lemma_digits_tell_number(n: nat, m: nat)
    requires
        base58_digits(n) == base58_digits(m),
    ensures
        n == m,
    decreases n,
{
    if n == 0 {
        if m > 0 {
            lemma_first_digit(m);
        }
    } else if m == 0 {
        lemma_first_digit(n);
    } else {
        let a = base58_digits(n);
        let b = base58_digits(m);
        assert(a.last() == base58_digit(n % 58) && b.last() == base58_digit(m % 58));
        assert(n % 58 == m % 58);
        assert(a.drop_last() =~= base58_digits(n / 58));
        assert(b.drop_last() =~= base58_digits(m / 58));
        lemma_digits_tell_number(n / 58, m / 58);
    }
}

/// Bytes that do not begin with zero write down a number that is not zero.
pub proof fn lemma_big_endian_positive(bytes: Seq<u8>)
    requires
        bytes.len() > 0,
        bytes[0] != 0,
    ensures
        big_endian(bytes) > 0,
    decreases bytes.len(),
{
    if bytes.len() > 1 {
        lemma_big_endian_positive(bytes.drop_last());
    }
}

/// A leading zero does not change the number.
pub proof fn lemma_big_endian_leading_zero(bytes: Seq<u8>)
    requires
        bytes.len() > 0,
        bytes[0] == 0,
    ensures
        big_endian(bytes) == big_endian(bytes.drop_first()),
    decreases bytes.len(),
{
    if bytes.len() == 1 {
        assert(bytes.drop_last() =~= Seq::empty());
        assert(bytes.drop_first() =~= Seq::empty());
    } else {
        lemma_big_endian_leading_zero(bytes.drop_last());
        assert(bytes.drop_first().drop_last() =~= bytes.drop_last().drop_first());
    }
}

/// Bytes that begin with equally many zeros are told by their number.
proof fn lemma_number_tells_bytes(a: Seq<u8>, b: Seq<u8>)
    requires
        leading_zeros(a) == leading_zeros(b),
        big_endian(a) == big_endian(b),
    ensures
        a == b,
    decreases a.len(),
{
    if leading_zeros(a) > 0 {
        lemma_big_endian_leading_zero(a);
        lemma_big_endian_leading_zero(b);
        lemma_number_tells_bytes(a.drop_first(), b.drop_first());
        assert(seq![0u8] + a.drop_first() =~= a);
        assert(seq![0u8] + b.drop_first() =~= b);
    } else if a.len() == 0 {
        if b.len() > 0 {
            lemma_big_endian_positive(b);
        }
        assert(a =~= b);
    } else if b.len() == 0 {
        lemma_big_endian_positive(a);
    } else {
        let x = a.drop_last();
        let y = b.drop_last();
        assert(a.last() == b.last() && big_endian(x) == big_endian(y));
        lemma_number_tells_bytes(x, y);
        assert(x.push(a.last()) =~= a);
        assert(y.push(b.last()) =~= b);
    }
}

/// Bytes are told by their base 58 text.
pub proof fn law_base58_tells_bytes(a: Seq<u8>, b: Seq<u8>)
    requires
        base58(a) == base58(b),
    ensures
        a == b,
{
    let p = leading_zeros(a) as int;
    let q = leading_zeros(b) as int;
    let m = base58_digits(big_endian(a));
    let n = base58_digits(big_endian(b));
    if p < q {
        assert(m.len() > 0);
        lemma_first_digit(big_endian(a));
        assert(base58(a)[p] == m[0] && base58(b)[p] == '1');
    } else if q < p {
        assert(n.len() > 0);
        lemma_first_digit(big_endian(b));
        assert(base58(b)[q] == n[0] && base58(a)[q] == '1');
    } else {
        assert(m =~= base58(a).skip(p));
        assert(n =~= base58(b).skip(p));
        lemma_digits_tell_number(big_endian(a), big_endian(b));
        lemma_number_tells_bytes(a, b);
    }
}

} // verus!
