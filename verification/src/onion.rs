//! Host names of onion services.
use vstd::prelude::*;
use vstd::string::*;

verus! {

/// Bit `k` of a string of bytes, the most significant bit of the first byte
/// being bit 0; zero past the end.
pub open spec fn bit(bytes: Seq<u8>, k: int) -> int {
    if 0 <= k < 8 * bytes.len() {
        let byte = bytes[k / 8] as int;
        let place = k % 8;
        if place == 0 {
            byte / 128
        } else if place == 1 {
            byte / 64 % 2
        } else if place == 2 {
            byte / 32 % 2
        } else if place == 3 {
            byte / 16 % 2
        } else if place == 4 {
            byte / 8 % 2
        } else if place == 5 {
            byte / 4 % 2
        } else if place == 6 {
            byte / 2 % 2
        } else {
            byte % 2
        }
    } else {
        0
    }
}

/// The number that bits `5 * i` to `5 * i + 4` write down.
pub open spec fn quintet(bytes: Seq<u8>, i: int) -> int {
    16 * bit(bytes, 5 * i) + 8 * bit(bytes, 5 * i + 1) + 4 * bit(bytes, 5 * i + 2) + 2 * bit(
        bytes,
        5 * i + 3,
    ) + bit(bytes, 5 * i + 4)
}

/// The symbol of a number below 32 in the alphabet `A` to `Z`, `2` to `7`.
pub open spec fn symbol(value: int) -> char {
    if value < 26 {
        ('A' as int + value) as char
    } else {
        ('2' as int + value - 26) as char
    }
}

/// Base 32 without padding: one symbol for each five bits.
pub open spec fn base32(bytes: Seq<u8>) -> Seq<char> {
    Seq::new((8 * bytes.len() + 4) / 5, |i: int| symbol(quintet(bytes, i)))
}

/// The lower-case form of an ASCII character.
pub open spec fn ascii_lower(c: char) -> char {
    if 'A' <= c <= 'Z' {
        (c as int + 32) as char
    } else {
        c
    }
}

/// The host name of the onion service with this hash: its base 32 text in lower
/// case, and `.onion`.
pub open spec fn onion_host_name(hash: Seq<u8>) -> Seq<char> {
    base32(hash).map_values(|c: char| ascii_lower(c)) + ".onion"@
}

/// `data_encoding::BASE32_NOPAD.encode`: base 32 with the alphabet `A` to `Z`,
/// `2` to `7`, most significant bit first and without padding.
#[verifier::external_body]
fn base32_encode(bytes: &[u8; 35]) -> (text: String)
    ensures
        text@ == base32(bytes@),
{
    data_encoding::BASE32_NOPAD.encode(bytes)
}

/// `str::to_lowercase`: of ASCII text, each letter in lower case and every other
/// character as it is. Nothing is claimed of other text.
pub assume_specification[ str::to_lowercase ](text: &str) -> (lower: String)
    ensures
        vstd::utf8::is_ascii_chars(text@) ==> lower@ == text@.map_values(|c: char| ascii_lower(c)),
;

/// A quintet is a number below 32.
pub proof fn lemma_quintet_range(bytes: Seq<u8>, i: int)
    ensures
        0 <= quintet(bytes, i) < 32,
{
    lemma_bit_range(bytes, 5 * i);
    lemma_bit_range(bytes, 5 * i + 1);
    lemma_bit_range(bytes, 5 * i + 2);
    lemma_bit_range(bytes, 5 * i + 3);
    lemma_bit_range(bytes, 5 * i + 4);
}

/// A bit is zero or one.
proof fn lemma_bit_range(bytes: Seq<u8>, k: int)
    ensures
        0 <= bit(bytes, k) <= 1,
{
}

/// Symbols are ASCII.
proof fn lemma_base32_is_ascii(bytes: Seq<u8>)
    ensures
        vstd::utf8::is_ascii_chars(base32(bytes)),
{
    assert forall|i: int| 0 <= i < base32(bytes).len() implies '\0' <= #[trigger] base32(bytes)[i]
        <= '\u{7f}' by {
        lemma_quintet_range(bytes, i);
    }
}

/// The host name of an onion service is ASCII, and as long as its base 32 text
/// and six more.
pub proof fn lemma_onion_host_name_is_ascii(hash: Seq<u8>)
    ensures
        vstd::utf8::is_ascii_chars(onion_host_name(hash)),
        onion_host_name(hash).len() == (8 * hash.len() + 4) / 5 + 6,
{
    reveal_strlit(".onion");
    lemma_base32_is_ascii(hash);
    let name = onion_host_name(hash);
    assert forall|i: int| 0 <= i < name.len() implies '\0' <= #[trigger] name[i] <= '\u{7f}' by {
        if i < base32(hash).len() {
            assert(name[i] == ascii_lower(base32(hash)[i]));
        } else {
            assert(name[i] == ".onion"@[i - base32(hash).len()]);
        }
    }
}

/// Five bits are told by the number that they write down.
proof fn lemma_quintet_tells_bits(a: Seq<u8>, b: Seq<u8>, i: int)
    requires
        quintet(a, i) == quintet(b, i),
    ensures
        forall|k: int| 5 * i <= k < 5 * i + 5 ==> bit(a, k) == bit(b, k),
{
    assert forall|s: Seq<u8>, k: int| 0 <= #[trigger] bit(s, k) <= 1 by {
        lemma_bit_range(s, k);
    }
    assert forall|k: int| 5 * i <= k < 5 * i + 5 implies bit(a, k) == bit(b, k) by {
        assert(k == 5 * i || k == 5 * i + 1 || k == 5 * i + 2 || k == 5 * i + 3 || k == 5 * i + 4);
    }
}

/// A byte is the number that its bits write down.
pub proof fn lemma_byte_of_bits(s: Seq<u8>, j: int)
    requires
        0 <= j < s.len(),
    ensures
        s[j] == 128 * bit(s, 8 * j) + 64 * bit(s, 8 * j + 1) + 32 * bit(s, 8 * j + 2) + 16 * bit(
            s,
            8 * j + 3,
        ) + 8 * bit(s, 8 * j + 4) + 4 * bit(s, 8 * j + 5) + 2 * bit(s, 8 * j + 6) + bit(
            s,
            8 * j + 7,
        ),
{
    let x = s[j];
    assert(x == 128 * (x / 128) + 64 * (x / 64 % 2) + 32 * (x / 32 % 2) + 16 * (x / 16 % 2) + 8 * (x
        / 8 % 2) + 4 * (x / 4 % 2) + 2 * (x / 2 % 2) + x % 2) by (bit_vector);
}

/// A byte is told by its bits.
proof fn lemma_bits_tell_byte(a: Seq<u8>, b: Seq<u8>, j: int)
    requires
        0 <= j < a.len(),
        0 <= j < b.len(),
        forall|k: int| 8 * j <= k < 8 * j + 8 ==> bit(a, k) == bit(b, k),
    ensures
        a[j] == b[j],
{
    lemma_byte_of_bits(a, j);
    lemma_byte_of_bits(b, j);
}

/// Different onion services have different host names.
pub proof fn law_onion_host_tells_service(a: Seq<u8>, b: Seq<u8>)
    requires
        a.len() == b.len(),
        onion_host_name(a) == onion_host_name(b),
    ensures
        a == b,
{
    let n = base32(a).len() as int;
    assert forall|i: int| 0 <= i < n implies quintet(a, i) == quintet(b, i) by {
        lemma_quintet_range(a, i);
        lemma_quintet_range(b, i);
        assert(onion_host_name(a)[i] == ascii_lower(symbol(quintet(a, i))));
        assert(onion_host_name(b)[i] == ascii_lower(symbol(quintet(b, i))));
    }
    assert forall|j: int| 0 <= j < a.len() implies a[j] == b[j] by {
        assert forall|k: int| 8 * j <= k < 8 * j + 8 implies bit(a, k) == bit(b, k) by {
            assert(0 <= k / 5 < n);
            lemma_quintet_tells_bits(a, b, k / 5);
        }
        lemma_bits_tell_byte(a, b, j);
    }
}

/// The host name of an onion service.
pub fn onion_host(hash: &[u8; 35]) -> (host: String)
    ensures
        host@ == onion_host_name(hash@),
{
    let encoded = base32_encode(hash);
    proof {
        lemma_base32_is_ascii(hash@);
    }
    let mut host = encoded.as_str().to_lowercase();
    host.append(".onion");
    host
}

} // verus!
