//! Addresses, peer ids, onion services and versions, and how they are written.
use crate::address::{Multiaddr, PeerId, Protocol, ProtocolView};
use crate::version::Version;
use vstd::prelude::*;

verus! {

/// The number that the digits write down in a base, most significant first.
pub open spec fn number(digits: Seq<nat>, base: nat) -> nat
    decreases digits.len(),
{
    if digits.len() == 0 {
        0
    } else {
        base * number(digits.drop_last(), base) + digits.last()
    }
}

/// The bytes are accepted as a peer id just where they are a code, a length and as many
/// bytes more: with the code of SHA-256 at most 64, with that of no hash function at
/// most 42. A peer id keeps its bytes, and is the same as another just where they have
/// the same.
pub proof fn law_peer_ids_are_their_bytes(
    bytes: Vec<u8>,
    others: Vec<u8>,
    id: Option<PeerId>,
    other: Option<PeerId>,
    copy: PeerId,
    same: bool,
)
    requires
        call_ensures(PeerId::from_bytes, (bytes,), id),
        call_ensures(PeerId::from_bytes, (others,), other),
        id is Some && other is Some ==> call_ensures(
            PeerId::same_as,
            (&id->0, &other->0),
            same,
        ) && call_ensures(<PeerId as Clone>::clone, (&id->0,), copy),
    ensures
        id is Some <==> bytes@.len() >= 2 && bytes@.len() == 2 + bytes@[1] && (bytes@[0] == 0x12
            && bytes@[1] <= 64 || bytes@[0] == 0 && bytes@[1] <= 42),
        id is Some && other is Some ==> (same <==> bytes@ == others@),
        id is Some && other is Some ==> copy@ == bytes@,
{
}

/// The digits of base 58, in order.
pub open spec fn base58_alphabet() -> Seq<char> {
    "123456789ABCDEFGHJKLMNPQRSTUVWXYZabcdefghijkmnopqrstuvwxyz"@
}

/// The text of a peer id reads back as its bytes: its digits write down in base 58 the
/// number that the bytes write down in base 256, after one digit of zero for each
/// leading byte of zero.
pub proof fn law_the_text_of_a_peer_id_reads_back(
    bytes: Vec<u8>,
    id: Option<PeerId>,
    text: String,
) -> (read: (Seq<nat>, int))
    requires
        call_ensures(PeerId::from_bytes, (bytes,), id),
        id is Some,
        call_ensures(PeerId::to_text, (&id->0,), text),
    ensures
        ({
            let (digits, zeros) = read;
            &&& digits.len() == text@.len()
            &&& forall|i: int|
                0 <= i < digits.len() ==> #[trigger] digits[i] < 58 && text@[i]
                    == base58_alphabet()[digits[i] as int]
            &&& number(digits, 58) == number(bytes@.map_values(|b: u8| b as nat), 256)
            &&& 0 <= zeros <= bytes@.len()
            &&& zeros <= digits.len()
            &&& forall|i: int| 0 <= i < zeros ==> #[trigger] bytes@[i] == 0 && digits[i] == 0
            &&& zeros < bytes@.len() <==> zeros < digits.len()
            &&& zeros < bytes@.len() ==> bytes@[zeros] != 0 && digits[zeros] != 0
        }),
{
    let zeros = crate::base58::leading_zeros(bytes@);
    let value = crate::base58::big_endian(bytes@);
    let low = digits58(value);
    let digits = Seq::new(zeros, |i: int| 0nat) + low;
    lemma_big_endian(bytes@);
    lemma_leading_zeros(bytes@);
    lemma_digits58(value);
    lemma_number_leading_zeros(zeros, low, 58);
    lemma_alphabet();
    let text58 = crate::base58::base58_digits(value);
    assert(text@ == Seq::new(zeros, |i: int| '1') + text58);
    assert forall|i: int| 0 <= i < digits.len() implies #[trigger] digits[i] < 58 && text@[i]
        == base58_alphabet()[digits[i] as int] by {
        assert(crate::base58::base58_digit(0) == base58_alphabet()[0]);
        if i >= zeros {
            assert(digits[i] == low[i - zeros]);
            assert(text@[i] == text58[i - zeros]);
            assert(text58[i - zeros] == crate::base58::base58_digit(low[i - zeros]));
        }
    }
    if zeros < bytes@.len() {
        assert(low.len() > 0);
        assert(low[0] != 0);
        assert(digits[zeros as int] == low[0]);
    }
    (digits, zeros as int)
}

/// The values of the digits of `n` in base 58.
spec fn digits58(n: nat) -> Seq<nat>
    decreases n,
{
    if n == 0 {
        Seq::empty()
    } else {
        digits58(n / 58).push(n % 58)
    }
}

/// They write down `n`, and are those of its text.
proof fn lemma_digits58(n: nat)
    ensures
        number(digits58(n), 58) == n,
        digits58(n).len() == crate::base58::base58_digits(n).len(),
        forall|i: int|
            0 <= i < digits58(n).len() ==> #[trigger] digits58(n)[i] < 58
                && crate::base58::base58_digits(n)[i] == crate::base58::base58_digit(
                digits58(n)[i],
            ),
        n > 0 <==> digits58(n).len() > 0,
        n > 0 ==> digits58(n)[0] != 0,
    decreases n,
{
    if n > 0 {
        let high = digits58(n / 58);
        let text = crate::base58::base58_digits(n / 58);
        lemma_digits58(n / 58);
        assert(digits58(n) == high.push(n % 58));
        assert(crate::base58::base58_digits(n) == text.push(crate::base58::base58_digit(n % 58)));
        assert(digits58(n).drop_last() =~= high);
        assert forall|i: int| 0 <= i < digits58(n).len() implies #[trigger] digits58(n)[i] < 58
            && crate::base58::base58_digits(n)[i] == crate::base58::base58_digit(
            digits58(n)[i],
        ) by {
            if i < high.len() {
                assert(digits58(n)[i] == high[i]);
                assert(crate::base58::base58_digits(n)[i] == text[i]);
            }
        }
        if n / 58 > 0 {
            assert(digits58(n)[0] == high[0]);
        } else {
            assert(high =~= Seq::empty());
            assert(n % 58 == n);
        }
    }
}

/// The digits are those of the alphabet.
proof fn lemma_alphabet()
    ensures
        forall|v: nat| v < 58 ==> #[trigger] crate::base58::base58_digit(v)
            == base58_alphabet()[v as int],
{
    reveal_strlit("123456789ABCDEFGHJKLMNPQRSTUVWXYZabcdefghijkmnopqrstuvwxyz");
}

/// The number of bytes is that of their values.
proof fn lemma_big_endian(bytes: Seq<u8>)
    ensures
        crate::base58::big_endian(bytes) == number(bytes.map_values(|b: u8| b as nat), 256),
    decreases bytes.len(),
{
    if bytes.len() > 0 {
        lemma_big_endian(bytes.drop_last());
        assert(bytes.map_values(|b: u8| b as nat).drop_last() =~= bytes.drop_last().map_values(
            |b: u8| b as nat,
        ));
    }
}

/// How the bytes begin, and whether their number is zero.
proof fn lemma_leading_zeros(bytes: Seq<u8>)
    ensures
        crate::base58::leading_zeros(bytes) <= bytes.len(),
        forall|i: int|
            0 <= i < crate::base58::leading_zeros(bytes) ==> #[trigger] bytes[i] == 0,
        crate::base58::leading_zeros(bytes) < bytes.len() ==> bytes[crate::base58::leading_zeros(
            bytes,
        ) as int] != 0,
        crate::base58::leading_zeros(bytes) < bytes.len() <==> crate::base58::big_endian(bytes) > 0,
    decreases bytes.len(),
{
    if bytes.len() > 0 && bytes[0] == 0 {
        let rest = bytes.drop_first();
        lemma_leading_zeros(rest);
        crate::base58::lemma_big_endian_leading_zero(bytes);
        assert(forall|i: int| 0 < i < bytes.len() ==> #[trigger] bytes[i] == rest[i - 1]);
    } else if bytes.len() > 0 {
        crate::base58::lemma_big_endian_positive(bytes);
    }
}

/// Leading digits of zero do not change a number.
proof fn lemma_number_leading_zeros(zeros: nat, digits: Seq<nat>, base: nat)
    ensures
        number(Seq::new(zeros, |i: int| 0nat) + digits, base) == number(digits, base),
    decreases zeros + digits.len(),
{
    let all = Seq::new(zeros, |i: int| 0nat) + digits;
    if digits.len() > 0 {
        lemma_number_leading_zeros(zeros, digits.drop_last(), base);
        assert(all.drop_last() =~= Seq::new(zeros, |i: int| 0nat) + digits.drop_last());
    } else if zeros > 0 {
        lemma_number_leading_zeros((zeros - 1) as nat, digits, base);
        assert(all.drop_last() =~= Seq::new((zeros - 1) as nat, |i: int| 0nat) + digits);
        assert(base * 0 == 0) by (nonlinear_arith);
    }
}

/// The symbols of an onion service's name, in order.
pub open spec fn onion_alphabet() -> Seq<char> {
    "abcdefghijklmnopqrstuvwxyz234567"@
}

/// The host name of an onion service reads back as its hash: 56 symbols and `.onion`,
/// and each eight symbols write down in base 32 the number that five bytes write down
/// in base 256.
pub proof fn law_the_name_of_an_onion_service_reads_back(hash: [u8; 35], host: String) -> (values:
    Seq<int>)
    requires
        call_ensures(crate::onion::onion_host, (&hash,), host),
    ensures
        host@.len() == 62,
        host@.subrange(56, 62) == ".onion"@,
        values.len() == 56,
        forall|i: int|
            0 <= i < 56 ==> 0 <= #[trigger] values[i] < 32 && host@[i]
                == onion_alphabet()[values[i]],
        forall|g: int|
            #![trigger hash@[5 * g]]
            0 <= g < 7 ==> 4294967296 * hash@[5 * g] + 16777216 * hash@[5 * g + 1] + 65536
                * hash@[5 * g + 2] + 256 * hash@[5 * g + 3] + hash@[5 * g + 4] == 34359738368
                * values[8 * g] + 1073741824 * values[8 * g + 1] + 33554432 * values[8 * g + 2]
                + 1048576 * values[8 * g + 3] + 32768 * values[8 * g + 4] + 1024 * values[8 * g + 5]
                + 32 * values[8 * g + 6] + values[8 * g + 7],
{
    reveal_strlit(".onion");
    reveal_strlit("abcdefghijklmnopqrstuvwxyz234567");
    let values = Seq::new(56, |i: int| crate::onion::quintet(hash@, i));
    let name = crate::onion::onion_host_name(hash@);
    assert(host@ == name);
    assert(name.subrange(56, 62) =~= ".onion"@);
    assert forall|i: int| 0 <= i < 56 implies 0 <= #[trigger] values[i] < 32 && host@[i]
        == onion_alphabet()[values[i]] by {
        crate::onion::lemma_quintet_range(hash@, i);
        assert(name[i] == crate::onion::ascii_lower(crate::onion::symbol(values[i])));
    }
    assert forall|g: int|
        #![trigger hash@[5 * g]]
        0 <= g < 7 implies 4294967296 * hash@[5 * g] + 16777216 * hash@[5 * g + 1] + 65536
        * hash@[5 * g + 2] + 256 * hash@[5 * g + 3] + hash@[5 * g + 4] == 34359738368 * values[8
        * g] + 1073741824 * values[8 * g + 1] + 33554432 * values[8 * g + 2] + 1048576 * values[8
        * g + 3] + 32768 * values[8 * g + 4] + 1024 * values[8 * g + 5] + 32 * values[8 * g + 6]
        + values[8 * g + 7] by {
        lemma_onion_group(hash@, g, values);
    }
    values
}

/// Bit `k` of group `g` of forty bits.
#[verifier::opaque]
spec fn hash_bit(hash: Seq<u8>, g: int, k: int) -> int {
    crate::onion::bit(hash, 40 * g + k)
}

/// A byte of a group is eight of its bits.
proof fn lemma_group_byte(hash: Seq<u8>, g: int, j: int)
    requires
        0 <= g,
        0 <= j < 5,
        5 * g + 5 <= hash.len(),
    ensures
        hash[5 * g + j] == 128 * hash_bit(hash, g, 8 * j + 0) + 64 * hash_bit(hash, g, 8 * j + 1) + 32 * hash_bit(hash, g, 8 * j + 2) + 16 * hash_bit(hash, g, 8 * j + 3) + 8 * hash_bit(hash, g, 8 * j + 4) + 4 * hash_bit(hash, g, 8 * j + 5) + 2 * hash_bit(hash, g, 8 * j + 6) + 1 * hash_bit(hash, g, 8 * j + 7),
{
    reveal(hash_bit);
    crate::onion::lemma_byte_of_bits(hash, 5 * g + j);
    assert(8 * (5 * g + j) == 40 * g + 8 * j);
}

/// A symbol of a group is five of its bits.
proof fn lemma_group_symbol(hash: Seq<u8>, g: int, k: int)
    ensures
        crate::onion::quintet(hash, 8 * g + k) == 16 * hash_bit(hash, g, 5 * k + 0) + 8 * hash_bit(hash, g, 5 * k + 1) + 4 * hash_bit(hash, g, 5 * k + 2) + 2 * hash_bit(hash, g, 5 * k + 3) + 1 * hash_bit(hash, g, 5 * k + 4),
{
    reveal(hash_bit);
    assert(5 * (8 * g + k) == 40 * g + 5 * k);
}

/// Five bytes and eight symbols are the same forty bits.
proof fn lemma_onion_group(hash: Seq<u8>, g: int, values: Seq<int>)
    requires
        0 <= g,
        5 * g + 5 <= hash.len(),
        8 * g + 8 <= values.len(),
        forall|i: int|
            8 * g <= i < 8 * g + 8 ==> #[trigger] values[i] == crate::onion::quintet(hash, i),
    ensures
        4294967296 * hash[5 * g] + 16777216 * hash[5 * g + 1] + 65536 * hash[5 * g + 2] + 256
            * hash[5 * g + 3] + hash[5 * g + 4] == 34359738368 * values[8 * g] + 1073741824
            * values[8 * g + 1] + 33554432 * values[8 * g + 2] + 1048576 * values[8 * g + 3] + 32768
            * values[8 * g + 4] + 1024 * values[8 * g + 5] + 32 * values[8 * g + 6] + values[8 * g
            + 7],
{
    lemma_group_byte(hash, g, 0);
    lemma_group_byte(hash, g, 1);
    lemma_group_byte(hash, g, 2);
    lemma_group_byte(hash, g, 3);
    lemma_group_byte(hash, g, 4);
    lemma_group_symbol(hash, g, 0);
    lemma_group_symbol(hash, g, 1);
    lemma_group_symbol(hash, g, 2);
    lemma_group_symbol(hash, g, 3);
    lemma_group_symbol(hash, g, 4);
    lemma_group_symbol(hash, g, 5);
    lemma_group_symbol(hash, g, 6);
    lemma_group_symbol(hash, g, 7);
}

/// The number that decimal digits write down.
pub open spec fn read_decimal(text: Seq<char>) -> int
    decreases text.len(),
{
    if text.len() == 0 {
        0
    } else {
        10 * read_decimal(text.drop_last()) + (text.last() as int - '0' as int)
    }
}

/// A number in decimal reads back, has nothing but digits, and does not begin with a
/// zero unless it is zero.
pub proof fn law_decimal_reads_back(n: nat)
    ensures
        read_decimal(crate::version::decimal(n)) == n,
        crate::version::decimal(n).len() > 0,
        forall|i: int|
            0 <= i < crate::version::decimal(n).len() ==> '0' <= #[trigger] crate::version::decimal(
                n,
            )[i] <= '9',
        n > 0 ==> crate::version::decimal(n)[0] != '0',
    decreases n,
{
    let text = crate::version::decimal(n);
    if n < 10 {
        assert(text.drop_last() =~= Seq::empty());
        assert(read_decimal(Seq::<char>::empty()) == 0);
    } else {
        let high = crate::version::decimal(n / 10);
        law_decimal_reads_back(n / 10);
        assert(text.drop_last() =~= high);
        assert(text[0] == high[0]);
        assert forall|i: int| 0 <= i < text.len() implies '0' <= #[trigger] text[i] <= '9' by {
            if i < high.len() {
                assert(text[i] == high[i]);
            }
        }
    }
}

/// A version is written as its three numbers with dots between them, then a hyphen and
/// the pre-release, and a plus sign and the build metadata, where there are such. A copy
/// is written alike.
pub proof fn law_a_version_is_written_as_its_fields(
    major: u64,
    minor: u64,
    patch: u64,
    pre: String,
    build: String,
    version: Option<Version>,
    copy: Version,
    text: String,
    text_of_copy: String,
)
    requires
        call_ensures(Version::new, (major, minor, patch, pre, build), version),
        version is Some,
        call_ensures(Version::to_text, (&version->0,), text),
        call_ensures(<Version as Clone>::clone, (&version->0,), copy),
        call_ensures(Version::to_text, (&copy,), text_of_copy),
    ensures
        text@ == crate::version::decimal(major as nat) + "."@ + crate::version::decimal(
            minor as nat,
        ) + "."@ + crate::version::decimal(patch as nat) + (if pre@.len() == 0 {
            Seq::empty()
        } else {
            "-"@ + pre@
        }) + (if build@.len() == 0 {
            Seq::empty()
        } else {
            "+"@ + build@
        }),
        text_of_copy@ == text@,
{
    reveal_strlit(".");
    reveal_strlit("-");
    reveal_strlit("+");
    assert("."@ =~= seq!['.']);
    assert("-"@ =~= seq!['-']);
    assert("+"@ =~= seq!['+']);
}

/// Build metadata is accepted just where it is empty, or made of letters, digits,
/// hyphens and dots, with no dot at either end and no two side by side. A pre-release
/// has to be so too.
pub proof fn law_dots_stand_between_identifiers(s: Seq<char>)
    ensures
        crate::version::build_accepted(s) <==> s.len() == 0 || {
            &&& forall|i: int|
                0 <= i < s.len() ==> {
                    ||| #[trigger] s[i] == '.'
                    ||| s[i] == '-'
                    ||| '0' <= s[i] <= '9'
                    ||| 'A' <= s[i] <= 'Z'
                    ||| 'a' <= s[i] <= 'z'
                }
            &&& s[0] != '.'
            &&& s[s.len() - 1] != '.'
            &&& forall|i: int, j: int|
                0 <= i < s.len() && j == i + 1 && j < s.len() ==> !(#[trigger] s[i] == '.'
                    && #[trigger] s[j] == '.')
        },
        crate::version::pre_accepted(s) ==> crate::version::build_accepted(s),
{
    if s.len() > 0 {
        let n = s.len() as int;
        if crate::version::build_accepted(s) {
            if s[0] == '.' {
                assert(crate::version::is_part(s, 0, 0));
            }
            if s[n - 1] == '.' {
                assert(crate::version::is_part(s, n, n));
            }
            assert forall|i: int, j: int|
                0 <= i < s.len() && j == i + 1 && j < s.len() implies !(#[trigger] s[i] == '.'
                && #[trigger] s[j] == '.') by {
                if s[i] == '.' && s[j] == '.' {
                    assert(crate::version::is_part(s, j, j));
                }
            }
            assert forall|i: int| 0 <= i < s.len() implies {
                ||| #[trigger] s[i] == '.'
                ||| s[i] == '-'
                ||| '0' <= s[i] <= '9'
                ||| 'A' <= s[i] <= 'Z'
                ||| 'a' <= s[i] <= 'z'
            } by {
                assert(s[i] == '.' || crate::version::identifier_char(s[i]));
            }
        }
    }
}

/// A pre-release is accepted just where it would be as build metadata, and none of its
/// identifiers begins with a zero and goes on, unless with something that is no digit.
pub proof fn law_numbers_have_no_leading_zero(s: Seq<char>)
    ensures
        crate::version::pre_accepted(s) <==> {
            &&& crate::version::build_accepted(s)
            &&& forall|from: int|
                0 <= from < s.len() - 1 && #[trigger] s[from] == '0' && s[from + 1] != '.' && (from
                    == 0 || s[from - 1] == '.') ==> exists|i: int|
                    from < i < s.len() && !('0' <= #[trigger] s[i] <= '9') && (forall|k: int|
                        from <= k <= i ==> #[trigger] s[k] != '.')
        },
{
    if crate::version::pre_accepted(s) {
        assert forall|from: int|
            0 <= from < s.len() - 1 && #[trigger] s[from] == '0' && s[from + 1] != '.' && (from == 0
                || s[from - 1] == '.') implies exists|i: int|
            from < i < s.len() && !('0' <= #[trigger] s[i] <= '9') && (forall|k: int|
                from <= k <= i ==> #[trigger] s[k] != '.') by {
            let to = lemma_part_end(s, from);
            assert(crate::version::is_part(s, from, to));
            if to == from + 1 {
                assert(s[to] == '.');
            }
            let i = choose|i: int| from <= i < to && !('0' <= #[trigger] s[i] <= '9');
            assert(from < i < s.len());
        }
    }
    if crate::version::build_accepted(s) && (forall|from: int|
        0 <= from < s.len() - 1 && #[trigger] s[from] == '0' && s[from + 1] != '.' && (from == 0
            || s[from - 1] == '.') ==> exists|i: int|
            from < i < s.len() && !('0' <= #[trigger] s[i] <= '9') && (forall|k: int|
                from <= k <= i ==> #[trigger] s[k] != '.')) {
        assert forall|from: int, to: int| #[trigger]
            crate::version::is_part(s, from, to) && from + 1 < to && s[from]
                == '0' implies exists|i: int|
            from <= i < to && !('0' <= #[trigger] s[i] <= '9') by {
            assert(s[from + 1] != '.');
            let i = choose|i: int|
                from < i < s.len() && !('0' <= #[trigger] s[i] <= '9') && (forall|k: int|
                    from <= k <= i ==> #[trigger] s[k] != '.');
            if to <= i {
                assert(s[to] != '.');
            }
        }
    }
}

/// Where the part that begins at `from` ends.
proof fn lemma_part_end(s: Seq<char>, from: int) -> (to: int)
    requires
        0 <= from <= s.len(),
    ensures
        from <= to <= s.len(),
        to == s.len() || s[to] == '.',
        forall|i: int| from <= i < to ==> s[i] != '.',
    decreases s.len() - from,
{
    if from == s.len() || s[from] == '.' {
        from
    } else {
        lemma_part_end(s, from + 1)
    }
}

/// A version is made just of a pre-release and build metadata that are accepted.
pub proof fn law_versions_are_made_of_accepted_parts(
    major: u64,
    minor: u64,
    patch: u64,
    pre: String,
    build: String,
    version: Option<Version>,
)
    requires
        call_ensures(Version::new, (major, minor, patch, pre, build), version),
    ensures
        version is Some <==> crate::version::pre_accepted(pre@) && crate::version::build_accepted(
            build@,
        ),
        pre@.len() == 0 && build@.len() == 0 ==> version is Some,
{
    if pre@.len() == 0 {
        assert forall|from: int, to: int| #[trigger]
            crate::version::is_part(pre@, from, to) && from + 1 < to && pre@[from]
                == '0' implies exists|i: int|
            from <= i < to && !('0' <= #[trigger] pre@[i] <= '9') by {}
    }
}

/// An address keeps its bytes, whether it is made of them or read from a text; its text
/// and its components are those of its bytes.
pub proof fn law_addresses_are_their_bytes(
    bytes: Vec<u8>,
    addr: Option<Multiaddr>,
    copy: Multiaddr,
    kept: &Vec<u8>,
    text: String,
    protocols: Vec<Protocol>,
)
    requires
        call_ensures(Multiaddr::from_bytes, (bytes,), addr),
        addr is Some ==> call_ensures(Multiaddr::as_bytes, (&addr->0,), kept) && call_ensures(
            Multiaddr::to_text,
            (&addr->0,),
            text,
        ) && call_ensures(Multiaddr::protocols, (&addr->0,), protocols) && call_ensures(
            <Multiaddr as Clone>::clone,
            (&addr->0,),
            copy,
        ),
    ensures
        addr is Some <==> crate::address::multiaddr_text(bytes@) is Some
            && crate::address::multiaddr_protocols(bytes@) is Some,
        addr is Some ==> {
            let components = crate::address::multiaddr_protocols(bytes@)->0;
            &&& addr->0@ == bytes@
            &&& kept@ == bytes@
            &&& copy@ == bytes@
            &&& crate::address::multiaddr_text(bytes@) == Some(text@)
            &&& components.len() == protocols@.len()
            &&& forall|i: int|
                0 <= i < protocols@.len() ==> components[i] == match #[trigger] protocols@[i] {
                    Protocol::Onion3 { hash, port } => ProtocolView::Onion3 { hash: hash@, port },
                    Protocol::Dns(host) => ProtocolView::Dns(host@),
                    Protocol::Dns4(host) => ProtocolView::Dns4(host@),
                    Protocol::Dns6(host) => ProtocolView::Dns6(host@),
                    Protocol::Ip4(ip) => ProtocolView::Ip4(ip@),
                    Protocol::Ip6(ip) => ProtocolView::Ip6(ip@),
                    Protocol::Tcp(port) => ProtocolView::Tcp(port),
                    Protocol::Other => ProtocolView::Other,
                }
        },
{
}

/// A text is read just where libp2p reads it, as the bytes that libp2p reads.
pub proof fn law_texts_are_read_as_bytes(text: &str, addr: Option<Multiaddr>, kept: &Vec<u8>)
    requires
        call_ensures(Multiaddr::parse, (text,), addr),
        addr is Some ==> call_ensures(Multiaddr::as_bytes, (&addr->0,), kept),
    ensures
        addr is Some ==> crate::address::multiaddr_bytes(text@) == Some(kept@),
        addr is None ==> (crate::address::multiaddr_bytes(text@) matches Some(bytes) ==> {
            ||| crate::address::multiaddr_text(bytes) is None
            ||| crate::address::multiaddr_protocols(bytes) is None
        }),
{
}

} // verus!
