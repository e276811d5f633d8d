//! Identifiers that the protocol carries: jobs and leases by [`Uuid`], peers by [`PeerId`].

use vstd::prelude::*;

verus! {

/// A 128-bit universally unique identifier, most significant bit first.
#[derive(Clone, Copy, Debug, PartialEq, Eq, Hash, Structural)]
pub struct Uuid {
    pub bits: u128,
}

/// The character of a hexadecimal digit, in lower case.
pub open spec fn lower_hex(digit: int) -> char {
    if digit < 10 {
        (digit + 48) as char
    } else {
        (digit + 87) as char
    }
}

/// The `i`-th hexadecimal digit of `bits`, counted from the most significant.
pub open spec fn hex_digit_at(bits: u128, i: int) -> int {
    (bits as int / vstd::arithmetic::power::pow(16, (31 - i) as nat)) % 16
}

/// How many hyphens stand before position `i` of the hyphenated form.
pub open spec fn hyphens_before(i: int) -> int {
    if i <= 8 {
        0
    } else if i <= 13 {
        1
    } else if i <= 18 {
        2
    } else if i <= 23 {
        3
    } else {
        4
    }
}

/// The hyphenated form: groups of eight, four, four, four and twelve lower-case digits.
pub open spec fn hyphenated(bits: u128) -> Seq<char> {
    Seq::new(
        36,
        |i: int|
            if i == 8 || i == 13 || i == 18 || i == 23 {
                '-'
            } else {
                lower_hex(hex_digit_at(bits, i - hyphens_before(i)))
            },
    )
}

/// `uuid::Uuid::new_v4`: random bits, of which the version digit is 4 and the variant bits
/// are 10. Nothing more holds of every outcome.
#[verifier::external_body]
fn random_v4_bits() -> (bits: u128)
    ensures
        (bits / 0x1000_0000_0000_0000_0000u128) % 16 == 4,
        (bits / 0x4000_0000_0000_0000u128) % 4 == 2,
{
    uuid::Uuid::new_v4().as_u128()
}

/// `Display` of `uuid::Uuid`: the hyphenated form of the identifier.
#[verifier::external_body]
fn hyphenated_text(bits: u128) -> (text: String)
    ensures
        text@ == hyphenated(bits),
{
    uuid::Uuid::from_u128(bits).to_string()
}

impl Uuid {
    /// Whether the version digit is 4 and the variant is the one of RFC 9562.
    pub open spec fn is_v4(self) -> bool {
        &&& (self.bits / 0x1000_0000_0000_0000_0000u128) % 16 == 4
        &&& (self.bits / 0x4000_0000_0000_0000u128) % 4 == 2
    }

    /// A fresh random identifier.
    pub fn new_v4() -> (id: Uuid)
        ensures
            id.is_v4(),
    {
        Uuid { bits: random_v4_bits() }
    }

    /// The hyphenated text of the identifier.
    pub fn to_string(&self) -> (text: String)
        ensures
            text@ == hyphenated(self.bits),
    {
        hyphenated_text(self.bits)
    }
}

/// The identity of a peer: a multihash of its public key.
///
/// `code` names the hash function, `size` is the number of digest bytes, and the digest
/// stands in four big-endian words. In a valid identity the bytes past `size` are zero, so that it
/// has one form only.
#[derive(Clone, Copy, Debug, PartialEq, Eq, Hash, Structural)]
pub struct PeerId {
    pub code: u64,
    pub size: u8,
    pub d0: u128,
    pub d1: u128,
    pub d2: u128,
    pub d3: u128,
}

/// The base-58 text that stands for the peer with the given multihash.
pub uninterp spec fn peer_base58(
    code: u64,
    size: u8,
    d0: u128,
    d1: u128,
    d2: u128,
    d3: u128,
) -> Seq<char>;

/// `libp2p::PeerId::to_base58`, on the peer of the given multihash.
#[verifier::external_body]
fn base58(code: u64, size: u8, d0: u128, d1: u128, d2: u128, d3: u128) -> (text: String)
    requires
        size <= 64,
        code == 0x12 || (code == 0 && size <= 42),
    ensures
        text@ == peer_base58(code, size, d0, d1, d2, d3),
{
    let digest = [d0, d1, d2, d3].map(u128::to_be_bytes).concat();
    let hash = libp2p::multihash::Multihash::<64>::wrap(code, &digest[..size as usize]).unwrap();
    libp2p::PeerId::from_multihash(hash).unwrap().to_base58()
}

/// Whether the bytes of `word` past the first `used` are zero.
pub open spec fn padded(word: u128, used: int) -> bool {
    if used <= 0 {
        word == 0
    } else if used < 16 {
        word as int % vstd::arithmetic::power::pow(256, (16 - used) as nat) == 0
    } else {
        true
    }
}

impl PeerId {
    /// Whether the multihash is one that a peer identity may have: a SHA-256 digest, or an
    /// inlined key of at most 42 bytes, with zeros past its end.
    pub open spec fn valid(self) -> bool {
        &&& self.size <= 64
        &&& self.code == 0x12 || (self.code == 0 && self.size <= 42)
        &&& padded(self.d0, self.size as int)
        &&& padded(self.d1, self.size - 16)
        &&& padded(self.d2, self.size - 32)
        &&& padded(self.d3, self.size - 48)
    }

    /// The base-58 text of the peer.
    pub fn to_base58(&self) -> (text: String)
        requires
            self.valid(),
        ensures
            text@ == peer_base58(self.code, self.size, self.d0, self.d1, self.d2, self.d3),
    {
        base58(self.code, self.size, self.d0, self.d1, self.d2, self.d3)
    }
}

proof fn lemma_digits_give_the_quotient(first: u128, second: u128, k: nat)
    requires
        k <= 32,
        forall|i: int| 0 <= i < 32 ==> #[trigger] hex_digit_at(first, i) == hex_digit_at(second, i),
    ensures
        first as int / vstd::arithmetic::power::pow(16, k) == second as int
            / vstd::arithmetic::power::pow(16, k),
    decreases 32 - k,
{
    lemma_powers(k);
    let a = first as int;
    let b = second as int;
    let p = vstd::arithmetic::power::pow(16, k);
    if k == 32 {
        assert(p == 0x1_0000_0000_0000_0000_0000_0000_0000_0000int) by {
            reveal_with_fuel(vstd::arithmetic::power::pow, 33);
        }
        assert(a / p == 0 && b / p == 0);
    } else {
        lemma_digits_give_the_quotient(first, second, k + 1);
        let q = vstd::arithmetic::power::pow(16, k + 1);
        assert(q == p * 16);
        vstd::arithmetic::div_mod::lemma_div_denominator(a, p, 16);
        vstd::arithmetic::div_mod::lemma_div_denominator(b, p, 16);
        assert(hex_digit_at(first, 31 - k) == hex_digit_at(second, 31 - k));
        vstd::arithmetic::div_mod::lemma_fundamental_div_mod(a / p, 16);
        vstd::arithmetic::div_mod::lemma_fundamental_div_mod(b / p, 16);
    }
}

proof fn lemma_powers(k: nat)
    ensures
        vstd::arithmetic::power::pow(16, k) > 0,
        vstd::arithmetic::power::pow(16, k + 1) == vstd::arithmetic::power::pow(16, k) * 16,
        vstd::arithmetic::power::pow(16, 0) == 1,
{
    reveal(vstd::arithmetic::power::pow);
    vstd::arithmetic::power::lemma_pow_positive(16, k);
    vstd::arithmetic::power::lemma_pow0(16);
    assert(vstd::arithmetic::power::pow(16, k + 1) == 16 * vstd::arithmetic::power::pow(16, k));
}

/// The text of an identifier tells it from every other.
pub proof fn law_identifiers_differ_in_text(first: Uuid, second: Uuid)
    requires
        hyphenated(first.bits) == hyphenated(second.bits),
    ensures
        first == second,
{
    assert forall|i: int| 0 <= i < 32 implies #[trigger] hex_digit_at(first.bits, i)
        == hex_digit_at(second.bits, i) by {
        let at = if i < 8 {
            i
        } else if i < 12 {
            i + 1
        } else if i < 16 {
            i + 2
        } else if i < 20 {
            i + 3
        } else {
            i + 4
        };
        assert(at - hyphens_before(at) == i);
        assert(hyphenated(first.bits)[at] == lower_hex(hex_digit_at(first.bits, i)));
        assert(hyphenated(second.bits)[at] == lower_hex(hex_digit_at(second.bits, i)));
        assert(0 <= hex_digit_at(first.bits, i) < 16);
        assert(0 <= hex_digit_at(second.bits, i) < 16);
    }
    lemma_digits_give_the_quotient(first.bits, second.bits, 0);
    lemma_powers(0);
}

/// Identifiers have a text of 36 characters each, and different ones have different texts.
pub proof fn law_texts_tell_identifiers_apart(
    first: &Uuid,
    second: &Uuid,
    text: String,
    other: String,
)
    requires
        call_ensures(Uuid::to_string, (first,), text),
        call_ensures(Uuid::to_string, (second,), other),
    ensures
        text@.len() == 36,
        text@ == other@ <==> *first == *second,
{
    if text@ == other@ {
        law_identifiers_differ_in_text(*first, *second);
    }
}

} // verus!
