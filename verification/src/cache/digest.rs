//! Content digests: SHA-256.

use crate::text::chars_of;
use crate::values::Value;
use vstd::prelude::*;

verus! {

/// A SHA-256 digest, as eight words.
#[derive(Debug, Clone, Copy, PartialEq, Eq, Structural)]
pub struct Digest {
    pub h0: u32,
    pub h1: u32,
    pub h2: u32,
    pub h3: u32,
    pub h4: u32,
    pub h5: u32,
    pub h6: u32,
    pub h7: u32,
}

impl DeepView for Digest {
    type V = Digest;

    open spec fn deep_view(&self) -> Digest {
        *self
    }
}

impl Value for Digest {
    fn replicate(&self) -> (r: Self) {
        *self
    }

    fn same_value(&self, other: &Self) -> (r: bool) {
        *self == *other
    }
}

/// The round constants.
pub const ROUND_CONSTANTS: [u32; 64] = [
    0x428a2f98, 0x71374491, 0xb5c0fbcf, 0xe9b5dba5,
    0x3956c25b, 0x59f111f1, 0x923f82a4, 0xab1c5ed5,
    0xd807aa98, 0x12835b01, 0x243185be, 0x550c7dc3,
    0x72be5d74, 0x80deb1fe, 0x9bdc06a7, 0xc19bf174,
    0xe49b69c1, 0xefbe4786, 0x0fc19dc6, 0x240ca1cc,
    0x2de92c6f, 0x4a7484aa, 0x5cb0a9dc, 0x76f988da,
    0x983e5152, 0xa831c66d, 0xb00327c8, 0xbf597fc7,
    0xc6e00bf3, 0xd5a79147, 0x06ca6351, 0x14292967,
    0x27b70a85, 0x2e1b2138, 0x4d2c6dfc, 0x53380d13,
    0x650a7354, 0x766a0abb, 0x81c2c92e, 0x92722c85,
    0xa2bfe8a1, 0xa81a664b, 0xc24b8b70, 0xc76c51a3,
    0xd192e819, 0xd6990624, 0xf40e3585, 0x106aa070,
    0x19a4c116, 0x1e376c08, 0x2748774c, 0x34b0bcb5,
    0x391c0cb3, 0x4ed8aa4a, 0x5b9cca4f, 0x682e6ff3,
    0x748f82ee, 0x78a5636f, 0x84c87814, 0x8cc70208,
    0x90befffa, 0xa4506ceb, 0xbef9a3f7, 0xc67178f2,
];

/// The digest before the first block.
pub open spec fn initial() -> Digest {
    Digest {
        h0: 0x6a09e667,
        h1: 0xbb67ae85,
        h2: 0x3c6ef372,
        h3: 0xa54ff53a,
        h4: 0x510e527f,
        h5: 0x9b05688c,
        h6: 0x1f83d9ab,
        h7: 0x5be0cd19,
    }
}

fn initial_digest() -> (r: Digest)
    ensures
        r == initial(),
{
    Digest {
        h0: 0x6a09e667,
        h1: 0xbb67ae85,
        h2: 0x3c6ef372,
        h3: 0xa54ff53a,
        h4: 0x510e527f,
        h5: 0x9b05688c,
        h6: 0x1f83d9ab,
        h7: 0x5be0cd19,
    }
}

/// Each bit from `y` or from `z`, as `x` says.
pub open spec fn choice(x: u32, y: u32, z: u32) -> u32 {
    (x & y) ^ (!x & z)
}

fn choice_of(x: u32, y: u32, z: u32) -> (r: u32)
    ensures
        r == choice(x, y, z),
{
    (x & y) ^ (!x & z)
}

/// Each bit as most of the three have it.
pub open spec fn majority(x: u32, y: u32, z: u32) -> u32 {
    (x & y) ^ (x & z) ^ (y & z)
}

fn majority_of(x: u32, y: u32, z: u32) -> (r: u32)
    ensures
        r == majority(x, y, z),
{
    (x & y) ^ (x & z) ^ (y & z)
}

/// The first mixing of a working word.
pub open spec fn big_sigma0(x: u32) -> u32 {
    ((x >> 2u32) | (x << 30u32)) ^ ((x >> 13u32) | (x << 19u32)) ^ ((x >> 22u32) | (x << 10u32))
}

fn big_sigma0_of(x: u32) -> (r: u32)
    ensures
        r == big_sigma0(x),
{
    ((x >> 2u32) | (x << 30u32)) ^ ((x >> 13u32) | (x << 19u32)) ^ ((x >> 22u32) | (x << 10u32))
}

/// The second mixing of a working word.
pub open spec fn big_sigma1(x: u32) -> u32 {
    ((x >> 6u32) | (x << 26u32)) ^ ((x >> 11u32) | (x << 21u32)) ^ ((x >> 25u32) | (x << 7u32))
}

fn big_sigma1_of(x: u32) -> (r: u32)
    ensures
        r == big_sigma1(x),
{
    ((x >> 6u32) | (x << 26u32)) ^ ((x >> 11u32) | (x << 21u32)) ^ ((x >> 25u32) | (x << 7u32))
}

/// The first mixing of a scheduled word.
pub open spec fn small_sigma0(x: u32) -> u32 {
    ((x >> 7u32) | (x << 25u32)) ^ ((x >> 18u32) | (x << 14u32)) ^ (x >> 3u32)
}

fn small_sigma0_of(x: u32) -> (r: u32)
    ensures
        r == small_sigma0(x),
{
    ((x >> 7u32) | (x << 25u32)) ^ ((x >> 18u32) | (x << 14u32)) ^ (x >> 3u32)
}

/// The second mixing of a scheduled word.
pub open spec fn small_sigma1(x: u32) -> u32 {
    ((x >> 17u32) | (x << 15u32)) ^ ((x >> 19u32) | (x << 13u32)) ^ (x >> 10u32)
}

fn small_sigma1_of(x: u32) -> (r: u32)
    ensures
        r == small_sigma1(x),
{
    ((x >> 17u32) | (x << 15u32)) ^ ((x >> 19u32) | (x << 13u32)) ^ (x >> 10u32)
}

/// How many blocks of 64 bytes a message of `len` bytes is padded to.
pub open spec fn block_count(len: nat) -> nat {
    (len + 72) / 64
}

/// Byte `k` of the padded message: the message, one set bit, zeros, and the length in bits.
pub open spec fn padded_byte(message: Seq<u8>, k: nat) -> u8 {
    let total = 64 * block_count(message.len());
    if k < message.len() {
        message[k as int]
    } else if k == message.len() {
        0x80
    } else if k + 8 < total {
        0
    } else {
        length_byte(message.len(), (k + 8 - total) as nat)
    }
}

/// Byte `i` of the length in bits, the most significant first.
pub open spec fn length_byte(len: nat, i: nat) -> u8 {
    let bits = (len * 8) % 0x1_0000_0000_0000_0000;
    if i == 0 {
        (bits / 0x100_0000_0000_0000 % 256) as u8
    } else if i == 1 {
        (bits / 0x1_0000_0000_0000 % 256) as u8
    } else if i == 2 {
        (bits / 0x100_0000_0000 % 256) as u8
    } else if i == 3 {
        (bits / 0x1_0000_0000 % 256) as u8
    } else if i == 4 {
        (bits / 0x100_0000 % 256) as u8
    } else if i == 5 {
        (bits / 0x1_0000 % 256) as u8
    } else if i == 6 {
        (bits / 0x100 % 256) as u8
    } else {
        (bits % 256) as u8
    }
}

fn length_byte_of(len: u128, i: u128) -> (r: u8)
    requires
        len <= u64::MAX,
    ensures
        r == length_byte(len as nat, i as nat),
{
    let bits: u128 = (len * 8) % 0x1_0000_0000_0000_0000;
    if i == 0 {
        (bits / 0x100_0000_0000_0000 % 256) as u8
    } else if i == 1 {
        (bits / 0x1_0000_0000_0000 % 256) as u8
    } else if i == 2 {
        (bits / 0x100_0000_0000 % 256) as u8
    } else if i == 3 {
        (bits / 0x1_0000_0000 % 256) as u8
    } else if i == 4 {
        (bits / 0x100_0000 % 256) as u8
    } else if i == 5 {
        (bits / 0x1_0000 % 256) as u8
    } else if i == 6 {
        (bits / 0x100 % 256) as u8
    } else {
        (bits % 256) as u8
    }
}

fn padded_byte_of(message: &[u8], k: u128) -> (r: u8)
    requires
        k < 64 * block_count(message@.len()),
    ensures
        r == padded_byte(message@, k as nat),
{
    let len: u128 = message.len() as u128;
    let total: u128 = 64 * ((len + 72) / 64);
    if k < len {
        message[k as usize]
    } else if k == len {
        0x80
    } else if k + 8 < total {
        0
    } else {
        length_byte_of(len, k + 8 - total)
    }
}

/// Word `t` of the message schedule of a block.
pub open spec fn scheduled(message: Seq<u8>, block: nat, t: nat) -> u32
    decreases t,
{
    if t < 16 {
        let at = 64 * block + 4 * t;
        word_of(
            padded_byte(message, at),
            padded_byte(message, at + 1),
            padded_byte(message, at + 2),
            padded_byte(message, at + 3),
        )
    } else {
        small_sigma1(scheduled(message, block, (t - 2) as nat)).wrapping_add(
            scheduled(message, block, (t - 7) as nat),
        ).wrapping_add(small_sigma0(scheduled(message, block, (t - 15) as nat))).wrapping_add(
            scheduled(message, block, (t - 16) as nat),
        )
    }
}

/// The word of four bytes, the most significant first.
pub open spec fn word_of(a: u8, b: u8, c: u8, d: u8) -> u32 {
    (((a as u32) << 24u32) | ((b as u32) << 16u32) | ((c as u32) << 8u32) | (d as u32))
}

fn schedule(message: &[u8], block: u128) -> (r: Vec<u32>)
    requires
        block < block_count(message@.len()),
    ensures
        r@.len() == 64,
        forall|t: int|
            0 <= t < 64 ==> #[trigger] r@[t] == scheduled(message@, block as nat, t as nat),
{
    let len: usize = message.len();
    assert(len == message@.len());
    let mut words: Vec<u32> = Vec::new();
    let mut t: usize = 0;
    while t < 64
        invariant
            t <= 64,
            words@.len() == t,
            len == message@.len(),
            block < block_count(message@.len()),
            forall|i: int|
                0 <= i < t ==> #[trigger] words@[i] == scheduled(message@, block as nat, i as nat),
        decreases 64 - t,
    {
        let word: u32 = if t < 16 {
            let at: u128 = 64 * block + 4 * (t as u128);
            let a = padded_byte_of(message, at);
            let b = padded_byte_of(message, at + 1);
            let c = padded_byte_of(message, at + 2);
            let d = padded_byte_of(message, at + 3);
            ((a as u32) << 24u32) | ((b as u32) << 16u32) | ((c as u32) << 8u32) | (d as u32)
        } else {
            small_sigma1_of(words[t - 2]).wrapping_add(words[t - 7]).wrapping_add(
                small_sigma0_of(words[t - 15]),
            ).wrapping_add(words[t - 16])
        };
        words.push(word);
        t = t + 1;
    }
    words
}

/// The working words after one more round.
pub open spec fn round(s: Digest, constant: u32, word: u32) -> Digest {
    let t1 = s.h7.wrapping_add(big_sigma1(s.h4)).wrapping_add(
        choice(s.h4, s.h5, s.h6),
    ).wrapping_add(constant).wrapping_add(word);
    let t2 = big_sigma0(s.h0).wrapping_add(majority(s.h0, s.h1, s.h2));
    Digest {
        h0: t1.wrapping_add(t2),
        h1: s.h0,
        h2: s.h1,
        h3: s.h2,
        h4: s.h3.wrapping_add(t1),
        h5: s.h4,
        h6: s.h5,
        h7: s.h6,
    }
}

fn next_round(s: Digest, constant: u32, word: u32) -> (r: Digest)
    ensures
        r == round(s, constant, word),
{
    let t1: u32 = s.h7.wrapping_add(big_sigma1_of(s.h4)).wrapping_add(
        choice_of(s.h4, s.h5, s.h6),
    ).wrapping_add(constant).wrapping_add(word);
    let t2: u32 = big_sigma0_of(s.h0).wrapping_add(majority_of(s.h0, s.h1, s.h2));
    Digest {
        h0: t1.wrapping_add(t2),
        h1: s.h0,
        h2: s.h1,
        h3: s.h2,
        h4: s.h3.wrapping_add(t1),
        h5: s.h4,
        h6: s.h5,
        h7: s.h6,
    }
}

/// The working words after `t` rounds on a block.
pub open spec fn rounds(message: Seq<u8>, block: nat, start: Digest, t: nat) -> Digest
    decreases t,
{
    if t == 0 {
        start
    } else {
        round(
            rounds(message, block, start, (t - 1) as nat),
            ROUND_CONSTANTS@[t - 1],
            scheduled(message, block, (t - 1) as nat),
        )
    }
}

/// The sum of two digests, word by word.
pub open spec fn summed(a: Digest, b: Digest) -> Digest {
    Digest {
        h0: a.h0.wrapping_add(b.h0),
        h1: a.h1.wrapping_add(b.h1),
        h2: a.h2.wrapping_add(b.h2),
        h3: a.h3.wrapping_add(b.h3),
        h4: a.h4.wrapping_add(b.h4),
        h5: a.h5.wrapping_add(b.h5),
        h6: a.h6.wrapping_add(b.h6),
        h7: a.h7.wrapping_add(b.h7),
    }
}

/// The digest after `n` blocks.
pub open spec fn digest_of_blocks(message: Seq<u8>, n: nat) -> Digest
    decreases n,
{
    if n == 0 {
        initial()
    } else {
        let before = digest_of_blocks(message, (n - 1) as nat);
        summed(before, rounds(message, (n - 1) as nat, before, 64))
    }
}

/// The SHA-256 digest of a message.
pub open spec fn sha256(message: Seq<u8>) -> Digest {
    digest_of_blocks(message, block_count(message.len()))
}

fn compress(message: &[u8], block: u128, before: Digest) -> (r: Digest)
    requires
        block < block_count(message@.len()),
    ensures
        r == summed(before, rounds(message@, block as nat, before, 64)),
{
    let words = schedule(message, block);
    let constants = ROUND_CONSTANTS;
    let mut s = before;
    let mut t: usize = 0;
    while t < 64
        invariant
            t <= 64,
            words@.len() == 64,
            constants@ == ROUND_CONSTANTS@,
            forall|i: int|
                0 <= i < 64 ==> #[trigger] words@[i] == scheduled(
                    message@,
                    block as nat,
                    i as nat,
                ),
            s == rounds(message@, block as nat, before, t as nat),
        decreases 64 - t,
    {
        s = next_round(s, constants[t], words[t]);
        t = t + 1;
    }
    Digest {
        h0: before.h0.wrapping_add(s.h0),
        h1: before.h1.wrapping_add(s.h1),
        h2: before.h2.wrapping_add(s.h2),
        h3: before.h3.wrapping_add(s.h3),
        h4: before.h4.wrapping_add(s.h4),
        h5: before.h5.wrapping_add(s.h5),
        h6: before.h6.wrapping_add(s.h6),
        h7: before.h7.wrapping_add(s.h7),
    }
}

/// The character of a hexadecimal digit.
pub open spec fn hex_digit(d: u32) -> char {
    if d < 10 {
        (48 + d) as char
    } else {
        (87 + d) as char
    }
}

/// The digit of a hexadecimal character, in lower case.
pub open spec fn hex_value(c: char) -> Option<u32> {
    if '0' <= c && c <= '9' {
        Some((c as u32 - 48) as u32)
    } else if 'a' <= c && c <= 'f' {
        Some((c as u32 - 87) as u32)
    } else {
        None
    }
}

/// The eight hexadecimal digits of a word.
pub open spec fn hex_of_word(w: u32) -> Seq<char> {
    seq![
        hex_digit(w / 0x1000_0000),
        hex_digit(w / 0x100_0000 % 16),
        hex_digit(w / 0x10_0000 % 16),
        hex_digit(w / 0x1_0000 % 16),
        hex_digit(w / 0x1000 % 16),
        hex_digit(w / 0x100 % 16),
        hex_digit(w / 0x10 % 16),
        hex_digit(w % 16),
    ]
}

/// The hexadecimal form of a digest.
pub open spec fn hex(d: Digest) -> Seq<char> {
    hex_of_word(d.h0) + hex_of_word(d.h1) + hex_of_word(d.h2) + hex_of_word(d.h3) + hex_of_word(
        d.h4,
    ) + hex_of_word(d.h5) + hex_of_word(d.h6) + hex_of_word(d.h7)
}

fn push_hex_digit(out: &mut String, d: u32)
    requires
        d < 16,
    ensures
        final(out)@ == old(out)@.push(hex_digit(d)),
{
    if d < 10 {
        out.push((48 + d as u8) as char);
    } else {
        out.push((87 + d as u8) as char);
    }
}

fn push_hex_word(out: &mut String, w: u32)
    ensures
        final(out)@ == old(out)@ + hex_of_word(w),
{
    let ghost front = out@;
    push_hex_digit(out, w / 0x1000_0000);
    push_hex_digit(out, w / 0x100_0000 % 16);
    push_hex_digit(out, w / 0x10_0000 % 16);
    push_hex_digit(out, w / 0x1_0000 % 16);
    push_hex_digit(out, w / 0x1000 % 16);
    push_hex_digit(out, w / 0x100 % 16);
    push_hex_digit(out, w / 0x10 % 16);
    push_hex_digit(out, w % 16);
    assert(out@ =~= front + hex_of_word(w));
}

fn hex_value_of(c: char) -> (r: Option<u32>)
    ensures
        r == hex_value(c),
        r matches Some(d) ==> d < 16,
{
    if '0' <= c && c <= '9' {
        Some(c as u32 - 48)
    } else if 'a' <= c && c <= 'f' {
        Some(c as u32 - 87)
    } else {
        None
    }
}

/// The value of hexadecimal digits, if all of them are such.
pub open spec fn hex_number(s: Seq<char>) -> Option<nat>
    decreases s.len(),
{
    if s.len() == 0 {
        Some(0)
    } else {
        match (hex_number(s.drop_last()), hex_value(s.last())) {
            (Some(n), Some(d)) => Some(16 * n + d as nat),
            _ => None,
        }
    }
}

/// The digest that 64 hexadecimal digits stand for.
pub open spec fn digest_of_hex(s: Seq<char>) -> Option<Digest> {
    if s.len() != 64 || hex_number(s) is None {
        None
    } else {
        Some(
            Digest {
                h0: hex_number(s.subrange(0, 8))->0 as u32,
                h1: hex_number(s.subrange(8, 16))->0 as u32,
                h2: hex_number(s.subrange(16, 24))->0 as u32,
                h3: hex_number(s.subrange(24, 32))->0 as u32,
                h4: hex_number(s.subrange(32, 40))->0 as u32,
                h5: hex_number(s.subrange(40, 48))->0 as u32,
                h6: hex_number(s.subrange(48, 56))->0 as u32,
                h7: hex_number(s.subrange(56, 64))->0 as u32,
            },
        )
    }
}

/// Digits are hexadecimal exactly when each of them is.
proof fn hex_number_parts(s: Seq<char>)
    ensures
        hex_number(s) is Some <==> forall|i: int|
            0 <= i < s.len() ==> hex_value(#[trigger] s[i]) is Some,
    decreases s.len(),
{
    if s.len() > 0 {
        hex_number_parts(s.drop_last());
        if hex_number(s) is Some {
            assert forall|i: int| 0 <= i < s.len() implies hex_value(#[trigger] s[i]) is Some by {
                if i < s.len() - 1 {
                    assert(s.drop_last()[i] == s[i]);
                }
            }
        } else if hex_value(s.last()) is Some {
            let i = choose|i: int|
                0 <= i < s.drop_last().len() && hex_value(#[trigger] s.drop_last()[i]) is None;
            assert(hex_value(s[i]) is None);
        } else {
            assert(hex_value(s[s.len() - 1]) is None);
        }
    }
}

/// What keeps a text from being a digest.
#[derive(Debug, Clone, Copy, PartialEq, Eq, Structural)]
pub struct DigestError;

fn word_at(chars: &Vec<char>, from: usize) -> (r: Option<u32>)
    requires
        from + 8 <= chars@.len(),
    ensures
        match r {
            Some(w) => hex_number(chars@.subrange(from as int, from + 8)) == Some(w as nat),
            None => hex_number(chars@.subrange(from as int, from + 8)) is None,
        },
{
    let ghost part = chars@.subrange(from as int, from + 8);
    let end: usize = chars.len();
    let mut value: u64 = 0;
    let ghost mut limit: nat = 1;
    let mut i: usize = 0;
    while i < 8
        invariant
            i <= 8,
            end == chars@.len(),
            from + 8 <= end,
            part == chars@.subrange(from as int, from + 8),
            hex_number(part.take(i as int)) == Some(value as nat),
            value < limit,
            i == 0 ==> limit == 1,
            i == 1 ==> limit == 0x10,
            i == 2 ==> limit == 0x100,
            i == 3 ==> limit == 0x1000,
            i == 4 ==> limit == 0x1_0000,
            i == 5 ==> limit == 0x10_0000,
            i == 6 ==> limit == 0x100_0000,
            i == 7 ==> limit == 0x1000_0000,
            i == 8 ==> limit == 0x1_0000_0000,
        decreases 8 - i,
    {
        assert(part[i as int] == chars@[from + i]);
        assert(part.take(i + 1).drop_last() =~= part.take(i as int));
        match hex_value_of(chars[from + i]) {
            None => {
                proof {
                    hex_number_parts(part);
                    assert(hex_value(part[i as int]) is None);
                }
                return None;
            },
            Some(d) => {
                value = 16 * value + d as u64;
                proof {
                    limit = 16 * limit;
                }
            },
        }
        i = i + 1;
    }
    assert(part.take(i as int) =~= part);
    Some(value as u32)
}

impl Digest {
    /// The digest of some bytes.
    #[must_use]
    pub fn of_bytes(bytes: &[u8]) -> (r: Digest)
        ensures
            r == sha256(bytes@),
    {
        let len: usize = bytes.len();
        let count: u128 = (len as u128 + 72) / 64;
        let mut digest = initial_digest();
        let mut block: u128 = 0;
        while block < count
            invariant
                block <= count,
                count == block_count(bytes@.len()),
                digest == digest_of_blocks(bytes@, block as nat),
            decreases count - block,
        {
            digest = compress(bytes, block, digest);
            block = block + 1;
        }
        digest
    }

    /// The digest in hexadecimal.
    #[must_use]
    pub fn to_hex(self) -> (r: String)
        ensures
            r@ == hex(self),
    {
        let mut out = String::new();
        push_hex_word(&mut out, self.h0);
        push_hex_word(&mut out, self.h1);
        push_hex_word(&mut out, self.h2);
        push_hex_word(&mut out, self.h3);
        push_hex_word(&mut out, self.h4);
        push_hex_word(&mut out, self.h5);
        push_hex_word(&mut out, self.h6);
        push_hex_word(&mut out, self.h7);
        assert(out@ =~= hex(self));
        out
    }

    /// The digest with this hexadecimal form.
    pub fn from_hex(text: &str) -> (r: Result<Digest, DigestError>)
        ensures
            match r {
                Ok(d) => digest_of_hex(text@) == Some(d),
                Err(_) => digest_of_hex(text@) is None,
            },
    {
        let chars = chars_of(text);
        if chars.len() != 64 {
            return Err(DigestError);
        }
        proof {
            hex_number_parts(text@);
            hex_number_parts(text@.subrange(0, 8));
            hex_number_parts(text@.subrange(8, 16));
            hex_number_parts(text@.subrange(16, 24));
            hex_number_parts(text@.subrange(24, 32));
            hex_number_parts(text@.subrange(32, 40));
            hex_number_parts(text@.subrange(40, 48));
            hex_number_parts(text@.subrange(48, 56));
            hex_number_parts(text@.subrange(56, 64));
        }
        match (
            word_at(&chars, 0),
            word_at(&chars, 8),
            word_at(&chars, 16),
            word_at(&chars, 24),
            word_at(&chars, 32),
            word_at(&chars, 40),
            word_at(&chars, 48),
            word_at(&chars, 56),
        ) {
            (
                Some(h0),
                Some(h1),
                Some(h2),
                Some(h3),
                Some(h4),
                Some(h5),
                Some(h6),
                Some(h7),
            ) => {
                proof {
                    assert forall|i: int| 0 <= i < 64 implies hex_value(
                        #[trigger] text@[i],
                    ) is Some by {
                        if i < 8 {
                            assert(hex_value(text@.subrange(0, 8)[i]) is Some);
                        } else if i < 16 {
                            assert(hex_value(text@.subrange(8, 16)[i - 8]) is Some);
                        } else if i < 24 {
                            assert(hex_value(text@.subrange(16, 24)[i - 16]) is Some);
                        } else if i < 32 {
                            assert(hex_value(text@.subrange(24, 32)[i - 24]) is Some);
                        } else if i < 40 {
                            assert(hex_value(text@.subrange(32, 40)[i - 32]) is Some);
                        } else if i < 48 {
                            assert(hex_value(text@.subrange(40, 48)[i - 40]) is Some);
                        } else if i < 56 {
                            assert(hex_value(text@.subrange(48, 56)[i - 48]) is Some);
                        } else {
                            assert(hex_value(text@.subrange(56, 64)[i - 56]) is Some);
                        }
                    }
                }
                Ok(Digest { h0, h1, h2, h3, h4, h5, h6, h7 })
            },
            _ => {
                proof {
                    if hex_number(text@) is Some {
                        parts_of_hex_are_hex(text@);
                    }
                }
                Err(DigestError)
            },
        }
    }
}

/// If the whole is hexadecimal, so is each part.
proof fn parts_of_hex_are_hex(s: Seq<char>)
    requires
        s.len() == 64,
        hex_number(s) is Some,
    ensures
        forall|from: int|
            0 <= from && from + 8 <= 64 ==> hex_number(#[trigger] s.subrange(from, from + 8)) is Some,
{
    hex_number_parts(s);
    assert forall|from: int| 0 <= from && from + 8 <= 64 implies hex_number(
        #[trigger] s.subrange(from, from + 8),
    ) is Some by {
        let part = s.subrange(from, from + 8);
        hex_number_parts(part);
        assert forall|i: int| 0 <= i < part.len() implies hex_value(#[trigger] part[i]) is Some by {
            assert(part[i] == s[from + i]);
        }
    }
}

} // verus!
