//! Time steps, HMAC message blocks, dynamic truncation and code rendering.

use vstd::prelude::*;

use crate::primitives::{hmac_sha1, hmac_sha1_of};

verus! {

/// Why a one-time code could not be produced.
#[derive(Debug, Clone, Copy, PartialEq, Eq, Structural)]
pub enum GenerationError {
    /// The current time precedes the configured epoch.
    ClockBeforeEpoch,
    /// The key is empty, or the HMAC primitive refused it.
    InvalidKeyLength,
}

/// `10^n`.
pub open spec fn pow10(n: nat) -> nat
    decreases n,
{
    if n == 0 {
        1
    } else {
        10 * pow10((n - 1) as nat)
    }
}

/// `256^n`.
pub open spec fn pow256(n: nat) -> nat
    decreases n,
{
    if n == 0 {
        1
    } else {
        256 * pow256((n - 1) as nat)
    }
}

/// The time-step counter `T = floor((now - epoch) / interval)`.
pub open spec fn time_step(now: u64, epoch: u64, interval: u64) -> int {
    (now - epoch) / (interval as int)
}

/// The counter as an 8-byte big-endian block: byte `i` is the base-256 digit of weight `256^(7-i)`.
pub open spec fn counter_block(t: u64) -> Seq<u8> {
    Seq::new(8, |i: int| ((t as nat / pow256((7 - i) as nat)) % 256) as u8)
}

/// The four bytes of `d` starting at `i`, read as a big-endian unsigned integer.
pub open spec fn be_u32_at(d: Seq<u8>, i: int) -> nat {
    (d[i] * 16777216 + d[i + 1] * 65536 + d[i + 2] * 256 + d[i + 3]) as nat
}

/// Dynamic truncation of a 20-byte digest: the offset is the low nibble of the last
/// byte, and the most significant bit of the selected word is cleared.
pub open spec fn truncated(d: Seq<u8>) -> nat {
    be_u32_at(d, (d[19] % 16) as int) % 0x8000_0000
}

/// The code that a digest yields for a given number of decimal digits.
pub open spec fn code_of(d: Seq<u8>, digits: nat) -> nat {
    truncated(d) % pow10(digits)
}

/// The TOTP value: the code of the HMAC-SHA1 tag of the time-step counter block.
pub open spec fn totp_code(key: Seq<u8>, now: u64, digits: nat, epoch: u64, interval: u64) -> nat {
    code_of(hmac_sha1_of(key, counter_block(time_step(now, epoch, interval) as u64)), digits)
}

/// What `generate` returns for its inputs.
pub open spec fn generate_result(key: Seq<u8>, now: u64, digits: nat, epoch: u64, interval: u64) -> Result<u32, GenerationError> {
    if now < epoch {
        Err(GenerationError::ClockBeforeEpoch)
    } else if key.len() == 0 {
        Err(GenerationError::InvalidKeyLength)
    } else {
        Ok(totp_code(key, now, digits, epoch, interval) as u32)
    }
}

pub proof fn lemma_pow10_positive(n: nat)
    ensures
        pow10(n) >= 1,
    decreases n,
{
    if n > 0 {
        lemma_pow10_positive((n - 1) as nat);
    }
}

pub proof fn lemma_pow10_monotone(m: nat, n: nat)
    requires
        m <= n,
    ensures
        pow10(m) <= pow10(n),
    decreases n - m,
{
    if m < n {
        lemma_pow10_monotone(m, (n - 1) as nat);
        lemma_pow10_positive((n - 1) as nat);
    }
}

/// Clearing the top bit of a 32-bit word is the same as reducing it modulo `2^31`.
pub proof fn lemma_mask_is_mod(x: u32)
    ensures
        x & 0x7fff_ffff == x % 0x8000_0000,
{
    assert(x & 0x7fff_ffff == x % 0x8000_0000) by (bit_vector);
}

/// Computes `10^n` for exponents that fit in 64 bits.
pub fn pow10_u64(n: u32) -> (r: u64)
    requires
        n <= 19,
    ensures
        r == pow10(n as nat),
{
    let mut r: u64 = 1;
    let mut i: u32 = 0;
    while i < n
        invariant
            i <= n <= 19,
            r == pow10(i as nat),
        decreases n - i,
    {
        proof {
            lemma_pow10_monotone((i + 1) as nat, 19);
            reveal_with_fuel(pow10, 20);
        }
        r = r * 10;
        i = i + 1;
    }
    r
}

/// Encodes the time-step counter as the 8-byte big-endian HMAC message.
pub fn counter_to_block(t: u64) -> (r: [u8; 8])
    ensures
        r@ == counter_block(t),
{
    let r: [u8; 8] = [
        ((t / 0x100_0000_0000_0000) % 256) as u8,
        ((t / 0x1_0000_0000_0000) % 256) as u8,
        ((t / 0x100_0000_0000) % 256) as u8,
        ((t / 0x1_0000_0000) % 256) as u8,
        ((t / 0x100_0000) % 256) as u8,
        ((t / 0x1_0000) % 256) as u8,
        ((t / 0x100) % 256) as u8,
        (t % 256) as u8,
    ];
    proof {
        reveal_with_fuel(pow256, 8);
        assert(pow256(0) == 1);
        assert(pow256(1) == 0x100);
        assert(pow256(2) == 0x1_0000);
        assert(pow256(3) == 0x100_0000);
        assert(pow256(4) == 0x1_0000_0000);
        assert(pow256(5) == 0x100_0000_0000);
        assert(pow256(6) == 0x1_0000_0000_0000);
        assert(pow256(7) == 0x100_0000_0000_0000);
        vstd::arithmetic::div_mod::lemma_div_basics(t as int);
        let c = counter_block(t);
        assert(r@[0] == c[0]);
        assert(r@[1] == c[1]);
        assert(r@[2] == c[2]);
        assert(r@[3] == c[3]);
        assert(r@[4] == c[4]);
        assert(r@[5] == c[5]);
        assert(r@[6] == c[6]);
        assert(r@[7] == c[7]);
        assert(r@ =~= c);
    }
    r
}

/// Dynamic truncation of an HMAC-SHA1 digest to a 31-bit value.
pub fn dynamic_truncate(d: &[u8; 20]) -> (r: u32)
    ensures
        r == truncated(d@),
        r < 0x8000_0000,
{
    let last: u8 = d[19];
    let off = (last & 0x0f) as usize;
    assert(last & 0x0f == last % 16) by (bit_vector);
    let v: u32 = (d[off] as u32) * 16777216 + (d[off + 1] as u32) * 65536 + (d[off + 2] as u32)
        * 256 + (d[off + 3] as u32);
    proof {
        lemma_mask_is_mod(v);
    }
    v & 0x7fff_ffff
}

/// The code for a digest: its dynamic truncation reduced modulo `10^digits`.
pub fn code_from_digest(d: &[u8; 20], digits: u32) -> (r: u32)
    ensures
        r == code_of(d@, digits as nat),
        r < pow10(digits as nat),
{
    let t = dynamic_truncate(d);
    if digits >= 10 {
        proof {
            lemma_pow10_monotone(10, digits as nat);
            reveal_with_fuel(pow10, 11);
            assert(pow10(10) == 10_000_000_000);
            vstd::arithmetic::div_mod::lemma_small_mod(t as nat, pow10(digits as nat));
        }
        t
    } else {
        let p = pow10_u64(digits);
        proof {
            lemma_pow10_positive(digits as nat);
            vstd::arithmetic::div_mod::lemma_mod_bound(t as int, p as int);
            vstd::arithmetic::div_mod::lemma_mod_decreases(t as nat, p as nat);
        }
        ((t as u64) % p) as u32
    }
}

/// The decimal digit character for `d < 10`.
pub open spec fn digit_char(d: nat) -> char {
    if d == 0 { '0' } else if d == 1 { '1' } else if d == 2 { '2' } else if d == 3 { '3' }
    else if d == 4 { '4' } else if d == 5 { '5' } else if d == 6 { '6' } else if d == 7 { '7' }
    else if d == 8 { '8' } else { '9' }
}

/// `n` written in exactly `w` decimal digits, with leading zeros: character `i`
/// is the digit of weight `10^(w-1-i)`.
pub open spec fn padded_decimal(n: nat, w: nat) -> Seq<char> {
    Seq::new(w, |i: int| digit_char((n / pow10((w - 1 - i) as nat)) % 10))
}

fn digit_str(d: u64) -> (r: &'static str)
    requires
        d < 10,
    ensures
        r@ == seq![digit_char(d as nat)],
{
    proof {
        reveal_strlit("0");
        reveal_strlit("1");
        reveal_strlit("2");
        reveal_strlit("3");
        reveal_strlit("4");
        reveal_strlit("5");
        reveal_strlit("6");
        reveal_strlit("7");
        reveal_strlit("8");
        reveal_strlit("9");
    }
    if d == 0 { "0" } else if d == 1 { "1" } else if d == 2 { "2" } else if d == 3 { "3" }
    else if d == 4 { "4" } else if d == 5 { "5" } else if d == 6 { "6" } else if d == 7 { "7" }
    else if d == 8 { "8" } else { "9" }
}

/// Renders a code as exactly `digits` decimal characters, with leading zeros.
pub fn render_code(code: u32, digits: u32) -> (r: String)
    requires
        digits <= 19,
    ensures
        r@ == padded_decimal(code as nat, digits as nat),
        r@.len() == digits,
{
    let mut s = String::new();
    let mut i: u32 = 0;
    while i < digits
        invariant
            i <= digits <= 19,
            s@ == padded_decimal(code as nat, digits as nat).take(i as int),
        decreases digits - i,
    {
        let p = pow10_u64(digits - 1 - i);
        proof {
            lemma_pow10_positive((digits - 1 - i) as nat);
        }
        let d: u64 = (code as u64 / p) % 10;
        s.append(digit_str(d));
        proof {
            assert(s@ =~= padded_decimal(code as nat, digits as nat).take(i + 1));
        }
        i = i + 1;
    }
    proof {
        assert(s@ =~= padded_decimal(code as nat, digits as nat));
    }
    s
}

/// A code stays the same from the first second of a time step to its last.
pub proof fn lemma_code_constant_within_step(
    key: Seq<u8>,
    now: u64,
    digits: nat,
    epoch: u64,
    interval: u64,
)
    requires
        interval > 0,
        now >= epoch,
        (now - epoch) % (interval as int) == 0,
        now + interval - 1 <= u64::MAX,
    ensures
        time_step((now + interval - 1) as u64, epoch, interval) == time_step(now, epoch, interval),
        generate_result(key, (now + interval - 1) as u64, digits, epoch, interval)
            == generate_result(key, now, digits, epoch, interval),
{
    let x: int = now - epoch;
    let n: int = interval as int;
    vstd::arithmetic::div_mod::lemma_fundamental_div_mod(x, n);
    let q = x / n;
    assert(x == n * q);
    vstd::arithmetic::div_mod::lemma_div_multiples_vanish_fancy(q, n - 1, n);
    assert((n * q + (n - 1)) / n == q);
    assert(x + n - 1 == n * q + (n - 1));
}

/// The time-step counter advances by exactly one every `interval` seconds.
pub proof fn lemma_step_advances(now: u64, epoch: u64, interval: u64)
    requires
        interval > 0,
        now >= epoch,
        now + interval <= u64::MAX,
    ensures
        time_step((now + interval) as u64, epoch, interval) == time_step(now, epoch, interval) + 1,
{
    let x: int = now - epoch;
    let n: int = interval as int;
    vstd::arithmetic::div_mod::lemma_div_plus_one(x, n);
    assert((now + interval) as u64 - epoch == x + n);
}

/// A six-digit code is always below one million.
pub proof fn lemma_six_digit_range(key: Seq<u8>, now: u64, epoch: u64, interval: u64)
    ensures
        generate_result(key, now, 6, epoch, interval) matches Ok(c) ==> 0 <= c < 1_000_000,
{
    reveal_with_fuel(pow10, 7);
    assert(pow10(6) == 1_000_000);
    let d = hmac_sha1_of(key, counter_block(time_step(now, epoch, interval) as u64));
    assert(code_of(d, 6) < 1_000_000);
}

/// Computes the TOTP code for `key` at Unix time `now`, with `digits` decimal
/// digits, counting `interval`-second steps from `epoch`.
pub fn generate(key: &[u8], now: u64, digits: u32, epoch: u64, interval: u64) -> (r: Result<u32, GenerationError>)
    requires
        interval > 0,
    ensures
        r == generate_result(key@, now, digits as nat, epoch, interval),
        r is Ok ==> r->Ok_0 < pow10(digits as nat),
        r == Err::<u32, GenerationError>(GenerationError::ClockBeforeEpoch) <==> now < epoch,
{
    if now < epoch {
        return Err(GenerationError::ClockBeforeEpoch);
    }
    if key.len() == 0 {
        return Err(GenerationError::InvalidKeyLength);
    }
    let t: u64 = (now - epoch) / interval;
    let block = counter_to_block(t);
    match hmac_sha1(key, &block) {
        Ok(tag) => Ok(code_from_digest(&tag, digits)),
        Err(_) => Err(GenerationError::InvalidKeyLength),
    }
}

} // verus!
