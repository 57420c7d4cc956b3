//! The Internet checksum (RFC 1071) used by the ICMP, IPv4 and TCP headers.
use vstd::prelude::*;

verus! {

/// The big-endian 16-bit word at byte `i`.
pub open spec fn word_at(data: Seq<u8>, i: int) -> nat {
    data[i] as nat * 256 + data[i + 1] as nat
}

/// Sum of the first `k` big-endian words.
pub open spec fn pair_sum(data: Seq<u8>, k: nat) -> nat
    decreases k,
{
    if k == 0 {
        0
    } else {
        pair_sum(data, (k - 1) as nat) + word_at(data, 2 * (k - 1))
    }
}

/// Sum of all 16-bit words; an odd last byte counts as the high half of a word.
pub open spec fn word_total(data: Seq<u8>) -> nat {
    pair_sum(data, data.len() / 2) + if data.len() % 2 == 1 {
        data.last() as nat * 256
    } else {
        0
    }
}

pub proof fn lemma_fold_step(x: nat)
    requires
        x >= 65536,
    ensures
        x % 65536 + x / 65536 < x,
        (x % 65536 + x / 65536) % 65535 == x % 65535,
        x % 65536 + x / 65536 > 0,
{
    let q = x / 65536;
    let r = x % 65536;
    assert(x == 65536 * q + r && q >= 1 && r < 65536) by (nonlinear_arith)
        requires
            x >= 65536,
            q == x / 65536,
            r == x % 65536,
    ;
    assert((r + q) % 65535 == (65536 * q + r) % 65535) by (nonlinear_arith)
        requires
            q >= 1,
            r < 65536,
    {
        assert(65536 * q + r == 65535 * q + (q + r));
        vstd::arithmetic::div_mod::lemma_mod_multiples_vanish(q as int, (q + r) as int, 65535);
    }
}

/// End-around-carry folding of a sum into 16 bits.
pub open spec fn fold16(x: nat) -> nat
    decreases x,
{
    if x < 65536 {
        x
    } else {
        proof {
            lemma_fold_step(x);
        }
        fold16(x % 65536 + x / 65536)
    }
}

/// The checksum of `data`: the one's complement of the folded word sum,
/// where the sum is accumulated in 32 bits and wraps.
pub open spec fn checksum_of(data: Seq<u8>) -> u16 {
    (65535 - fold16(word_total(data) % 4294967296)) as u16
}

pub proof fn lemma_fold16(x: nat)
    ensures
        fold16(x) <= 65535,
        fold16(x) % 65535 == x % 65535,
        x > 0 ==> fold16(x) > 0,
    decreases x,
{
    if x >= 65536 {
        lemma_fold_step(x);
        lemma_fold16(x % 65536 + x / 65536);
    }
}

pub fn checksum16(data: &[u8]) -> (c: u16)
    ensures
        c == checksum_of(data@),
{
    let mut sum: u32 = 0;
    let mut i: usize = 0;
    while data.len() - i >= 2
        invariant
            i <= data.len(),
            i % 2 == 0,
            sum as nat == pair_sum(data@, (i / 2) as nat) % 4294967296,
        decreases data.len() - i,
    {
        let w: u32 = (data[i] as u32) * 256 + data[i + 1] as u32;
        proof {
            assert(pair_sum(data@, ((i + 2) / 2) as nat) == pair_sum(data@, (i / 2) as nat)
                + word_at(data@, i as int));
            vstd::arithmetic::div_mod::lemma_add_mod_noop(
                pair_sum(data@, (i / 2) as nat) as int,
                w as int,
                4294967296,
            );
            vstd::arithmetic::div_mod::lemma_small_mod(w as nat, 4294967296);
        }
        let ghost before = sum;
        sum = sum.wrapping_add(w);
        proof {
            if before as nat + w as nat >= 4294967296 {
                vstd::arithmetic::div_mod::lemma_mod_sub_multiples_vanish(
                    (before as nat + w as nat) as int,
                    4294967296,
                );
                vstd::arithmetic::div_mod::lemma_small_mod(
                    (before as nat + w as nat - 4294967296) as nat,
                    4294967296,
                );
            }
        }
        i = i + 2;
    }
    assert(i / 2 == data.len() / 2);
    if i < data.len() {
        let w: u32 = (data[i] as u32) * 256;
        proof {
            vstd::arithmetic::div_mod::lemma_add_mod_noop(
                pair_sum(data@, (i / 2) as nat) as int,
                w as int,
                4294967296,
            );
            vstd::arithmetic::div_mod::lemma_small_mod(w as nat, 4294967296);
        }
        let ghost before = sum;
        sum = sum.wrapping_add(w);
        proof {
            if before as nat + w as nat >= 4294967296 {
                vstd::arithmetic::div_mod::lemma_mod_sub_multiples_vanish(
                    (before as nat + w as nat) as int,
                    4294967296,
                );
                vstd::arithmetic::div_mod::lemma_small_mod(
                    (before as nat + w as nat - 4294967296) as nat,
                    4294967296,
                );
            }
        }
    }
    let ghost total = word_total(data@) % 4294967296;
    assert(sum as nat == total);
    while sum >= 65536
        invariant
            fold16(sum as nat) == fold16(total),
        decreases sum,
    {
        proof {
            lemma_fold_step(sum as nat);
        }
        sum = sum % 65536 + sum / 65536;
    }
    proof {
        lemma_fold16(total);
    }
    65535 - (sum as u16)
}

/// `data` with the 16-bit value `c` written big-endian at byte `off`.
pub open spec fn put_word(data: Seq<u8>, off: int, c: u16) -> Seq<u8> {
    data.update(off, (c / 256) as u8).update(off + 1, (c % 256) as u8)
}

/// `data` with its own checksum written at byte `off`.
pub open spec fn with_checksum(data: Seq<u8>, off: int) -> Seq<u8> {
    put_word(data, off, checksum_of(data))
}

proof fn lemma_pair_sum_put_word(data: Seq<u8>, off: int, c: u16, k: nat)
    requires
        0 <= off,
        off % 2 == 0,
        off + 1 < data.len(),
        data[off] == 0,
        data[off + 1] == 0,
        2 * k <= data.len(),
    ensures
        pair_sum(put_word(data, off, c), k) == pair_sum(data, k) + if off < 2 * k {
            c as nat
        } else {
            0
        },
    decreases k,
{
    if k > 0 {
        lemma_pair_sum_put_word(data, off, c, (k - 1) as nat);
        let d2 = put_word(data, off, c);
        let j = 2 * (k - 1);
        if j == off {
            assert(word_at(d2, j) == c as nat) by (nonlinear_arith)
                requires
                    d2[j] == (c / 256) as u8,
                    d2[j + 1] == (c % 256) as u8,
                    c <= 65535,
            ;
            assert(word_at(data, j) == 0);
        } else {
            assert(d2[j] == data[j]);
            assert(d2[j + 1] == data[j + 1]);
        }
    }
}

pub proof fn lemma_word_total_put_word(data: Seq<u8>, off: int, c: u16)
    requires
        0 <= off,
        off % 2 == 0,
        off + 1 < data.len(),
        data[off] == 0,
        data[off + 1] == 0,
    ensures
        word_total(put_word(data, off, c)) == word_total(data) + c as nat,
{
    lemma_pair_sum_put_word(data, off, c, data.len() / 2);
    let d2 = put_word(data, off, c);
    if data.len() % 2 == 1 {
        assert(d2.last() == data.last());
    }
}

pub proof fn lemma_pair_sum_bound(data: Seq<u8>, k: nat)
    requires
        2 * k <= data.len(),
    ensures
        pair_sum(data, k) <= 65535 * k,
    decreases k,
{
    if k > 0 {
        lemma_pair_sum_bound(data, (k - 1) as nat);
        assert(word_at(data, 2 * (k - 1)) <= 65535) by (nonlinear_arith)
            requires
                data[2 * (k - 1)] <= 255,
                data[2 * (k - 1) + 1] <= 255,
        ;
    }
}

/// The word sum never exceeds 65535 per started word.
pub proof fn lemma_word_total_bound(data: Seq<u8>)
    ensures
        word_total(data) <= 65535 * ((data.len() + 1) / 2),
{
    lemma_pair_sum_bound(data, data.len() / 2);
}

/// RFC 1071: once a packet's checksum field (zero while the checksum was
/// computed) holds that checksum, the packet checksums to zero. Holds where
/// the 32-bit accumulator does not wrap.
pub proof fn law_checksum_verifies(data: Seq<u8>, off: int)
    requires
        0 <= off,
        off % 2 == 0,
        off + 1 < data.len(),
        data[off] == 0,
        data[off + 1] == 0,
        word_total(data) + 65535 < 4294967296,
    ensures
        checksum_of(with_checksum(data, off)) == 0,
{
    let s = word_total(data);
    let c = checksum_of(data);
    vstd::arithmetic::div_mod::lemma_small_mod(s, 4294967296);
    lemma_fold16(s);
    assert(c as nat == 65535 - fold16(s));
    lemma_word_total_put_word(data, off, c);
    let s2 = s + c as nat;
    assert(word_total(with_checksum(data, off)) == s2);
    vstd::arithmetic::div_mod::lemma_small_mod(s2, 4294967296);
    lemma_fold16(s2);
    assert(s2 > 0);
    assert(s2 % 65535 == 0) by {
        assert(s2 == s + 65535 - fold16(s));
        vstd::arithmetic::div_mod::lemma_fundamental_div_mod(s as int, 65535);
        vstd::arithmetic::div_mod::lemma_fundamental_div_mod(fold16(s) as int, 65535);
        let q1 = s as int / 65535;
        let q2 = fold16(s) as int / 65535;
        assert(s2 as int == 65535 * (q1 - q2 + 1));
        vstd::arithmetic::div_mod::lemma_mod_multiples_basic(q1 - q2 + 1, 65535);
    }
    assert(fold16(s2) == 65535);
}

} // verus!
