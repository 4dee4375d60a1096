//! The persisted high score: a single unsigned integer as decimal text. The
//! encoder produces the canonical digit string; the decoder accepts any run
//! of digits whose value fits and treats everything else — an empty file, a
//! stray byte, an overflowing value — as `0`, failing open as the ledger
//! requires. The host is left with nothing but reading and writing the bytes.

use vstd::prelude::*;

verus! {

/// The decimal digits of `n`, most significant first, as ASCII bytes.
pub open spec fn dec_bytes(n: nat) -> Seq<u8>
    decreases n,
{
    if n < 10 {
        seq![(n + 48) as u8]
    } else {
        dec_bytes(n / 10).push((n % 10 + 48) as u8)
    }
}

/// An ASCII decimal digit.
pub open spec fn is_digit(b: u8) -> bool {
    48 <= b <= 57
}

/// Every byte of the text is a digit.
pub open spec fn all_digits(s: Seq<u8>) -> bool {
    forall|k: int| 0 <= k < s.len() ==> is_digit(#[trigger] s[k])
}

/// The number a run of digits denotes. On bytes that are not digits this is
/// just a number; `readable_score` is what gives it force.
pub open spec fn digits_value(s: Seq<u8>) -> int
    decreases s.len(),
{
    if s.len() == 0 {
        0
    } else {
        digits_value(s.drop_last()) * 10 + (s.last() - 48)
    }
}

/// Text the decoder accepts: at least one byte, digits only, and a value
/// that fits in the stored width.
pub open spec fn readable_score(s: Seq<u8>) -> bool {
    s.len() > 0 && all_digits(s) && digits_value(s) <= u32::MAX
}

/// The value a stored file yields: its denoted number when readable, else 0.
pub open spec fn stored_value(s: Seq<u8>) -> int {
    if readable_score(s) {
        digits_value(s)
    } else {
        0
    }
}

/// The canonical digits of `n` denote `n`, are digits throughout, and begin
/// with a nonzero digit unless `n` itself is zero.
proof fn lemma_dec_bytes_value(n: nat)
    ensures
        digits_value(dec_bytes(n)) == n as int,
        all_digits(dec_bytes(n)),
        dec_bytes(n).len() > 0,
    decreases n,
{
    if n < 10 {
        let s = dec_bytes(n);
        assert(s =~= seq![(n + 48) as u8]);
        assert(s.drop_last() =~= Seq::<u8>::empty());
        assert(digits_value(Seq::<u8>::empty()) == 0);
        assert(digits_value(s) == digits_value(s.drop_last()) * 10 + (s.last() - 48));
    } else {
        lemma_dec_bytes_value(n / 10);
        let s = dec_bytes(n);
        assert(s == dec_bytes(n / 10).push((n % 10 + 48) as u8));
        assert(s.drop_last() =~= dec_bytes(n / 10));
        assert(digits_value(s) == digits_value(dec_bytes(n / 10)) * 10 + n % 10);
        assert forall|k: int| 0 <= k < s.len() implies is_digit(#[trigger] s[k]) by {
            if k < s.len() - 1 {
                assert(s[k] == dec_bytes(n / 10)[k]);
            }
        }
    }
}

/// Law: a written high score reads back exactly. The canonical decimal text
/// of any storable value is readable and denotes that value, so decoding
/// what the encoder wrote returns the value unchanged at the next start.
pub proof fn lemma_store_round_trip(v: u32)
    ensures
        readable_score(dec_bytes(v as nat)),
        stored_value(dec_bytes(v as nat)) == v as int,
{
    lemma_dec_bytes_value(v as nat);
}

/// A run of digits denotes a non-negative number.
proof fn lemma_digits_value_nonneg(s: Seq<u8>)
    requires
        all_digits(s),
    ensures
        digits_value(s) >= 0,
    decreases s.len(),
{
    if s.len() == 0 {
    } else {
        assert(forall|k: int|
            0 <= k < s.drop_last().len() ==> is_digit(#[trigger] s.drop_last()[k]));
        lemma_digits_value_nonneg(s.drop_last());
    }
}

/// A prefix of a digit run never denotes more than the whole run.
proof fn lemma_digits_value_prefix_le(s: Seq<u8>, k: int)
    requires
        0 <= k <= s.len(),
        all_digits(s),
    ensures
        digits_value(s.take(k)) <= digits_value(s),
    decreases s.len() - k,
{
    if k == s.len() {
        assert(s.take(k) =~= s);
    } else {
        lemma_digits_value_prefix_le(s, k + 1);
        assert(s.take(k + 1).drop_last() =~= s.take(k));
        assert(all_digits(s.take(k))) by {
            assert(forall|m: int|
                0 <= m < s.take(k).len() ==> is_digit(#[trigger] s.take(k)[m]));
        }
        lemma_digits_value_nonneg(s.take(k));
        assert(digits_value(s.take(k + 1)) == digits_value(s.take(k)) * 10 + (s.take(k + 1).last()
            - 48));
        assert(is_digit(s[k]));
    }
}

/// Writes the canonical decimal text of a high score, for the host to put in
/// the store.
pub fn encode_high_score(v: u32) -> (r: Vec<u8>)
    ensures
        r@ == dec_bytes(v as nat),
        readable_score(r@),
        stored_value(r@) == v as int,
{
    let mut rev: Vec<u8> = Vec::new();
    let mut rest: u32 = v;
    loop
        invariant_except_break
            dec_bytes(v as nat) =~= dec_bytes(rest as nat) + rev@.reverse(),
        ensures
            dec_bytes(v as nat) =~= rev@.reverse(),
        decreases rest,
    {
        let digit: u8 = (rest % 10) as u8 + 48;
        let next: u32 = rest / 10;
        proof {
            let before = rev@;
            assert(before.push(digit).reverse() =~= seq![digit] + before.reverse());
        }
        rev.push(digit);
        if next == 0 {
            proof {
                assert(dec_bytes(rest as nat) =~= seq![digit]);
                assert(dec_bytes(v as nat) =~= rev@.reverse());
            }
            break ;
        }
        proof {
            assert(dec_bytes(rest as nat) == dec_bytes(next as nat).push(digit));
            assert(dec_bytes(next as nat).push(digit) =~= dec_bytes(next as nat) + seq![digit]);
            assert(dec_bytes(v as nat) =~= dec_bytes(next as nat) + rev@.reverse());
        }
        rest = next;
    }
    let mut out: Vec<u8> = Vec::new();
    let n = rev.len();
    let mut i: usize = 0;
    while i < n
        invariant
            i <= n == rev@.len(),
            out@ =~= rev@.reverse().take(i as int),
        decreases n - i,
    {
        let b = rev[n - 1 - i];
        proof {
            assert(rev@.reverse()[i as int] == rev@[n - 1 - i as int]);
            assert(rev@.reverse().take(i as int + 1) =~= rev@.reverse().take(i as int).push(
                rev@.reverse()[i as int],
            ));
        }
        out.push(b);
        i += 1;
    }
    proof {
        assert(out@ =~= rev@.reverse());
        lemma_store_round_trip(v);
    }
    out
}

/// Reads a stored high score: the denoted value of a readable digit run, and
/// 0 for anything else — a missing value is handed in as an empty buffer.
pub fn decode_high_score(data: &Vec<u8>) -> (r: u32)
    ensures
        r as int == stored_value(data@),
{
    let n = data.len();
    if n == 0 {
        return 0;
    }
    let mut acc: u32 = 0;
    let mut i: usize = 0;
    while i < n
        invariant
            0 < i <= n || i == 0,
            i <= n == data@.len(),
            all_digits(data@.take(i as int)),
            acc as int == digits_value(data@.take(i as int)),
        decreases n - i,
    {
        let b = data[i];
        if b < 48 || b > 57 {
            return 0;
        }
        let d: u32 = (b - 48) as u32;
        proof {
            assert(data@.take(i as int + 1).drop_last() =~= data@.take(i as int));
            assert(data@.take(i as int + 1).last() == data@[i as int]);
        }
        if acc > (u32::MAX - d) / 10 {
            proof {
                assert(digits_value(data@.take(i as int + 1)) == acc as int * 10 + d);
                if all_digits(data@) {
                    lemma_digits_value_prefix_le(data@, i as int + 1);
                    assert(digits_value(data@) > u32::MAX);
                }
            }
            return 0;
        }
        acc = acc * 10 + d;
        i += 1;
    }
    proof {
        assert(data@.take(n as int) =~= data@);
    }
    acc
}

} // verus!
