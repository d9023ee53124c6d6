//! Byte and string helpers shared by the query builder and the decoder.

use vstd::prelude::*;
use vstd::string::{StrSliceExecFns, StringSliceAdditionalSpecFns};
use vstd::utf8::{decode_utf8, valid_utf8};

verus! {

/// Relies on `String::from_utf8`: it succeeds exactly on input that is valid
/// UTF-8 and returns the string those bytes encode.
#[verifier::external_body]
pub fn string_from_utf8(bytes: Vec<u8>) -> (r: Option<String>)
    ensures
        r is Some <==> valid_utf8(bytes@),
        r is Some ==> r->0@ == decode_utf8(bytes@),
{
    String::from_utf8(bytes).ok()
}

/// Relies on `String::push`: it appends exactly the given character.
#[verifier::external_body]
pub fn string_push(s: &mut String, c: char)
    ensures
        final(s)@ == old(s)@.push(c),
{
    s.push(c);
}

/// True of a byte that stands for an ASCII decimal digit.
pub open spec fn is_digit_byte(b: u8) -> bool {
    0x30 <= b <= 0x39
}

/// True when every byte of the sequence is an ASCII decimal digit.
pub open spec fn all_digit_bytes(s: Seq<u8>) -> bool {
    forall|i: int| 0 <= i < s.len() ==> is_digit_byte(#[trigger] s[i])
}

/// The value of a sequence of ASCII decimal digits, most significant first.
pub open spec fn digits_val(s: Seq<u8>) -> int
    decreases s.len(),
{
    if s.len() == 0 {
        0
    } else {
        digits_val(s.drop_last()) * 10 + (s.last() - 0x30)
    }
}

/// A digit sequence has a non-negative value.
pub proof fn lemma_digits_val_nonneg(s: Seq<u8>)
    requires
        all_digit_bytes(s),
    ensures
        digits_val(s) >= 0,
    decreases s.len(),
{
    if s.len() > 0 {
        assert(all_digit_bytes(s.drop_last()));
        lemma_digits_val_nonneg(s.drop_last());
    }
}

/// Extending a digit sequence on the right never lowers its value.
pub proof fn lemma_digits_val_prefix_bound(s: Seq<u8>, i: int)
    requires
        all_digit_bytes(s),
        0 <= i <= s.len(),
    ensures
        digits_val(s.take(i)) <= digits_val(s),
    decreases s.len() - i,
{
    if i < s.len() {
        let t = s.take(i + 1);
        assert(all_digit_bytes(t));
        assert(t.drop_last() =~= s.take(i));
        assert(all_digit_bytes(s.take(i)));
        lemma_digits_val_nonneg(s.take(i));
        assert(digits_val(t) == digits_val(s.take(i)) * 10 + (t.last() - 0x30));
        assert(digits_val(s.take(i)) * 10 >= digits_val(s.take(i))) by (nonlinear_arith)
            requires digits_val(s.take(i)) >= 0;
        lemma_digits_val_prefix_bound(s, i + 1);
    } else {
        assert(s.take(i) =~= s);
    }
}

/// The unsigned integer a run of bytes spells, read strictly: the run must be
/// non-empty, all digits, and its value must fit the 64-bit range.
pub open spec fn spec_parse_u64(s: Seq<u8>) -> Option<u64> {
    if s.len() > 0 && all_digit_bytes(s) && digits_val(s) <= u64::MAX {
        Some(digits_val(s) as u64)
    } else {
        None
    }
}

/// Reads the digit run `v[from..to]` as an unsigned 64-bit integer.
pub fn parse_u64_digits(v: &Vec<u8>, from: usize, to: usize) -> (r: Option<u64>)
    requires
        from <= to <= v@.len(),
    ensures
        r == spec_parse_u64(v@.subrange(from as int, to as int)),
{
    let ghost s = v@.subrange(from as int, to as int);
    if from == to {
        return None;
    }
    let mut acc: u64 = 0;
    let mut i: usize = from;
    while i < to
        invariant
            from <= i <= to <= v@.len(),
            s == v@.subrange(from as int, to as int),
            all_digit_bytes(s.take(i - from)),
            acc == digits_val(s.take(i - from)),
        decreases to - i,
    {
        let b = v[i];
        if b < 0x30 || b > 0x39 {
            proof {
                assert(s[i - from] == b);
                assert(!all_digit_bytes(s));
            }
            return None;
        }
        let d: u64 = (b - 0x30) as u64;
        proof {
            assert(s.take(i + 1 - from).drop_last() =~= s.take(i - from));
            assert(s.take(i + 1 - from).last() == b);
        }
        if acc > (u64::MAX - d) / 10 {
            proof {
                let q = ((u64::MAX - d) / 10) as int;
                assert(acc * 10 >= (q + 1) * 10) by (nonlinear_arith)
                    requires acc >= q + 1;
                assert(q * 10 + (u64::MAX - d) as int % 10 == u64::MAX - d);
                assert(digits_val(s.take(i + 1 - from)) == acc * 10 + d);
                assert(digits_val(s.take(i + 1 - from)) > u64::MAX);
                if all_digit_bytes(s) {
                    lemma_digits_val_prefix_bound(s, i + 1 - from);
                }
            }
            return None;
        }
        acc = acc * 10 + d;
        i += 1;
    }
    proof {
        assert(s.take(to - from) =~= s);
    }
    Some(acc)
}

/// Copies the bytes `v[from..to]` into a vector of their own.
pub fn copy_range(v: &Vec<u8>, from: usize, to: usize) -> (r: Vec<u8>)
    requires
        from <= to <= v@.len(),
    ensures
        r@ == v@.subrange(from as int, to as int),
{
    let mut out: Vec<u8> = Vec::new();
    let mut i: usize = from;
    while i < to
        invariant
            from <= i <= to <= v@.len(),
            out@ == v@.subrange(from as int, i as int),
        decreases to - i,
    {
        out.push(v[i]);
        proof {
            assert(v@.subrange(from as int, i as int).push(v@[i as int]) =~= v@.subrange(
                from as int,
                i + 1,
            ));
        }
        i += 1;
    }
    out
}

/// Compares two byte vectors for equality of their contents.
pub fn bytes_eq(a: &Vec<u8>, b: &Vec<u8>) -> (r: bool)
    ensures
        r == (a@ == b@),
{
    if a.len() != b.len() {
        return false;
    }
    let mut i: usize = 0;
    while i < a.len()
        invariant
            i <= a@.len(),
            a@.len() == b@.len(),
            forall|j: int| 0 <= j < i ==> a@[j] == b@[j],
        decreases a@.len() - i,
    {
        if a[i] != b[i] {
            return false;
        }
        i += 1;
    }
    proof {
        assert(a@ =~= b@);
    }
    true
}

/// Compares a byte vector with the UTF-8 bytes of a string slice.
pub fn bytes_eq_str(v: &Vec<u8>, s: &str) -> (r: bool)
    ensures
        r == (v@ == s.spec_bytes()),
{
    let sb = s.as_bytes_vec();
    bytes_eq(v, &sb)
}

} // verus!
