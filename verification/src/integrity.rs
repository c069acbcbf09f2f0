//! Content integrity: a 64-bit FNV-1a digest over payload bytes, rendered
//! as sixteen lowercase hex digits.  The stored hash of every cache entry is
//! recomputed on read; a mismatch marks the entry as corrupted.

use vstd::prelude::*;
use vstd::string::StringExecFns;

verus! {

/// FNV-1a 64-bit offset basis.
pub const FNV_OFFSET: u64 = 0xcbf29ce484222325;

/// FNV-1a 64-bit prime.
pub const FNV_PRIME: u64 = 0x100000001b3;

/// One FNV-1a round: fold a byte into the running state.
pub open spec fn fnv_step(h: u64, b: u8) -> u64 {
    vstd::wrapping::u64_specs::wrapping_mul(h ^ (b as u64), FNV_PRIME)
}

/// FNV-1a state after folding a byte sequence into `h`, first byte first.
pub open spec fn fnv_fold(h: u64, s: Seq<u8>) -> u64
    decreases s.len(),
{
    if s.len() == 0 {
        h
    } else {
        fnv_fold(fnv_step(h, s.first()), s.drop_first())
    }
}

/// The FNV-1a 64-bit digest of a byte sequence.
pub open spec fn fnv1a(s: Seq<u8>) -> u64 {
    fnv_fold(FNV_OFFSET, s)
}

/// Folding one more byte equals one more round on the folded state.
pub proof fn lemma_fnv_fold_push(h: u64, s: Seq<u8>, b: u8)
    ensures
        fnv_fold(h, s.push(b)) == fnv_step(fnv_fold(h, s), b),
    decreases s.len(),
{
    if s.len() == 0 {
        assert(s.push(b).first() == b);
        assert(s.push(b).drop_first() =~= Seq::<u8>::empty());
        assert(fnv_fold(h, s.push(b)) == fnv_fold(fnv_step(h, b), Seq::<u8>::empty()));
        assert(fnv_fold(fnv_step(h, b), Seq::<u8>::empty()) == fnv_step(h, b));
        assert(fnv_fold(h, s) == h);
    } else {
        assert(s.push(b).first() == s.first());
        assert(s.push(b).drop_first() =~= s.drop_first().push(b));
        assert(fnv_fold(h, s.push(b)) == fnv_fold(fnv_step(h, s.first()), s.drop_first().push(b)));
        lemma_fnv_fold_push(fnv_step(h, s.first()), s.drop_first(), b);
        assert(fnv_fold(h, s) == fnv_fold(fnv_step(h, s.first()), s.drop_first()));
    }
}

/// The lowercase hex digit for a value below sixteen.
pub open spec fn hex_digit(n: int) -> char {
    if n == 0 { '0' }
    else if n == 1 { '1' }
    else if n == 2 { '2' }
    else if n == 3 { '3' }
    else if n == 4 { '4' }
    else if n == 5 { '5' }
    else if n == 6 { '6' }
    else if n == 7 { '7' }
    else if n == 8 { '8' }
    else if n == 9 { '9' }
    else if n == 10 { 'a' }
    else if n == 11 { 'b' }
    else if n == 12 { 'c' }
    else if n == 13 { 'd' }
    else if n == 14 { 'e' }
    else { 'f' }
}

/// The lowest `n` hex digits of `x`, most significant first.
pub open spec fn hex_digits(x: int, n: nat) -> Seq<char>
    decreases n,
{
    if n == 0 {
        Seq::empty()
    } else {
        hex_digits(x / 16, (n - 1) as nat) + seq![hex_digit(x % 16)]
    }
}

/// The content hash of a byte sequence: its FNV-1a 64-bit digest as sixteen
/// lowercase hex digits.
pub open spec fn hash_hex(s: Seq<u8>) -> Seq<char> {
    hex_digits(fnv1a(s) as int, 16)
}

/// The hex digit of a value below sixteen, as a one-character string.
fn hex_digit_str(d: u64) -> (r: &'static str)
    requires
        d < 16,
    ensures
        r@ == seq![hex_digit(d as int)],
{
    proof {
        reveal_strlit("0");
        reveal_strlit("1");
        reveal_strlit("2");
        reveal_strlit("3");
        reveal_strlit("4");
        reveal_strlit("5");
        reveal_strlit("6");
        reveal_strlit("7");
        reveal_strlit("8");
        reveal_strlit("9");
        reveal_strlit("a");
        reveal_strlit("b");
        reveal_strlit("c");
        reveal_strlit("d");
        reveal_strlit("e");
        reveal_strlit("f");
    }
    match d {
        0 => "0",
        1 => "1",
        2 => "2",
        3 => "3",
        4 => "4",
        5 => "5",
        6 => "6",
        7 => "7",
        8 => "8",
        9 => "9",
        10 => "a",
        11 => "b",
        12 => "c",
        13 => "d",
        14 => "e",
        _ => "f",
    }
}

/// Appends the lowest `n` hex digits of `x`, most significant first.
fn push_hex_digits(x: u64, n: usize, out: &mut String)
    ensures
        final(out)@ == old(out)@ + hex_digits(x as int, n as nat),
    decreases n,
{
    if n == 0 {
        proof {
            assert(old(out)@ + hex_digits(x as int, 0) =~= old(out)@);
        }
        return;
    }
    push_hex_digits(x / 16, n - 1, out);
    let d = x % 16;
    out.append(hex_digit_str(d));
    proof {
        assert(final(out)@ =~= old(out)@ + hex_digits(x as int, n as nat));
    }
}

/// Computes the content hash of a payload.
pub fn content_hash_of(data: &Vec<u8>) -> (r: String)
    ensures
        r@ == hash_hex(data@),
{
    let mut h: u64 = FNV_OFFSET;
    let mut i: usize = 0;
    proof {
        assert(data@.take(0) =~= Seq::<u8>::empty());
    }
    while i < data.len()
        invariant
            0 <= i <= data@.len(),
            h == fnv_fold(FNV_OFFSET, data@.take(i as int)),
        decreases data@.len() - i,
    {
        let b = data[i];
        proof {
            assert(data@.take(i as int + 1) =~= data@.take(i as int).push(data@[i as int]));
            lemma_fnv_fold_push(FNV_OFFSET, data@.take(i as int), data@[i as int]);
        }
        h = (h ^ (b as u64)).wrapping_mul(FNV_PRIME);
        i = i + 1;
    }
    proof {
        assert(data@.take(data@.len() as int) =~= data@);
    }
    let mut out = String::new();
    push_hex_digits(h, 16, &mut out);
    out
}

} // verus!
