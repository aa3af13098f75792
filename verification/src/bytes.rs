//! Whole numbers as bytes, the lowest first.
use vstd::arithmetic::power::pow;
use vstd::prelude::*;

verus! {

/// The lowest `count` bytes of `n`, the lowest first.
pub open spec fn le_bytes(n: nat, count: nat) -> Seq<u8>
    decreases count,
{
    if count == 0 {
        Seq::empty()
    } else {
        seq![(n % 256) as u8] + le_bytes(n / 256, (count - 1) as nat)
    }
}

/// The number that some bytes stand for, the lowest first.
pub open spec fn le_value(bytes: Seq<u8>) -> nat
    decreases bytes.len(),
{
    if bytes.len() == 0 {
        0
    } else {
        bytes[0] as nat + 256 * le_value(bytes.skip(1))
    }
}

/// How many bytes there are.
pub proof fn lemma_le_bytes_len(n: nat, count: nat)
    ensures
        le_bytes(n, count).len() == count,
    decreases count,
{
    if count > 0 {
        lemma_le_bytes_len(n / 256, (count - 1) as nat);
    }
}

/// A number that fits its bytes is read back from them.
pub proof fn law_bytes_read_back(n: nat, count: nat)
    requires
        n < pow(256, count),
    ensures
        le_value(le_bytes(n, count)) == n,
    decreases count,
{
    reveal(pow);
    if count > 0 {
        let less = (count - 1) as nat;
        let rest = le_bytes(n / 256, less);
        assert(pow(256, count) == 256 * pow(256, less));
        law_bytes_read_back(n / 256, less);
        assert(le_bytes(n, count).skip(1) =~= rest);
        assert(le_bytes(n, count)[0] == (n % 256) as u8);
    }
}

/// Append the lowest `count` bytes of `n`, the lowest first.
pub fn push_le(out: &mut Vec<u8>, n: u64, count: usize)
    ensures
        final(out)@ == old(out)@ + le_bytes(n as nat, count as nat),
{
    let ghost before = out@;
    let mut rest: u64 = n;
    let mut k: usize = count;
    while k > 0
        invariant
            k <= count,
            out@ + le_bytes(rest as nat, k as nat) == before + le_bytes(n as nat, count as nat),
        decreases k,
    {
        let ghost sofar = out@;
        out.push((rest % 256) as u8);
        assert(out@ + le_bytes((rest / 256) as nat, (k - 1) as nat) =~= sofar + le_bytes(
            rest as nat,
            k as nat,
        ));
        rest = rest / 256;
        k -= 1;
    }
    assert(out@ + le_bytes(rest as nat, 0) =~= out@);
}

/// Append some bytes.
pub fn push_all(out: &mut Vec<u8>, bytes: &[u8])
    ensures
        final(out)@ == old(out)@ + bytes@,
{
    let ghost before = out@;
    let mut i: usize = 0;
    assert(out@ =~= before + bytes@.take(0));
    while i < bytes.len()
        invariant
            i <= bytes@.len(),
            out@ == before + bytes@.take(i as int),
        decreases bytes@.len() - i,
    {
        out.push(bytes[i]);
        assert(out@ =~= before + bytes@.take(i + 1));
        i += 1;
    }
    assert(bytes@.take(i as int) =~= bytes@);
}

/// The lowest byte comes first, and the bytes behind it are those of what is left.
pub proof fn law_the_lowest_byte_comes_first(n: nat, count: nat)
    ensures
        le_bytes(n, count + 1)[0] == n % 256,
        le_bytes(n, count + 1).skip(1) == le_bytes(n / 256, count),
        le_bytes(n, count).len() == count,
{
    lemma_le_bytes_len(n, count);
    assert(le_bytes(n, count + 1).skip(1) =~= le_bytes(n / 256, count));
}

} // verus!
