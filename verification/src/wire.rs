//! Big-endian integers in byte buffers, and the fixed-size receive buffer of
//! the ticket protocol.
use vstd::prelude::*;

verus! {

/// Bytes read from a socket in one go.
pub const BUFFER_LEN: usize = 32;

/// `256` to the power `n`.
pub open spec fn pow256(n: nat) -> nat
    decreases n,
{
    if n == 0 {
        1
    } else {
        256 * pow256((n - 1) as nat)
    }
}

/// The number that the bytes `s` spell, most significant byte first.
pub open spec fn be_value(s: Seq<u8>) -> nat
    decreases s.len(),
{
    if s.len() == 0 {
        0
    } else {
        be_value(s.drop_last()) * 256 + s.last() as nat
    }
}

/// The `n` lowest bytes of `x`, most significant first.
pub open spec fn be_bytes(x: nat, n: nat) -> Seq<u8>
    decreases n,
{
    if n == 0 {
        Seq::empty()
    } else {
        be_bytes(x / 256, (n - 1) as nat).push((x % 256) as u8)
    }
}

/// The eight bytes of `x`, most significant first (what `u64::to_be_bytes`
/// gives).
pub open spec fn u64_be(x: u64) -> Seq<u8> {
    be_bytes(x as nat, 8)
}

/// What a buffer of [`BUFFER_LEN`] zeroed bytes holds after `m` was read
/// into it.
pub open spec fn received(m: Seq<u8>) -> Seq<u8> {
    m + Seq::new((BUFFER_LEN - m.len()) as nat, |i: int| 0u8)
}

/// `n` zero bytes.
pub open spec fn zeros(n: nat) -> Seq<u8> {
    Seq::new(n, |i: int| 0u8)
}

pub proof fn lemma_pow256_8()
    ensures
        pow256(8) == 0x1_0000_0000_0000_0000,
{
    reveal_with_fuel(pow256, 9);
}

pub proof fn lemma_pow256_monotone(i: nat, j: nat)
    requires
        i <= j,
    ensures
        1 <= pow256(i) <= pow256(j),
    decreases j,
{
    if j > 0 {
        if i < j {
            lemma_pow256_monotone(i, (j - 1) as nat);
        } else {
            lemma_pow256_monotone(0, (j - 1) as nat);
        }
    }
}

pub proof fn lemma_be_bytes_len(x: nat, n: nat)
    ensures
        be_bytes(x, n).len() == n,
    decreases n,
{
    if n > 0 {
        lemma_be_bytes_len(x / 256, (n - 1) as nat);
    }
}

/// Spelling a number in `n` bytes and reading it back gives the number,
/// when it fits.
pub proof fn lemma_be_round_trip(x: nat, n: nat)
    requires
        x < pow256(n),
    ensures
        be_value(be_bytes(x, n)) == x,
    decreases n,
{
    if n > 0 {
        let inner = be_bytes(x / 256, (n - 1) as nat);
        assert(x / 256 < pow256((n - 1) as nat));
        lemma_be_round_trip(x / 256, (n - 1) as nat);
        assert(be_bytes(x, n).drop_last() =~= inner);
    }
}

/// The byte at position `i` of the `n`-byte spelling of `x` is digit
/// `n - 1 - i` of `x` in base 256: the most significant comes first.
pub proof fn lemma_be_bytes_digit(x: nat, n: nat, i: nat)
    requires
        i < n,
    ensures
        be_bytes(x, n)[i as int] == (x / pow256((n - 1 - i) as nat)) % 256,
    decreases n,
{
    lemma_be_bytes_len(x, n);
    lemma_be_bytes_len(x / 256, (n - 1) as nat);
    let inner = be_bytes(x / 256, (n - 1) as nat);
    assert(be_bytes(x, n) == inner.push((x % 256) as u8));
    if i + 1 < n {
        assert(be_bytes(x, n)[i as int] == inner[i as int]);
        lemma_be_bytes_digit(x / 256, (n - 1) as nat, i);
        let p = pow256((n - 2 - i) as nat);
        lemma_pow256_monotone(0, (n - 2 - i) as nat);
        vstd::arithmetic::div_mod::lemma_div_denominator(x as int, 256, p as int);
        assert(pow256((n - 1 - i) as nat) == 256 * p);
        assert((x / 256) / p == x / (256 * p));
    } else {
        assert(i == n - 1);
        assert(be_bytes(x, n)[i as int] == (x % 256) as u8);
        assert(pow256(0) == 1);
        assert(x / 1 == x);
    }
}

/// Reading bytes as a big-endian number: the first byte weighs
/// `256^(len - 1)`, the rest are read the same way.
pub proof fn lemma_be_value_first_byte_weighs_most(s: Seq<u8>)
    requires
        s.len() > 0,
    ensures
        be_value(s) == s[0] * pow256((s.len() - 1) as nat) + be_value(s.drop_first()),
    decreases s.len(),
{
    if s.len() > 1 {
        let d = s.drop_last();
        lemma_be_value_first_byte_weighs_most(d);
        assert(d[0] == s[0]);
        assert(d.drop_first() =~= s.drop_first().drop_last());
        assert(s.drop_first().last() == s.last());
        let p = pow256((s.len() - 2) as nat);
        let b = be_value(d.drop_first());
        assert(be_value(s) == be_value(d) * 256 + s.last() as nat);
        assert(be_value(s.drop_first()) == b * 256 + s.last() as nat);
        assert(be_value(d) == s[0] * p + b);
        assert((s[0] * p + b) * 256 == s[0] * pow256((s.len() - 1) as nat) + b * 256) by (
        nonlinear_arith)
            requires
                pow256((s.len() - 1) as nat) == 256 * p,
        {
        }
    } else {
        assert(s.drop_first() =~= Seq::<u8>::empty());
        assert(s.drop_last() =~= Seq::<u8>::empty());
        assert(be_value(Seq::<u8>::empty()) == 0);
        assert(s.last() == s[0]);
        assert(pow256(0) == 1);
        assert(s[0] * pow256(0) == s[0]);
    }
}

/// The bytes of a `u64` read back as that `u64`.
pub proof fn lemma_u64_be_round_trip(x: u64)
    ensures
        u64_be(x).len() == 8,
        be_value(u64_be(x)) == x,
{
    lemma_pow256_8();
    lemma_be_bytes_len(x as nat, 8);
    lemma_be_round_trip(x as nat, 8);
}

/// Eight bytes always spell a number that fits in a `u64`.
pub proof fn lemma_be_value_bound(s: Seq<u8>)
    ensures
        be_value(s) < pow256(s.len()),
    decreases s.len(),
{
    if s.len() > 0 {
        lemma_be_value_bound(s.drop_last());
    }
}

/// Appends the eight bytes of `x`, most significant first.
pub fn push_u64_be(out: &mut Vec<u8>, x: u64)
    ensures
        final(out)@ == old(out)@ + u64_be(x),
{
    push_be(out, x, 8);
}

fn push_be(out: &mut Vec<u8>, x: u64, n: usize)
    requires
        n <= 8,
    ensures
        final(out)@ == old(out)@ + be_bytes(x as nat, n as nat),
    decreases n,
{
    if n == 0 {
        assert(old(out)@ + be_bytes(x as nat, 0) =~= old(out)@);
    } else {
        let ghost before = out@;
        push_be(out, x / 256, n - 1);
        out.push((x % 256) as u8);
        assert(before + be_bytes(x as nat, n as nat) =~= (before + be_bytes(
            (x / 256) as nat,
            (n - 1) as nat,
        )).push((x % 256) as u8));
    }
}

/// Reads the eight bytes at `start`, most significant first (what
/// `u64::from_be_bytes` gives).
pub fn read_u64_be(buf: &[u8; 32], start: usize) -> (x: u64)
    requires
        start + 8 <= BUFFER_LEN,
    ensures
        x == be_value(buf@.subrange(start as int, start + 8)),
{
    let mut acc: u64 = 0;
    let mut i: usize = 0;
    proof {
        lemma_pow256_8();
        assert(buf@.subrange(start as int, start as int) =~= Seq::<u8>::empty());
    }
    while i < 8
        invariant
            i <= 8,
            start + 8 <= BUFFER_LEN,
            buf@.len() == BUFFER_LEN,
            acc == be_value(buf@.subrange(start as int, start + i)),
            acc < pow256(i as nat),
            pow256(8) == 0x1_0000_0000_0000_0000,
        decreases 8 - i,
    {
        proof {
            lemma_pow256_monotone((i + 1) as nat, 8);
            assert(buf@.subrange(start as int, start + i + 1).drop_last() =~= buf@.subrange(
                start as int,
                start + i,
            ));
        }
        acc = acc * 256 + buf[start + i] as u64;
        i = i + 1;
    }
    acc
}

/// Whether the bytes of `buf` from `start` on are those of `tag`.
pub fn bytes_match(buf: &[u8; 32], start: usize, tag: &Vec<u8>) -> (b: bool)
    requires
        start + tag@.len() <= BUFFER_LEN,
    ensures
        b == (buf@.subrange(start as int, start + tag@.len()) == tag@),
{
    let mut i: usize = 0;
    while i < tag.len()
        invariant
            i <= tag@.len(),
            start + tag@.len() <= BUFFER_LEN,
            buf@.len() == BUFFER_LEN,
            forall|j: int| 0 <= j < i ==> buf@[start + j] == tag@[j],
        decreases tag@.len() - i,
    {
        if buf[start + i] != tag[i] {
            assert(buf@.subrange(start as int, start + tag@.len())[i as int] != tag@[i as int]);
            return false;
        }
        i = i + 1;
    }
    assert(buf@.subrange(start as int, start + tag@.len()) =~= tag@);
    true
}

/// The bytes of `buf` in `start..end`.
pub fn copy_range(buf: &[u8; 32], start: usize, end: usize) -> (v: Vec<u8>)
    requires
        start <= end <= BUFFER_LEN,
    ensures
        v@ == buf@.subrange(start as int, end as int),
{
    let mut v: Vec<u8> = Vec::new();
    let mut i: usize = start;
    while i < end
        invariant
            start <= i <= end <= BUFFER_LEN,
            buf@.len() == BUFFER_LEN,
            v@ == buf@.subrange(start as int, i as int),
        decreases end - i,
    {
        v.push(buf[i]);
        i = i + 1;
        assert(v@ =~= buf@.subrange(start as int, i as int));
    }
    v
}

} // verus!
