//! Little- and big-endian integer fields inside byte buffers.
//!
//! Every wire format in this crate is described as a byte sequence; the functions here read
//! and write fixed-width integers at offsets and state their effect over `Seq<u8>`.
use vstd::prelude::*;

verus! {

/// `256` raised to the power `n`.
pub open spec fn pow256(n: nat) -> nat
    decreases n,
{
    if n == 0 {
        1
    } else {
        256 * pow256((n - 1) as nat)
    }
}

/// The number whose little-endian digits (base 256) are `q`.
pub open spec fn le_num(q: Seq<u8>) -> nat
    decreases q.len(),
{
    if q.len() == 0 {
        0
    } else {
        q[0] as nat + 256 * le_num(q.drop_first())
    }
}

/// The number whose big-endian digits (base 256) are `q`.
pub open spec fn be_num(q: Seq<u8>) -> nat
    decreases q.len(),
{
    if q.len() == 0 {
        0
    } else {
        be_num(q.drop_last()) * 256 + q.last() as nat
    }
}

/// The `n` low-order base-256 digits of `v`, least significant first.
pub open spec fn le_bytes(v: nat, n: nat) -> Seq<u8>
    decreases n,
{
    if n == 0 {
        Seq::empty()
    } else {
        seq![(v % 256) as u8] + le_bytes(v / 256, (n - 1) as nat)
    }
}

/// The `n` low-order base-256 digits of `v`, most significant first.
pub open spec fn be_bytes(v: nat, n: nat) -> Seq<u8>
    decreases n,
{
    if n == 0 {
        Seq::empty()
    } else {
        be_bytes(v / 256, (n - 1) as nat).push((v % 256) as u8)
    }
}

/// `s` with the bytes `q` written over it starting at `offset`.
pub open spec fn splice(s: Seq<u8>, offset: int, q: Seq<u8>) -> Seq<u8> {
    s.take(offset) + q + s.skip(offset + q.len())
}

/// The `n` bytes of `s` starting at `offset`.
pub open spec fn field(s: Seq<u8>, offset: int, n: int) -> Seq<u8> {
    s.subrange(offset, offset + n)
}

/// The little-endian integer of width `n` at `offset` of `s`.
pub open spec fn le_at(s: Seq<u8>, offset: int, n: int) -> nat {
    le_num(field(s, offset, n))
}

/// The big-endian integer of width `n` at `offset` of `s`.
pub open spec fn be_at(s: Seq<u8>, offset: int, n: int) -> nat {
    be_num(field(s, offset, n))
}

/// A sequence of `n` zero bytes.
pub open spec fn zeros(n: nat) -> Seq<u8> {
    Seq::new(n, |_i: int| 0u8)
}

pub proof fn lemma_le_bytes_len(v: nat, n: nat)
    ensures
        le_bytes(v, n).len() == n,
    decreases n,
{
    if n > 0 {
        lemma_le_bytes_len(v / 256, (n - 1) as nat);
    }
}

pub proof fn lemma_be_bytes_len(v: nat, n: nat)
    ensures
        be_bytes(v, n).len() == n,
    decreases n,
{
    if n > 0 {
        lemma_be_bytes_len(v / 256, (n - 1) as nat);
    }
}

pub proof fn lemma_pow256_positive(n: nat)
    ensures
        pow256(n) >= 1,
    decreases n,
{
    if n > 0 {
        lemma_pow256_positive((n - 1) as nat);
    }
}

/// Reading back a little-endian encoding of a value that fits gives the value.
pub proof fn lemma_le_roundtrip(v: nat, n: nat)
    requires
        v < pow256(n),
    ensures
        le_num(le_bytes(v, n)) == v,
        le_bytes(v, n).len() == n,
    decreases n,
{
    lemma_le_bytes_len(v, n);
    if n > 0 {
        lemma_le_roundtrip(v / 256, (n - 1) as nat);
        let q = le_bytes(v, n);
        assert(q.drop_first() =~= le_bytes(v / 256, (n - 1) as nat));
    }
}

/// Reading back a big-endian encoding of a value that fits gives the value.
pub proof fn lemma_be_roundtrip(v: nat, n: nat)
    requires
        v < pow256(n),
    ensures
        be_num(be_bytes(v, n)) == v,
        be_bytes(v, n).len() == n,
    decreases n,
{
    lemma_be_bytes_len(v, n);
    if n > 0 {
        lemma_be_roundtrip(v / 256, (n - 1) as nat);
        let q = be_bytes(v, n);
        assert(q.drop_last() =~= be_bytes(v / 256, (n - 1) as nat));
    }
}

/// Encoding the number that some bytes denote gives those bytes back.
pub proof fn lemma_le_num_bytes(q: Seq<u8>)
    ensures
        le_bytes(le_num(q), q.len()) == q,
        le_num(q) < pow256(q.len()),
    decreases q.len(),
{
    if q.len() > 0 {
        lemma_le_num_bytes(q.drop_first());
        let v = le_num(q);
        assert(v % 256 == q[0]);
        assert(v / 256 == le_num(q.drop_first()));
        assert(le_bytes(v, q.len()) =~= q);
    }
}

/// Encoding the number that some bytes denote (big-endian) gives those bytes back.
pub proof fn lemma_be_num_bytes(q: Seq<u8>)
    ensures
        be_bytes(be_num(q), q.len()) == q,
        be_num(q) < pow256(q.len()),
    decreases q.len(),
{
    if q.len() > 0 {
        lemma_be_num_bytes(q.drop_last());
        let v = be_num(q);
        assert(v % 256 == q.last());
        assert(v / 256 == be_num(q.drop_last()));
        assert(be_bytes(v, q.len()) =~= q);
    }
}

pub proof fn lemma_pow256_values()
    ensures
        pow256(1) == 0x100,
        pow256(2) == 0x1_0000,
        pow256(4) == 0x1_0000_0000,
        pow256(6) == 0x1_0000_0000_0000,
        pow256(8) == 0x1_0000_0000_0000_0000,
{
    reveal_with_fuel(pow256, 9);
}

/// A spliced field reads back as what was written; the bytes around it are unchanged.
pub proof fn lemma_splice(s: Seq<u8>, offset: int, q: Seq<u8>)
    requires
        0 <= offset,
        offset + q.len() <= s.len(),
    ensures
        splice(s, offset, q).len() == s.len(),
        field(splice(s, offset, q), offset, q.len() as int) == q,
        forall|i: int|
            0 <= i < s.len() && !(offset <= i < offset + q.len()) ==> #[trigger] splice(
                s,
                offset,
                q,
            )[i] == s[i],
        forall|i: int|
            offset <= i < offset + q.len() ==> #[trigger] splice(s, offset, q)[i] == q[i - offset],
{
    assert(field(splice(s, offset, q), offset, q.len() as int) =~= q);
}

/// Up to the end of a splice, the result is what came before it followed by what was written.
pub proof fn lemma_splice_prefix(s: Seq<u8>, offset: int, q: Seq<u8>)
    requires
        0 <= offset,
        offset + q.len() <= s.len(),
    ensures
        splice(s, offset, q).take(offset + q.len()) == s.take(offset) + q,
{
    assert(splice(s, offset, q).take(offset + q.len()) =~= s.take(offset) + q);
}

/// A field that lies outside a splice is unchanged by it.
pub proof fn lemma_field_outside_splice(s: Seq<u8>, offset: int, q: Seq<u8>, o2: int, n2: int)
    requires
        0 <= offset,
        offset + q.len() <= s.len(),
        0 <= o2,
        0 <= n2,
        o2 + n2 <= s.len(),
        o2 + n2 <= offset || offset + q.len() <= o2,
    ensures
        field(splice(s, offset, q), o2, n2) == field(s, o2, n2),
{
    lemma_splice(s, offset, q);
    assert(field(splice(s, offset, q), o2, n2) =~= field(s, o2, n2));
}

/// Reads the little-endian integer of `width` bytes (at most eight) at `offset`.
pub fn read_le(b: &[u8], offset: usize, width: usize) -> (r: u64)
    requires
        width <= 8,
        offset + width <= b@.len(),
    ensures
        r == le_at(b@, offset as int, width as int),
        r < pow256(width as nat),
        width == 1 ==> r < 0x100,
        width == 2 ==> r < 0x1_0000,
        width == 4 ==> r < 0x1_0000_0000,
{
    let mut acc: u64 = 0;
    let mut k: usize = width;
    let _len = b.len();
    proof {
        lemma_pow256_values();
        reveal_with_fuel(pow256, 9);
        assert(field(b@, (offset + width) as int, 0) =~= Seq::<u8>::empty());
    }
    while k > 0
        invariant
            k <= width <= 8,
            offset + width <= b@.len() <= usize::MAX,
            acc == le_num(b@.subrange(offset + k, offset + width)),
            acc < pow256((width - k) as nat),
            pow256(8) == 0x1_0000_0000_0000_0000,
            forall|j: nat| j < 8 ==> #[trigger] pow256(j + 1) == 256 * pow256(j),
        decreases k,
    {
        let byte = b[offset + k - 1];
        let ghost tail = b@.subrange(offset + k, offset + width);
        let ghost whole = b@.subrange(offset + k - 1, offset + width);
        assert(whole.drop_first() =~= tail);
        proof {
            lemma_pow_monotone((width - k) as nat, 7);
        }
        acc = acc * 256 + byte as u64;
        k = k - 1;
        assert(pow256((width - k) as nat) == 256 * pow256((width - k - 1) as nat));
    }
    acc
}

proof fn lemma_pow_monotone(a: nat, b: nat)
    requires
        a <= b,
    ensures
        pow256(a) <= pow256(b),
    decreases b,
{
    if a < b {
        lemma_pow_monotone(a, (b - 1) as nat);
    }
}

/// Writes the `width` low-order bytes of `v` (at most eight) at `offset`, least significant
/// first.
pub fn write_le(b: &mut [u8], offset: usize, v: u64, width: usize)
    requires
        width <= 8,
        offset + width <= old(b)@.len() <= usize::MAX,
    ensures
        final(b)@ == splice(old(b)@, offset as int, le_bytes(v as nat, width as nat)),
        final(b)@.take(offset + width) == old(b)@.take(offset as int) + le_bytes(
            v as nat,
            width as nat,
        ),
    no_unwind
{
    let ghost initial = b@;
    let mut x: u64 = v;
    let mut k: usize = 0;
    proof {
        lemma_le_bytes_len(v as nat, width as nat);
        assert(initial.subrange(offset as int, offset as int) + le_bytes(v as nat, width as nat)
            =~= le_bytes(v as nat, width as nat));
    }
    while k < width
        invariant
            k <= width <= 8,
            offset + width <= b@.len() <= usize::MAX,
            b@.len() == initial.len(),
            forall|i: int| 0 <= i < offset ==> b@[i] == initial[i],
            forall|i: int| offset + width <= i < b@.len() ==> b@[i] == initial[i],
            b@.subrange(offset as int, offset + k) + le_bytes(x as nat, (width - k) as nat)
                == le_bytes(v as nat, width as nat),
        decreases width - k,
    {
        let ghost before = b@;
        b[offset + k] = (x % 256) as u8;
        proof {
            let rest = le_bytes(x as nat, (width - k) as nat);
            assert(rest == seq![(x % 256) as u8] + le_bytes(x as nat / 256, (width - k - 1) as nat));
            assert(b@.subrange(offset as int, offset + k + 1) =~= before.subrange(
                offset as int,
                offset + k,
            ).push((x % 256) as u8));
            assert(b@.subrange(offset as int, offset + k + 1) + le_bytes(
                x as nat / 256,
                (width - k - 1) as nat,
            ) =~= before.subrange(offset as int, offset + k) + rest);
        }
        x = x / 256;
        k = k + 1;
    }
    proof {
        assert(le_bytes(x as nat, 0) =~= Seq::<u8>::empty());
        assert(b@.subrange(offset as int, offset + width) =~= le_bytes(v as nat, width as nat));
        assert(b@ =~= splice(initial, offset as int, le_bytes(v as nat, width as nat)));
        lemma_splice_prefix(initial, offset as int, le_bytes(v as nat, width as nat));
    }
}

/// Writes the `width` low-order bytes of `v` (at most eight) at `offset`, most significant
/// first.
pub fn write_be(b: &mut [u8], offset: usize, v: u64, width: usize)
    requires
        width <= 8,
        offset + width <= old(b)@.len() <= usize::MAX,
    ensures
        final(b)@ == splice(old(b)@, offset as int, be_bytes(v as nat, width as nat)),
        final(b)@.take(offset + width) == old(b)@.take(offset as int) + be_bytes(
            v as nat,
            width as nat,
        ),
    no_unwind
{
    let ghost initial = b@;
    let mut x: u64 = v;
    let mut k: usize = width;
    proof {
        lemma_be_bytes_len(v as nat, width as nat);
        assert(be_bytes(v as nat, width as nat) + initial.subrange(
            offset + width,
            offset + width,
        ) =~= be_bytes(v as nat, width as nat));
    }
    while k > 0
        invariant
            k <= width <= 8,
            offset + width <= b@.len() <= usize::MAX,
            b@.len() == initial.len(),
            forall|i: int| 0 <= i < offset ==> b@[i] == initial[i],
            forall|i: int| offset + width <= i < b@.len() ==> b@[i] == initial[i],
            be_bytes(x as nat, k as nat) + b@.subrange(offset + k, offset + width) == be_bytes(
                v as nat,
                width as nat,
            ),
        decreases k,
    {
        let ghost before = b@;
        b[offset + k - 1] = (x % 256) as u8;
        proof {
            let front = be_bytes(x as nat, k as nat);
            assert(front == be_bytes(x as nat / 256, (k - 1) as nat).push((x % 256) as u8));
            assert(b@.subrange(offset + k - 1, offset + width) =~= seq![(x % 256) as u8]
                + before.subrange(offset + k, offset + width));
            assert(be_bytes(x as nat / 256, (k - 1) as nat) + b@.subrange(
                offset + k - 1,
                offset + width,
            ) =~= front + before.subrange(offset + k, offset + width));
        }
        x = x / 256;
        k = k - 1;
    }
    proof {
        assert(be_bytes(x as nat, 0) =~= Seq::<u8>::empty());
        assert(b@.subrange(offset as int, offset + width) =~= be_bytes(v as nat, width as nat));
        assert(b@ =~= splice(initial, offset as int, be_bytes(v as nat, width as nat)));
        lemma_splice_prefix(initial, offset as int, be_bytes(v as nat, width as nat));
    }
}

/// Reads the big-endian integer of `width` bytes (at most eight) at `offset`.
pub fn read_be(b: &[u8], offset: usize, width: usize) -> (r: u64)
    requires
        width <= 8,
        offset + width <= b@.len(),
    ensures
        r == be_at(b@, offset as int, width as int),
        r < pow256(width as nat),
        width == 1 ==> r < 0x100,
        width == 2 ==> r < 0x1_0000,
        width == 4 ==> r < 0x1_0000_0000,
{
    let mut acc: u64 = 0;
    let mut k: usize = 0;
    let _len = b.len();
    proof {
        lemma_pow256_values();
        reveal_with_fuel(pow256, 9);
        assert(b@.subrange(offset as int, offset as int) =~= Seq::<u8>::empty());
    }
    while k < width
        invariant
            k <= width <= 8,
            offset + width <= b@.len() <= usize::MAX,
            acc == be_num(b@.subrange(offset as int, offset + k)),
            acc < pow256(k as nat),
            pow256(8) == 0x1_0000_0000_0000_0000,
            forall|j: nat| j < 8 ==> #[trigger] pow256(j + 1) == 256 * pow256(j),
        decreases width - k,
    {
        let byte = b[offset + k];
        let ghost head = b@.subrange(offset as int, offset + k);
        let ghost whole = b@.subrange(offset as int, offset + k + 1);
        assert(whole.drop_last() =~= head);
        proof {
            lemma_pow_monotone(k as nat, 7);
        }
        acc = acc * 256 + byte as u64;
        k = k + 1;
        assert(pow256(k as nat) == 256 * pow256((k - 1) as nat));
    }
    assert(b@.subrange(offset as int, offset + width) == field(b@, offset as int, width as int));
    acc
}

/// Copies `src` into `dst` starting at `offset`.
pub fn copy_into(dst: &mut [u8], offset: usize, src: &[u8])
    requires
        offset + src@.len() <= old(dst)@.len() <= usize::MAX,
    ensures
        final(dst)@ == splice(old(dst)@, offset as int, src@),
        final(dst)@.take(offset + src@.len()) == old(dst)@.take(offset as int) + src@,
{
    let n = src.len();
    copy_sized_into(dst, offset, src, n);
}

/// Copies the `n` bytes of `src` into `dst` starting at `offset`.
pub fn copy_sized_into(dst: &mut [u8], offset: usize, src: &[u8], n: usize)
    requires
        n == src@.len(),
        offset + src@.len() <= old(dst)@.len() <= usize::MAX,
    ensures
        final(dst)@ == splice(old(dst)@, offset as int, src@),
        final(dst)@.take(offset + src@.len()) == old(dst)@.take(offset as int) + src@,
    no_unwind
{
    let ghost initial = dst@;
    let mut k: usize = 0;
    while k < n
        invariant
            k <= n == src@.len(),
            offset + n <= dst@.len() <= usize::MAX,
            dst@.len() == initial.len(),
            forall|i: int| 0 <= i < offset ==> dst@[i] == initial[i],
            forall|i: int| offset + k <= i < dst@.len() ==> dst@[i] == initial[i],
            forall|i: int| 0 <= i < k ==> dst@[offset + i] == src@[i],
        decreases n - k,
    {
        dst[offset + k] = src[k];
        k = k + 1;
    }
    assert(dst@ =~= splice(initial, offset as int, src@));
    proof {
        lemma_splice_prefix(initial, offset as int, src@);
    }
}

/// Sets the bytes of `dst` in `start..end` to zero.
pub fn fill_zero(dst: &mut [u8], start: usize, end: usize)
    requires
        start <= end <= old(dst)@.len() <= usize::MAX,
    ensures
        final(dst)@ == splice(old(dst)@, start as int, zeros((end - start) as nat)),
    no_unwind
{
    let ghost initial = dst@;
    let mut k: usize = start;
    while k < end
        invariant
            start <= k <= end <= dst@.len(),
            dst@.len() == initial.len(),
            forall|i: int| 0 <= i < start ==> dst@[i] == initial[i],
            forall|i: int| k <= i < dst@.len() ==> dst@[i] == initial[i],
            forall|i: int| start <= i < k ==> dst@[i] == 0u8,
        decreases end - k,
    {
        dst[k] = 0;
        k = k + 1;
    }
    assert(dst@ =~= splice(initial, start as int, zeros((end - start) as nat)));
}

/// A vector of `n` zero bytes.
pub fn zeroed_vec(n: usize) -> (v: Vec<u8>)
    ensures
        v@ == zeros(n as nat),
{
    let mut v: Vec<u8> = Vec::new();
    let mut k: usize = 0;
    while k < n
        invariant
            k <= n,
            v@ == zeros(k as nat),
        decreases n - k,
    {
        v.push(0);
        k = k + 1;
        assert(v@ =~= zeros(k as nat));
    }
    v
}

/// Whether `s[start..end]` equals `t`.
pub fn range_equals(s: &[u8], start: usize, end: usize, t: &[u8]) -> (r: bool)
    requires
        start <= end <= s@.len(),
    ensures
        r == (s@.subrange(start as int, end as int) == t@),
{
    if end - start != t.len() {
        assert(s@.subrange(start as int, end as int).len() != t@.len());
        return false;
    }
    let mut k: usize = 0;
    while k < t.len()
        invariant
            end - start == t@.len(),
            start <= end <= s@.len(),
            k <= t@.len(),
            forall|i: int| 0 <= i < k ==> s@[start + i] == t@[i],
        decreases t@.len() - k,
    {
        if s[start + k] != t[k] {
            assert(s@.subrange(start as int, end as int)[k as int] != t@[k as int]);
            return false;
        }
        k = k + 1;
    }
    assert(s@.subrange(start as int, end as int) =~= t@);
    true
}

} // verus!
