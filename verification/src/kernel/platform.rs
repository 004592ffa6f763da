//! The processor's identity as CPUID reports it: the vendor and brand strings laid out from
//! the register values, where the text in them ends, and whether a hypervisor is present.
use vstd::prelude::*;
use crate::bytes::{le_bytes, lemma_le_bytes_len, write_le};

verus! {

/// The little-endian bytes of each register of `registers`, in order.
pub open spec fn register_bytes(registers: Seq<u32>) -> Seq<u8>
    decreases registers.len(),
{
    if registers.len() == 0 {
        Seq::empty()
    } else {
        register_bytes(registers.drop_last()) + le_bytes(registers.last() as nat, 4)
    }
}

proof fn lemma_register_bytes_len(registers: Seq<u32>)
    ensures
        register_bytes(registers).len() == 4 * registers.len(),
    decreases registers.len(),
{
    if registers.len() > 0 {
        lemma_register_bytes_len(registers.drop_last());
        lemma_le_bytes_len(registers.last() as nat, 4);
    }
}

/// Lays the registers out one after another, each little-endian, as CPUID's strings are.
pub fn registers_to_bytes(registers: &[u32]) -> (r: Vec<u8>)
    requires
        registers.len() <= 16,
    ensures
        r@ == register_bytes(registers@),
{
    let mut bytes: Vec<u8> = Vec::new();
    let mut k: usize = 0;
    while k < registers.len()
        invariant
            k <= registers.len() <= 16,
            bytes@ == register_bytes(registers@.take(k as int)),
        decreases registers.len() - k,
    {
        proof {
            lemma_register_bytes_len(registers@.take(k as int));
            lemma_le_bytes_len(registers@[k as int] as nat, 4);
        }
        let start = bytes.len();
        bytes.push(0);
        bytes.push(0);
        bytes.push(0);
        bytes.push(0);
        let ghost before = bytes@;
        write_le(bytes.as_mut_slice(), start, registers[k] as u64, 4);
        proof {
            assert(registers@.take(k as int + 1).drop_last() =~= registers@.take(k as int));
            assert(bytes@ =~= register_bytes(registers@.take(k as int)) + le_bytes(
                registers@[k as int] as nat,
                4,
            ));
        }
        k = k + 1;
    }
    assert(registers@.take(registers.len() as int) =~= registers@);
    bytes
}

/// The vendor string of leaf 0: EBX, EDX, then ECX.
pub fn vendor_bytes(ebx: u32, edx: u32, ecx: u32) -> (r: Vec<u8>)
    ensures
        r@ == register_bytes(seq![ebx, edx, ecx]),
        r@.len() == 12,
{
    let registers = [ebx, edx, ecx];
    proof {
        assert(registers@ =~= seq![ebx, edx, ecx]);
        lemma_register_bytes_len(seq![ebx, edx, ecx]);
    }
    registers_to_bytes(vstd::array::array_as_slice(&registers))
}

/// The brand string is there when the highest extended leaf reaches its last part.
pub fn has_brand_string(max_extended_leaf: u32) -> (r: bool)
    ensures
        r == (max_extended_leaf >= 0x8000_0004),
{
    max_extended_leaf >= 0x8000_0004
}

/// Leaf 1's ECX bit 31 tells that the processor runs under a hypervisor.
pub fn hypervisor_present(features_ecx: u32) -> (r: bool)
    ensures
        r == (features_ecx & 0x8000_0000 != 0),
{
    features_ecx & 0x8000_0000 != 0
}

/// Where the text of a string field ends: at its first zero byte, or at its end.
pub fn text_length(bytes: &[u8]) -> (r: usize)
    ensures
        r <= bytes.len(),
        forall|i: int| 0 <= i < r ==> bytes@[i] != 0,
        r < bytes.len() ==> bytes@[r as int] == 0,
{
    let mut k: usize = 0;
    while k < bytes.len()
        invariant
            k <= bytes.len(),
            forall|i: int| 0 <= i < k ==> bytes@[i] != 0,
        decreases bytes.len() - k,
    {
        if bytes[k] == 0 {
            return k;
        }
        k = k + 1;
    }
    k
}

} // verus!
