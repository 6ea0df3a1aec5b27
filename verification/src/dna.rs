//! Combining the DNA of two parents under a selector.

use vstd::prelude::*;

verus! {

/// One byte of offspring DNA: where a bit of `selector` is 0 the bit of
/// `dna1` at that place, where it is 1 the bit of `dna2`.
pub open spec fn spec_combine_dna(dna1: u8, dna2: u8, selector: u8) -> u8 {
    (!selector & dna1) | (selector & dna2)
}

/// Whether the bit of `byte` at place `k` (0 is the lowest) is set.
pub open spec fn bit(byte: u8, k: u8) -> bool {
    (byte >> k) & 1 == 1
}

/// The offspring of two sixteen-byte DNAs: each byte combined on its own.
pub open spec fn spec_recombine(dna1: Seq<u8>, dna2: Seq<u8>, selector: Seq<u8>) -> Seq<u8> {
    Seq::new(16, |i: int| spec_combine_dna(dna1[i], dna2[i], selector[i]))
}

/// Takes each bit from `dna2` where the selector's bit is set, and from
/// `dna1` elsewhere.
pub fn combine_dna(dna1: u8, dna2: u8, selector: u8) -> (r: u8)
    ensures
        r == spec_combine_dna(dna1, dna2, selector),
        r == (dna1 & !selector) | (dna2 & selector),
        forall|k: u8| k < 8 ==> #[trigger] bit(r, k) == if bit(selector, k) {
            bit(dna2, k)
        } else {
            bit(dna1, k)
        },
{
    let r = (!selector & dna1) | (selector & dna2);
    proof {
        assert(r == (dna1 & !selector) | (dna2 & selector)) by (bit_vector)
            requires
                r == (!selector & dna1) | (selector & dna2),
        ;
        assert forall|k: u8| k < 8 implies #[trigger] bit(r, k) == if bit(selector, k) {
            bit(dna2, k)
        } else {
            bit(dna1, k)
        } by {
            lemma_combine_dna_selects_bits(dna1, dna2, selector, k);
        }
    }
    r
}

/// Every bit of a combined byte is the bit of the parent that the selector
/// names at that place: `dna1` for a 0, `dna2` for a 1. No bit comes from
/// anywhere else.
pub proof fn lemma_combine_dna_selects_bits(dna1: u8, dna2: u8, selector: u8, k: u8)
    requires
        k < 8,
    ensures
        bit(spec_combine_dna(dna1, dna2, selector), k) == if bit(selector, k) {
            bit(dna2, k)
        } else {
            bit(dna1, k)
        },
{
    assert(((((!selector & dna1) | (selector & dna2)) >> k) & 1 == 1) == (if (selector >> k) & 1
        == 1 {
        (dna2 >> k) & 1 == 1
    } else {
        (dna1 >> k) & 1 == 1
    })) by (bit_vector)
        requires
            k < 8,
    ;
}

/// Where the two parents agree on a bit, the combined byte has that bit,
/// whatever the selector is: it differs from `dna1` only where `dna2` does.
/// As a whole byte it is `dna1` exactly when the selector has a 0 wherever
/// the parents differ, and `dna2` exactly when it has a 1 wherever they
/// differ; under any other selector it is a third byte, made of bits of both.
pub proof fn lemma_combine_dna_stays_between_parents(dna1: u8, dna2: u8, selector: u8)
    ensures
        (spec_combine_dna(dna1, dna2, selector) ^ dna1) & !(dna1 ^ dna2) == 0,
        spec_combine_dna(dna1, dna2, selector) == dna1 <==> selector & (dna1 ^ dna2) == 0,
        spec_combine_dna(dna1, dna2, selector) == dna2 <==> !selector & (dna1 ^ dna2) == 0,
        spec_combine_dna(dna1, dna2, 0x00) == dna1,
        spec_combine_dna(dna1, dna2, 0xff) == dna2,
        dna1 == dna2 ==> spec_combine_dna(dna1, dna2, selector) == dna1,
{
    assert((((!selector & dna1) | (selector & dna2)) ^ dna1) & !(dna1 ^ dna2) == 0)
        by (bit_vector);
    assert(((!selector & dna1) | (selector & dna2) == dna1) == (selector & (dna1 ^ dna2) == 0))
        by (bit_vector);
    assert(((!selector & dna1) | (selector & dna2) == dna2) == (!selector & (dna1 ^ dna2) == 0))
        by (bit_vector);
    assert((!0x00u8 & dna1) | (0x00u8 & dna2) == dna1) by (bit_vector);
    assert((!0xffu8 & dna1) | (0xffu8 & dna2) == dna2) by (bit_vector);
    assert((!selector & dna1) | (selector & dna1) == dna1) by (bit_vector);
}

/// Every byte that differs from `dna1` only where `dna2` does is the
/// combined byte under some selector, for one under `target ^ dna1`.
pub proof fn lemma_combine_dna_reaches_all_between(dna1: u8, dna2: u8, target: u8)
    requires
        (target ^ dna1) & !(dna1 ^ dna2) == 0,
    ensures
        spec_combine_dna(dna1, dna2, target ^ dna1) == target,
{
    assert((!(target ^ dna1) & dna1) | ((target ^ dna1) & dna2) == target) by (bit_vector)
        requires
            (target ^ dna1) & !(dna1 ^ dna2) == 0,
    ;
}

/// Whether `dna` differs from `dna1` only in bits in which `dna2` differs
/// from `dna1` too: each of its bits is a bit of one of the parents.
pub open spec fn between(dna1: Seq<u8>, dna2: Seq<u8>, dna: Seq<u8>) -> bool {
    &&& dna.len() == 16
    &&& forall|i: int| 0 <= i < 16 ==> (#[trigger] dna[i] ^ dna1[i]) & !(dna1[i] ^ dna2[i]) == 0
}

/// Every offspring of two parents lies between them, and every DNA that
/// lies between them is their offspring under some selector: the offspring
/// of two parents are exactly the DNAs made of their bits.
pub proof fn lemma_recombine_spans_between(dna1: Seq<u8>, dna2: Seq<u8>, dna: Seq<u8>)
    ensures
        between(dna1, dna2, dna) <==> exists|selector: Seq<u8>|
            selector.len() == 16 && #[trigger] spec_recombine(dna1, dna2, selector) == dna,
{
    if between(dna1, dna2, dna) {
        let selector = Seq::new(16, |i: int| dna[i] ^ dna1[i]);
        assert forall|i: int| 0 <= i < 16 implies spec_recombine(dna1, dna2, selector)[i]
            == dna[i] by {
            lemma_combine_dna_reaches_all_between(dna1[i], dna2[i], dna[i]);
        }
        assert(spec_recombine(dna1, dna2, selector) =~= dna);
    }
    if exists|selector: Seq<u8>|
        selector.len() == 16 && #[trigger] spec_recombine(dna1, dna2, selector) == dna {
        let selector = choose|selector: Seq<u8>|
            selector.len() == 16 && #[trigger] spec_recombine(dna1, dna2, selector) == dna;
        assert forall|i: int| 0 <= i < 16 implies (#[trigger] dna[i] ^ dna1[i]) & !(dna1[i]
            ^ dna2[i]) == 0 by {
            lemma_combine_dna_stays_between_parents(dna1[i], dna2[i], selector[i]);
        }
    }
}

/// Combines two parents' DNA byte by byte under a sixteen-byte selector.
pub fn recombine(dna1: &[u8; 16], dna2: &[u8; 16], selector: &[u8; 16]) -> (r: [u8; 16])
    ensures
        r@ == spec_recombine(dna1@, dna2@, selector@),
        forall|i: int|
            0 <= i < 16 ==> #[trigger] r@[i] == (dna1@[i] & !selector@[i]) | (dna2@[i]
                & selector@[i]),
{
    let mut new_dna = [0u8; 16];
    let mut i: usize = 0;
    while i < 16
        invariant
            i <= 16,
            forall|j: int|
                0 <= j < i ==> #[trigger] new_dna@[j] == spec_combine_dna(
                    dna1@[j],
                    dna2@[j],
                    selector@[j],
                ),
            forall|j: int|
                0 <= j < i ==> #[trigger] new_dna@[j] == (dna1@[j] & !selector@[j]) | (dna2@[j]
                    & selector@[j]),
        decreases 16 - i,
    {
        new_dna[i] = combine_dna(dna1[i], dna2[i], selector[i]);
        i += 1;
    }
    new_dna
}

} // verus!
