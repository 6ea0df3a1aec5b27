//! Kitties and their genders.

use vstd::prelude::*;

verus! {

/// The two genders a kitty can have.
#[derive(Clone, Copy, Debug, PartialEq, Eq, Structural)]
pub enum KittyGender {
    Male,
    Female,
}

/// A kitty: sixteen bytes of DNA, never changed once the kitty exists.
#[derive(Clone, Copy, Debug, PartialEq, Eq)]
pub struct Kitty(pub [u8; 16]);

impl View for Kitty {
    type V = Seq<u8>;

    /// The DNA as a sequence of sixteen bytes.
    open spec fn view(&self) -> Seq<u8> {
        self.0@
    }
}

/// The gender that a DNA determines: male where its first byte is even,
/// female where it is odd.
pub open spec fn spec_gender(dna: Seq<u8>) -> KittyGender {
    if dna[0] % 2 == 0 {
        KittyGender::Male
    } else {
        KittyGender::Female
    }
}

impl Kitty {
    /// The kitty's gender, derived from the first byte of its DNA.
    pub fn gender(&self) -> (g: KittyGender)
        ensures
            g == spec_gender(self@),
            g == KittyGender::Male <==> self@[0] % 2 == 0,
            g == KittyGender::Female <==> self@[0] % 2 == 1,
    {
        if self.0[0] % 2 == 0 {
            KittyGender::Male
        } else {
            KittyGender::Female
        }
    }
}

} // verus!
