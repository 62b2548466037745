use vstd::prelude::*;

verus! {

/// A 256-bit content identifier.
#[derive(Clone, Copy, Debug, Hash)]
pub struct Hash256 {
    pub bytes: [u8; 32],
}

/// The 32 bytes of the zero hash.
pub open spec fn zero_hash() -> Seq<u8> {
    Seq::new(32, |i: int| 0u8)
}

impl View for Hash256 {
    type V = Seq<u8>;

    open spec fn view(&self) -> Seq<u8> {
        self.bytes@
    }
}

impl Hash256 {
    /// The hash made of 32 zero bytes, which names the genesis states.
    pub fn zero() -> (r: Hash256)
        ensures
            r@ == zero_hash(),
    {
        let r = Hash256 { bytes: [0u8; 32] };
        assert(r@ =~= zero_hash());
        r
    }

    pub fn is_zero(&self) -> (r: bool)
        ensures
            r == (self@ == zero_hash()),
    {
        let mut i: usize = 0;
        while i < 32
            invariant
                0 <= i <= 32,
                forall|k: int| 0 <= k < i ==> self@[k] == 0u8,
            decreases 32 - i,
        {
            if self.bytes[i] != 0 {
                assert(self@[i as int] != zero_hash()[i as int]);
                return false;
            }
            i = i + 1;
        }
        assert(self@ =~= zero_hash());
        true
    }
}

impl PartialEq for Hash256 {
    fn eq(&self, o: &Hash256) -> (r: bool) {
        let mut i: usize = 0;
        while i < 32
            invariant
                0 <= i <= 32,
                forall|k: int| 0 <= k < i ==> self@[k] == o@[k],
            decreases 32 - i,
        {
            if self.bytes[i] != o.bytes[i] {
                return false;
            }
            i = i + 1;
        }
        assert(self@ =~= o@);
        true
    }
}

impl vstd::std_specs::cmp::PartialEqSpecImpl for Hash256 {
    open spec fn obeys_eq_spec() -> bool {
        true
    }

    open spec fn eq_spec(&self, o: &Hash256) -> bool {
        self@ == o@
    }
}

impl Eq for Hash256 {
}

} // verus!
