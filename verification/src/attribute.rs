//! Attributes with room of their own.

use crate::filename::at_most;
use vstd::prelude::*;
use vstd::slice::slice_subrange;

verus! {

/// Custom user attribute that can be set on files and directories.
///
/// Consists of a numerical identifier between 0 and 255, and arbitrary
/// binary data of up to 1022 bytes, for which the attribute has room itself.
#[derive(Clone, Copy, Debug)]
pub struct Attribute {
    id: u8,
    data: [u8; 1022],
    size: usize,
}

impl Attribute {
    /// The largest number of bytes in an attribute.
    pub const MAX_SIZE: usize = 1_022;

    #[verifier::type_invariant]
    pub closed spec fn well_formed(self) -> bool {
        &&& self.size <= 1022
        &&& forall|i: int| self.size <= i < 1022 ==> self.data@[i] == 0
    }

    /// The identifier of the attribute.
    pub closed spec fn spec_id(&self) -> u8 {
        self.id
    }

    /// The data of the attribute.
    pub closed spec fn spec_data(&self) -> Seq<u8> {
        self.data@.take(self.size as int)
    }

    /// The attribute of the identifier `id` without data.
    pub fn new(id: u8) -> (r: Attribute)
        ensures
            r.spec_id() == id,
            r.spec_data() == Seq::<u8>::empty(),
    {
        let r = Attribute { id, data: [0u8; 1022], size: 0 };
        assert(r.spec_data() =~= Seq::<u8>::empty());
        r
    }

    pub fn id(&self) -> (r: u8)
        ensures
            r == self.spec_id(),
    {
        self.id
    }

    pub fn data(&self) -> (r: &[u8])
        ensures
            r@ == self.spec_data(),
            r@.len() <= 1022,
    {
        proof {
            use_type_invariant(self);
        }
        let r = slice_subrange(self.data.as_slice(), 0, self.size);
        assert(r@ == self.data@.take(self.size as int));
        r
    }

    /// Gives the attribute the data `data`, of which at most 1022 bytes are taken.
    pub fn set_data(&mut self, data: &[u8])
        ensures
            final(self).spec_data() == at_most(data@, 1022),
            final(self).spec_id() == old(self).spec_id(),
    {
        let len = if data.len() <= 1022 {
            data.len()
        } else {
            1022
        };
        let mut buf = [0u8; 1022];
        let mut i: usize = 0;
        while i < len
            invariant
                len <= data@.len(),
                len <= 1022,
                i <= len,
                forall|j: int| 0 <= j < i ==> buf@[j] == data@[j],
                forall|j: int| i <= j < 1022 ==> buf@[j] == 0,
            decreases len - i,
        {
            buf[i] = data[i];
            i = i + 1;
        }
        assert(buf@.take(len as int) =~= at_most(data@, 1022));
        *self = Attribute { id: self.id, data: buf, size: len };
    }
}

impl PartialEq for Attribute {
    fn eq(&self, other: &Attribute) -> (r: bool) {
        self.id == other.id && crate::bytes::bytes_eq(self.data(), other.data())
    }
}

impl vstd::std_specs::cmp::PartialEqSpecImpl for Attribute {
    open spec fn obeys_eq_spec() -> bool {
        true
    }

    open spec fn eq_spec(&self, other: &Attribute) -> bool {
        self.spec_id() == other.spec_id() && self.spec_data() == other.spec_data()
    }
}

impl Eq for Attribute {

}

} // verus!
