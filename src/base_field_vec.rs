use crate::m31::{M31, BaseField, P};
use vstd::prelude::*;

verus! {

/// An array of base-field elements resident in device memory.
///
/// The handle owns its memory exclusively: it has no `Clone`, so a copy of the
/// handle can never alias the same storage, and the memory is released exactly
/// once, when the handle goes out of scope.
#[derive(Debug)]
pub struct BaseFieldVec {
    device_data: Vec<M31>,
}

impl View for BaseFieldVec {
    type V = Seq<M31>;

    closed spec fn view(&self) -> Seq<M31> {
        self.device_data@
    }
}

/// Every element of the sequence is in canonical form.
pub open spec fn all_wf(s: Seq<M31>) -> bool {
    forall|i: int| 0 <= i < s.len() ==> (#[trigger] s[i]).wf()
}

impl BaseFieldVec {
    /// Copies a host array into freshly allocated device memory.
    pub fn new(host_array: Vec<BaseField>) -> (r: BaseFieldVec)
        ensures
            r@ == host_array@,
    {
        BaseFieldVec { device_data: host_array }
    }

    /// Same as `new`.
    pub fn from_vec(host_array: Vec<BaseField>) -> (r: BaseFieldVec)
        ensures
            r@ == host_array@,
    {
        BaseFieldVec::new(host_array)
    }

    /// Allocates `n` elements on the device, all equal to zero.
    pub fn new_zeroes(n: usize) -> (r: BaseFieldVec)
        ensures
            r@ == Seq::new(n as nat, |i: int| M31 { value: 0 }),
    {
        let mut data: Vec<M31> = Vec::with_capacity(n);
        let mut i: usize = 0;
        while i < n
            invariant
                i <= n,
                data@ == Seq::new(i as nat, |j: int| M31 { value: 0 }),
            decreases n - i,
        {
            data.push(M31::zero());
            i = i + 1;
            assert(data@ =~= Seq::new(i as nat, |j: int| M31 { value: 0 }));
        }
        BaseFieldVec { device_data: data }
    }

    /// Copies the whole device array back into a new host array.
    pub fn to_vec(&self) -> (r: Vec<BaseField>)
        ensures
            r@ == self@,
    {
        let n = self.device_data.len();
        let mut host_data: Vec<M31> = Vec::with_capacity(n);
        let mut i: usize = 0;
        while i < n
            invariant
                i <= n,
                n == self@.len(),
                host_data@ == self@.take(i as int),
            decreases n - i,
        {
            host_data.push(self.device_data[i]);
            i = i + 1;
            assert(host_data@ =~= self@.take(i as int));
        }
        assert(host_data@ =~= self@);
        host_data
    }

    /// The number of elements held.
    pub fn size(&self) -> (r: usize)
        ensures
            r == self@.len(),
    {
        self.device_data.len()
    }

    /// Reads one element on the device.
    pub fn at(&self, i: usize) -> (r: M31)
        requires
            i < self@.len(),
        ensures
            r == self@[i as int],
    {
        self.device_data[i]
    }

    /// Writes one element on the device.
    pub fn set(&mut self, i: usize, v: M31)
        requires
            i < old(self)@.len(),
        ensures
            final(self)@ == old(self)@.update(i as int, v),
    {
        self.device_data.set(i, v);
    }

    /// Builds an array from a device array already filled by a computation.
    pub(crate) fn from_device(device_data: Vec<M31>) -> (r: BaseFieldVec)
        ensures
            r@ == device_data@,
    {
        BaseFieldVec { device_data }
    }
}

} // verus!
