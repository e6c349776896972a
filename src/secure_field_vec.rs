use crate::m31::{M31, BaseField, P};
use crate::qm31::{CM31, QM31, SecureField};
use vstd::prelude::*;

verus! {

/// The packed device layout of a sequence of secure-field values: four
/// consecutive words per value, coordinates in storage order.
pub open spec fn pack(s: Seq<QM31>) -> Seq<u32> {
    Seq::new(4 * s.len(), |j: int| s[j / 4].coord(j % 4).value)
}

/// The value stored at position `i` of a packed word array.
pub open spec fn unpack_at(w: Seq<u32>, i: int) -> QM31 {
    QM31::from_coords(
        M31 { value: w[4 * i] },
        M31 { value: w[4 * i + 1] },
        M31 { value: w[4 * i + 2] },
        M31 { value: w[4 * i + 3] },
    )
}

/// The first `n` values of a packed word array.
pub open spec fn unpack(w: Seq<u32>, n: nat) -> Seq<QM31> {
    Seq::new(n, |i: int| unpack_at(w, i))
}

/// An array of secure-field values resident in device memory, packed as four
/// words per value.
///
/// Like `BaseFieldVec`, the handle owns its memory exclusively and releases
/// it exactly once.
#[derive(Debug)]
pub struct SecureFieldVec {
    device_words: Vec<u32>,
    size: usize,
}

impl View for SecureFieldVec {
    type V = Seq<QM31>;

    closed spec fn view(&self) -> Seq<QM31> {
        unpack(self.device_words@, self.size as nat)
    }
}

impl SecureFieldVec {
    pub closed spec fn wf(&self) -> bool {
        self.device_words@.len() == 4 * self.size
    }

    /// The number of values the handle was made for.
    pub closed spec fn stored_size(&self) -> nat {
        self.size as nat
    }

    /// The packed words held in device memory.
    pub closed spec fn words(&self) -> Seq<u32> {
        self.device_words@
    }

    /// Takes ownership of `size` values already packed in device memory.
    pub fn new(device_words: Vec<u32>, size: usize) -> (r: SecureFieldVec)
        requires
            device_words@.len() == 4 * size,
        ensures
            r.wf(),
            r.words() == device_words@,
            r.stored_size() == size,
            r@ == unpack(device_words@, size as nat),
    {
        SecureFieldVec { device_words, size }
    }

    /// Copies a host array into freshly allocated device memory, packed.
    pub fn from_vec(host_array: Vec<SecureField>) -> (r: SecureFieldVec)
        requires
            4 * host_array@.len() <= usize::MAX,
        ensures
            r.wf(),
            r.words() == pack(host_array@),
            r@ == host_array@,
    {
        let n = host_array.len();
        let mut words: Vec<u32> = Vec::with_capacity(4 * n);
        let mut i: usize = 0;
        while i < n
            invariant
                i <= n,
                n == host_array@.len(),
                4 * n <= usize::MAX,
                words@.len() == 4 * i,
                forall|j: int| 0 <= j < 4 * i ==> #[trigger] words@[j] == host_array@[j / 4].coord(j % 4).value,
            decreases n - i,
        {
            let v = host_array[i];
            words.push(v.0.0.value);
            words.push(v.0.1.value);
            words.push(v.1.0.value);
            words.push(v.1.1.value);
            assert forall|j: int| 0 <= j < 4 * (i + 1) implies #[trigger] words@[j] == host_array@[j / 4].coord(j % 4).value by {
                if j >= 4 * i {
                    assert(j / 4 == i as int);
                }
            }
            i = i + 1;
        }
        assert(words@ =~= pack(host_array@));
        proof {
            lemma_round_trip(host_array@);
        }
        SecureFieldVec::new(words, n)
    }

    /// Copies the whole device array back into a new host array.
    pub fn to_vec(&self) -> (r: Vec<SecureField>)
        requires
            self.wf(),
        ensures
            r@ == self@,
    {
        let n = self.size;
        let word_count = self.device_words.len();
        let mut host_data: Vec<QM31> = Vec::with_capacity(n);
        let mut i: usize = 0;
        while i < n
            invariant
                i <= n,
                n == self.size,
                self.wf(),
                self.device_words@.len() == 4 * n,
                word_count == self.device_words@.len(),
                host_data@ == self@.take(i as int),
            decreases n - i,
        {
            let v = QM31(
                CM31(M31 { value: self.device_words[4 * i] }, M31 { value: self.device_words[4 * i + 1] }),
                CM31(M31 { value: self.device_words[4 * i + 2] }, M31 { value: self.device_words[4 * i + 3] }),
            );
            host_data.push(v);
            i = i + 1;
            assert(host_data@ =~= self@.take(i as int));
        }
        assert(host_data@ =~= self@);
        host_data
    }

    /// The number of values held.
    pub fn size(&self) -> (r: usize)
        ensures
            r == self.stored_size(),
            self.wf() ==> r == self@.len(),
    {
        self.size
    }
}

/// Packing a sequence of secure-field values into device words and unpacking
/// them again gives back the same sequence, whatever its length.
pub proof fn lemma_round_trip(s: Seq<QM31>)
    ensures
        unpack(pack(s), s.len()) == s,
{
    assert forall|i: int| 0 <= i < s.len() implies #[trigger] unpack(pack(s), s.len())[i] == s[i] by {
        assert((4 * i) / 4 == i && (4 * i) % 4 == 0);
        assert((4 * i + 1) / 4 == i && (4 * i + 1) % 4 == 1);
        assert((4 * i + 2) / 4 == i && (4 * i + 2) % 4 == 2);
        assert((4 * i + 3) / 4 == i && (4 * i + 3) % 4 == 3);
    }
    assert(unpack(pack(s), s.len()) =~= s);
}

} // verus!
