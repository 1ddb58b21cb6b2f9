use vstd::prelude::*;

verus! {

/// A 256-bit hash, as its 32 bytes.
#[derive(Clone, Copy, Debug)]
pub struct H256(pub [u8; 32]);

/// The first 20 bytes of an account's script hash, which address its balances.
#[derive(Clone, Copy, Debug)]
pub struct ShortAddress(pub [u8; 20]);

/// Byte-wise equality of two arrays of the same length.
fn bytes_equal<const N: usize>(a: &[u8; N], b: &[u8; N]) -> (r: bool)
    ensures
        r == (*a == *b),
{
    broadcast use vstd::array::group_array_axioms;

    let mut i: usize = 0;
    while i < N
        invariant
            i <= N,
            a@.len() == N,
            b@.len() == N,
            forall|j: int| 0 <= j < i ==> a@[j] == b@[j],
        decreases N - i,
    {
        if a[i] != b[i] {
            return false;
        }
        i = i + 1;
    }
    assert(a@ =~= b@);
    assert(*a =~= *b);
    true
}

impl PartialEq for H256 {
    fn eq(&self, o: &H256) -> (r: bool) {
        bytes_equal(&self.0, &o.0)
    }
}

impl vstd::std_specs::cmp::PartialEqSpecImpl for H256 {
    open spec fn obeys_eq_spec() -> bool {
        true
    }

    open spec fn eq_spec(&self, o: &H256) -> bool {
        *self == *o
    }
}

impl PartialEq for ShortAddress {
    fn eq(&self, o: &ShortAddress) -> (r: bool) {
        bytes_equal(&self.0, &o.0)
    }
}

impl vstd::std_specs::cmp::PartialEqSpecImpl for ShortAddress {
    open spec fn obeys_eq_spec() -> bool {
        true
    }

    open spec fn eq_spec(&self, o: &ShortAddress) -> bool {
        *self == *o
    }
}

impl H256 {
    /// The hash whose bytes are all zero.
    pub open spec fn zero_spec() -> H256 {
        H256(choose|a: [u8; 32]| a@ == Seq::new(32, |i: int| 0u8))
    }

    pub fn zero() -> (r: H256)
        ensures
            is_zero(r),
            r == H256::zero_spec(),
    {
        let r = H256([0u8; 32]);
        assert(r.0@ =~= Seq::new(32, |i: int| 0u8));
        proof {
            let z = H256::zero_spec();
            assert(z.0@ == Seq::new(32, |i: int| 0u8));
            lemma_hash_ext(z, r);
        }
        r
    }
}

/// Whether `a` is the short address of the script hash `h`: its first 20 bytes.
pub open spec fn is_short_address_of(a: ShortAddress, h: H256) -> bool {
    a.0@ == h.0@.subrange(0, 20)
}

/// The short address of the script hash `h`.
pub open spec fn short_address(h: H256) -> ShortAddress {
    choose|a: ShortAddress| is_short_address_of(a, h)
}

/// The hash whose bytes are `s` (32 of them).
pub open spec fn hash_from(s: Seq<u8>) -> H256 {
    H256(choose|a: [u8; 32]| a@ == s)
}

/// Whether every byte of `h` is zero.
pub open spec fn is_zero(h: H256) -> bool {
    h.0@ == Seq::new(32, |i: int| 0u8)
}

/// Two hashes with the same bytes are the same hash.
pub proof fn lemma_hash_ext(a: H256, b: H256)
    requires
        a.0@ == b.0@,
    ensures
        a == b,
{
    broadcast use vstd::array::group_array_axioms;

    assert(a.0 =~= b.0);
}

/// The short address of a script hash.
pub fn to_short_address(h: &H256) -> (r: ShortAddress)
    ensures
        is_short_address_of(r, *h),
        r == short_address(*h),
{
    let mut bytes = [0u8; 20];
    let mut i: usize = 0;
    while i < 20
        invariant
            i <= 20,
            h.0@.len() == 32,
            bytes@.len() == 20,
            forall|j: int| 0 <= j < i ==> bytes@[j] == h.0@[j],
        decreases 20 - i,
    {
        bytes[i] = h.0[i];
        i = i + 1;
    }
    let r = ShortAddress(bytes);
    assert(r.0@ =~= h.0@.subrange(0, 20));
    proof {
        let c = short_address(*h);
        assert(is_short_address_of(r, *h));
        assert(is_short_address_of(c, *h));
        broadcast use vstd::array::group_array_axioms;

        assert(c.0 =~= r.0);
    }
    r
}

/// Byte-wise equality of two byte strings.
pub fn same_bytes(a: &Vec<u8>, b: &Vec<u8>) -> (r: bool)
    ensures
        r == (a@ == b@),
{
    if a.len() != b.len() {
        return false;
    }
    let mut i: usize = 0;
    while i < a.len()
        invariant
            i <= a@.len(),
            a@.len() == b@.len(),
            forall|j: int| 0 <= j < i ==> a@[j] == b@[j],
        decreases a@.len() - i,
    {
        if a[i] != b[i] {
            return false;
        }
        i = i + 1;
    }
    assert(a@ =~= b@);
    true
}

} // verus!
