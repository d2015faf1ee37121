//! Content identifiers and actor addresses.

use multihash_codetable::MultihashDigest;
use vstd::prelude::*;

verus! {

/// The identifier of a block of data, in its binary form.
#[derive(Debug)]
pub struct Cid {
    pub bytes: Vec<u8>,
}

impl View for Cid {
    type V = Seq<u8>;

    open spec fn view(&self) -> Seq<u8> {
        self.bytes@
    }
}

/// Compares two byte strings.
pub(crate) fn same_bytes(left: &Vec<u8>, right: &Vec<u8>) -> (same: bool)
    ensures
        same == (left@ == right@),
{
    if left.len() != right.len() {
        return false;
    }
    let mut i: usize = 0;
    while i < left.len()
        invariant
            i <= left.len(),
            left.len() == right.len(),
            forall|j: int| 0 <= j < i ==> left@[j] == right@[j],
        decreases left.len() - i,
    {
        if left[i] != right[i] {
            return false;
        }
        i = i + 1;
    }
    assert(left@ =~= right@);
    true
}

/// Copies a byte string.
pub(crate) fn copy_bytes(bytes: &Vec<u8>) -> (copy: Vec<u8>)
    ensures
        copy@ == bytes@,
{
    let copy = bytes.clone();
    assert(copy@ =~= bytes@);
    copy
}

impl Clone for Cid {
    fn clone(&self) -> (copy: Cid)
        ensures
            copy@ == self@,
    {
        Cid { bytes: copy_bytes(&self.bytes) }
    }
}

/// The BLAKE2b-256 digest of the given contents: what the `digest` method of
/// `multihash_codetable::Code::Blake2b256` returns for them.
pub uninterp spec fn blake2b_256(data: Seq<u8>) -> Seq<u8>;

/// Calls the `digest` method of `multihash_codetable::Code::Blake2b256`, and takes the bytes of the
/// digest. The contract names them: they depend on `data` alone. There are 32 of them.
#[verifier::external_body]
fn digest_of_block(data: &Vec<u8>) -> (digest: Vec<u8>)
    ensures
        digest@ == blake2b_256(data@),
        digest@.len() == 32,
{
    multihash_codetable::Code::Blake2b256.digest(data).digest().to_vec()
}

/// The binary identifier of a DAG-CBOR block with the given BLAKE2b-256 digest: the version, the
/// code of DAG-CBOR, the code of BLAKE2b-256 in three bytes, the length of the digest, and the
/// digest.
pub open spec fn digest_cid(digest: Seq<u8>) -> Seq<u8> {
    seq![0x01u8, 0x71u8, 0xa0u8, 0xe4u8, 0x02u8, 0x20u8] + digest
}

/// Calls `cid::Cid::new_v1` on the DAG-CBOR codec and on the multihash of the digest, and takes the
/// identifier's bytes: the version, the codec and the multihash, with each number in unsigned
/// LEB128. A multihash has room for the digest.
#[verifier::external_body]
fn cid_of_digest(digest: &Vec<u8>) -> (cid: Cid)
    requires
        digest@.len() == 32,
    ensures
        cid@ == digest_cid(digest@),
{
    let hash = multihash_codetable::Code::Blake2b256.wrap(digest).unwrap();
    Cid { bytes: cid::Cid::new_v1(fvm_ipld_encoding::DAG_CBOR, hash).to_bytes() }
}

/// The binary identifier of a DAG-CBOR block with the given contents.
pub open spec fn block_cid(data: Seq<u8>) -> Seq<u8> {
    digest_cid(blake2b_256(data))
}

/// The identifier of a DAG-CBOR block with the given contents.
pub fn cid_of_block(data: &Vec<u8>) -> (cid: Cid)
    ensures
        cid@ == block_cid(data@),
        cid@ == seq![0x01u8, 0x71u8, 0xa0u8, 0xe4u8, 0x02u8, 0x20u8] + blake2b_256(data@),
{
    cid_of_digest(&digest_of_block(data))
}

/// A set of content identifiers.
#[derive(Debug)]
pub struct CidSet {
    items: Vec<Cid>,
}

impl View for CidSet {
    type V = Set<Seq<u8>>;

    closed spec fn view(&self) -> Set<Seq<u8>> {
        self.items@.map_values(|cid: Cid| cid@).to_set()
    }
}

impl CidSet {
    /// No identifier is held twice.
    #[verifier::type_invariant]
    spec fn wf(self) -> bool {
        self.items@.map_values(|cid: Cid| cid@).no_duplicates()
    }

    /// The empty set.
    pub fn new() -> (set: CidSet)
        ensures
            set@ == Set::<Seq<u8>>::empty(),
    {
        let set = CidSet { items: Vec::new() };
        assert(set@ =~= Set::<Seq<u8>>::empty());
        set
    }

    /// Whether `cid` is in the set.
    pub fn contains(&self, cid: &Cid) -> (found: bool)
        ensures
            found == self@.contains(cid@),
    {
        let ghost values = self.items@.map_values(|cid: Cid| cid@);
        let mut i: usize = 0;
        while i < self.items.len()
            invariant
                i <= self.items.len(),
                values == self.items@.map_values(|cid: Cid| cid@),
                forall|j: int| 0 <= j < i ==> values[j] != cid@,
            decreases self.items.len() - i,
        {
            if same_bytes(&self.items[i].bytes, &cid.bytes) {
                assert(values[i as int] == cid@);
                return true;
            }
            i = i + 1;
        }
        false
    }

    /// The number of identifiers in the set.
    pub fn len(&self) -> (count: usize)
        ensures
            count == self@.len(),
    {
        proof {
            use_type_invariant(self);
            self.items@.map_values(|cid: Cid| cid@).unique_seq_to_set();
        }
        self.items.len()
    }

    /// The identifiers in the set, each of them once.
    pub fn items(&self) -> (items: &Vec<Cid>)
        ensures
            items@.map_values(|cid: Cid| cid@).no_duplicates(),
            items@.map_values(|cid: Cid| cid@).to_set() == self@,
    {
        proof {
            use_type_invariant(self);
        }
        &self.items
    }

    /// Adds `cid`. Returns whether it was not in the set before.
    pub fn insert(&mut self, cid: Cid) -> (added: bool)
        ensures
            final(self)@ == old(self)@.insert(cid@),
            added == !old(self)@.contains(cid@),
    {
        if self.contains(&cid) {
            assert(self@.insert(cid@) =~= self@);
            return false;
        }
        proof {
            use_type_invariant(&*self);
        }
        let ghost before = self.items@.map_values(|cid: Cid| cid@);
        let ghost value = cid@;
        let mut items: Vec<Cid> = Vec::new();
        std::mem::swap(&mut items, &mut self.items);
        items.push(cid);
        proof {
            let after = items@.map_values(|cid: Cid| cid@);
            assert(after =~= before.push(value));
            assert(!before.contains(value));
            assert forall|c: Seq<u8>| after.to_set().contains(c) <==> before.to_set().insert(
                value,
            ).contains(c) by {
                if before.contains(c) {
                    let i = choose|i: int| 0 <= i < before.len() && before[i] == c;
                    assert(after[i] == c);
                }
                assert(after[before.len() as int] == value);
            }
            assert(after.to_set() =~= old(self)@.insert(value));
        }
        self.items = items;
        true
    }
}

/// The address of an actor, in its binary form: the protocol byte and the payload.
#[derive(Debug)]
pub struct Address {
    pub bytes: Vec<u8>,
}

impl View for Address {
    type V = Seq<u8>;

    open spec fn view(&self) -> Seq<u8> {
        self.bytes@
    }
}

/// The unsigned LEB128 form of a number: seven bits to a byte, the low ones first, the top bit
/// set in every byte but the last.
pub open spec fn uleb128(n: nat) -> Seq<u8>
    decreases n,
{
    if n < 128 {
        seq![n as u8]
    } else {
        seq![(n % 128 + 128) as u8] + uleb128(n / 128)
    }
}

/// The binary form of the address of the actor with the given number.
pub open spec fn id_address(id: nat) -> Seq<u8> {
    seq![0u8] + uleb128(id)
}

impl Address {
    /// Calls `fvm_shared::address::Address::new_id` and takes the address's bytes: a zero for the
    /// protocol, then the number in unsigned LEB128.
    #[verifier::external_body]
    pub(crate) fn new_id(id: u64) -> (address: Address)
        ensures
            address@ == id_address(id as nat),
    {
        Address { bytes: fvm_shared::address::Address::new_id(id).to_bytes() }
    }
}

impl Clone for Address {
    fn clone(&self) -> (copy: Address)
        ensures
            copy@ == self@,
    {
        Address { bytes: copy_bytes(&self.bytes) }
    }
}

} // verus!
