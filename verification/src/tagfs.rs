//! Tag-indexed object store: objects carry numeric ids and are found
//! through a two-table cuckoo-style hash index keyed by short tags.

use vstd::prelude::*;
use vstd::string::StringSliceAdditionalSpecFns;

verus! {

/// Number of buckets in each of the two hash tables.
pub const HASH_TABLE_SIZE: usize = 4096;

/// Maximum length in bytes of a tag.
pub const TAG_MAX_LEN: usize = 32;

/// TagFS errors.
#[derive(Clone, Copy, PartialEq, Eq, Structural, Debug)]
pub enum TagFsError {
    HashTableFull,
    ObjectNotFound,
    InvalidTag,
    StorageFull,
}

/// Object metadata.
#[derive(Clone, Copy, PartialEq, Eq, Structural, Debug)]
pub struct ObjectMeta {
    /// Object ID.
    pub id: u64,
    /// Size in bytes.
    pub size: u32,
}

impl ObjectMeta {
    pub fn new(id: u64, size: u32) -> (m: Self)
        ensures
            m.id == id,
            m.size == size,
    {
        Self { id, size }
    }
}

/// A short tag: up to [`TAG_MAX_LEN`] bytes of a name, truncated at
/// creation.
#[derive(Debug)]
pub struct Tag {
    data: Vec<u8>,
}

impl Tag {
    /// The tag's bytes.
    pub closed spec fn bytes(self) -> Seq<u8> {
        self.data@
    }

    /// Structural invariant.
    pub open spec fn wf(self) -> bool {
        self.bytes().len() <= TAG_MAX_LEN
    }

    /// Build a tag from a name, keeping at most the first
    /// [`TAG_MAX_LEN`] bytes.
    pub fn new(s: &str) -> (t: Self)
        ensures
            t.wf(),
            t.bytes() == if s.spec_bytes().len() <= TAG_MAX_LEN {
                s.spec_bytes()
            } else {
                s.spec_bytes().take(TAG_MAX_LEN as int)
            },
    {
        let bytes = s.as_bytes();
        let n = if bytes.len() < TAG_MAX_LEN {
            bytes.len()
        } else {
            TAG_MAX_LEN
        };
        let mut data: Vec<u8> = Vec::new();
        let mut i: usize = 0;
        while i < n
            invariant
                n <= bytes@.len(),
                i <= n,
                data@.len() == i,
                forall|j: int| 0 <= j < i ==> (#[trigger] data@[j]) == bytes@[j],
            decreases n - i,
        {
            data.push(bytes[i]);
            i = i + 1;
        }
        proof {
            if s.spec_bytes().len() <= TAG_MAX_LEN {
                assert(data@ =~= s.spec_bytes());
            } else {
                assert(data@ =~= s.spec_bytes().take(TAG_MAX_LEN as int));
            }
        }
        Self { data }
    }

    /// View the tag as a string slice; a tag whose bytes are not valid
    /// UTF-8 (a name truncated inside a multi-byte character) reads as
    /// the empty string.
    pub fn as_str(&self) -> (r: &str)
        ensures
            vstd::utf8::valid_utf8(self.bytes()) ==> r.spec_bytes() == self.bytes(),
            !vstd::utf8::valid_utf8(self.bytes()) ==> r.spec_bytes() == Seq::<u8>::empty(),
    {
        bytes_as_str(self.data.as_slice())
    }
}

/// Relies on core::str::from_utf8: `Ok` exactly on valid UTF-8, with the
/// returned slice reading back the same bytes; invalid bytes fall back to
/// the empty string here.
#[verifier::external_body]
fn bytes_as_str(b: &[u8]) -> (r: &str)
    ensures
        vstd::utf8::valid_utf8(b@) ==> r.spec_bytes() == b@,
        !vstd::utf8::valid_utf8(b@) ==> r.spec_bytes() == Seq::<u8>::empty(),
{
    core::str::from_utf8(b).unwrap_or("")
}

impl Clone for Tag {
    /// A clone carries the same bytes.
    fn clone(&self) -> (r: Self)
        ensures
            r.bytes() == self.bytes(),
    {
        let n = self.data.len();
        let mut data: Vec<u8> = Vec::new();
        let mut i: usize = 0;
        while i < n
            invariant
                n == self.data@.len(),
                i <= n,
                data@.len() == i,
                forall|j: int| 0 <= j < i ==> (#[trigger] data@[j]) == self.data@[j],
            decreases n - i,
        {
            data.push(self.data[i]);
            i = i + 1;
        }
        proof {
            assert(data@ =~= self.data@);
        }
        Self { data }
    }
}

impl PartialEq for Tag {
    /// Two tags are equal when their bytes are.
    fn eq(&self, other: &Tag) -> (r: bool) {
        let n = self.data.len();
        if n != other.data.len() {
            return false;
        }
        let mut i: usize = 0;
        while i < n
            invariant
                n == self.data@.len(),
                n == other.data@.len(),
                i <= n,
                forall|j: int| 0 <= j < i ==> (#[trigger] self.data@[j]) == other.data@[j],
            decreases n - i,
        {
            if self.data[i] != other.data[i] {
                return false;
            }
            i = i + 1;
        }
        proof {
            assert(self.data@ =~= other.data@);
        }
        true
    }
}

impl vstd::std_specs::cmp::PartialEqSpecImpl for Tag {
    open spec fn obeys_eq_spec() -> bool {
        true
    }

    open spec fn eq_spec(&self, other: &Tag) -> bool {
        self.bytes() == other.bytes()
    }
}

impl Eq for Tag {

}

/// Multiply-and-add hash of a byte sequence, wrapping in 64 bits.
pub open spec fn fold_hash(bytes: Seq<u8>, seed: u64, factor: u64) -> u64
    decreases bytes.len(),
{
    if bytes.len() == 0 {
        seed
    } else {
        ((fold_hash(bytes.drop_last(), seed, factor) * factor + bytes.last()) % 0x1_0000_0000_0000_0000) as u64
    }
}

/// Bucket of a tag's bytes in the first table.
pub open spec fn bucket1(bytes: Seq<u8>) -> int {
    fold_hash(bytes, 0, 31) as int % (HASH_TABLE_SIZE as int)
}

/// Bucket of a tag's bytes in the second table.
pub open spec fn bucket2(bytes: Seq<u8>) -> int {
    fold_hash(bytes, 5381, 33) as int % (HASH_TABLE_SIZE as int)
}

/// Two-table hash index from tags to object ids.  An insertion takes the
/// first table's bucket when it is free, the second table's bucket
/// otherwise, and fails when both are taken (no eviction is performed).
pub struct TagIndex {
    table1: Vec<Option<(Tag, u64)>>,
    table2: Vec<Option<(Tag, u64)>>,
}

impl TagIndex {
    /// The first table's buckets, each holding a tag's bytes and the
    /// bound object id.
    pub closed spec fn buckets1(self) -> Seq<Option<(Seq<u8>, u64)>> {
        Seq::new(
            self.table1@.len(),
            |i: int|
                match self.table1@[i] {
                    Some(entry) => Some((entry.0.bytes(), entry.1)),
                    None => None,
                },
        )
    }

    /// The second table's buckets.
    pub closed spec fn buckets2(self) -> Seq<Option<(Seq<u8>, u64)>> {
        Seq::new(
            self.table2@.len(),
            |i: int|
                match self.table2@[i] {
                    Some(entry) => Some((entry.0.bytes(), entry.1)),
                    None => None,
                },
        )
    }

    /// Structural invariant.
    pub open spec fn wf(self) -> bool {
        &&& self.buckets1().len() == HASH_TABLE_SIZE
        &&& self.buckets2().len() == HASH_TABLE_SIZE
    }

    /// What a lookup of a tag with these bytes finds: the first table's
    /// bucket when it holds the tag, else the second table's bucket when
    /// that holds it.
    pub open spec fn probe(self, bytes: Seq<u8>) -> Option<u64> {
        if self.buckets1()[bucket1(bytes)] is Some && self.buckets1()[bucket1(bytes)]->Some_0.0
            == bytes {
            Some(self.buckets1()[bucket1(bytes)]->Some_0.1)
        } else if self.buckets2()[bucket2(bytes)] is Some
            && self.buckets2()[bucket2(bytes)]->Some_0.0 == bytes {
            Some(self.buckets2()[bucket2(bytes)]->Some_0.1)
        } else {
            None
        }
    }

    /// Create an empty index.
    pub fn new() -> (idx: Self)
        ensures
            idx.wf(),
            forall|i: int| 0 <= i < HASH_TABLE_SIZE ==> (#[trigger] idx.buckets1()[i]) is None,
            forall|i: int| 0 <= i < HASH_TABLE_SIZE ==> (#[trigger] idx.buckets2()[i]) is None,
    {
        let mut table1: Vec<Option<(Tag, u64)>> = Vec::new();
        let mut table2: Vec<Option<(Tag, u64)>> = Vec::new();
        let mut i: usize = 0;
        while i < HASH_TABLE_SIZE
            invariant
                i <= HASH_TABLE_SIZE,
                table1@.len() == i,
                table2@.len() == i,
                forall|j: int| 0 <= j < i ==> (#[trigger] table1@[j]) is None,
                forall|j: int| 0 <= j < i ==> (#[trigger] table2@[j]) is None,
            decreases HASH_TABLE_SIZE - i,
        {
            table1.push(None);
            table2.push(None);
            i = i + 1;
        }
        Self { table1, table2 }
    }

    /// Hash for the first table (wrapping multiply-by-31 fold).
    fn hash1(&self, tag: &Tag) -> (h: usize)
        requires
            tag.wf(),
        ensures
            h == bucket1(tag.bytes()),
    {
        let mut h: u64 = 0;
        let n = tag.data.len();
        let mut i: usize = 0;
        while i < n
            invariant
                n == tag.bytes().len(),
                i <= n,
                h == fold_hash(tag.bytes().take(i as int), 0, 31),
            decreases n - i,
        {
            proof {
                assert(tag.bytes().take(i as int + 1).drop_last() =~= tag.bytes().take(i as int));
                assert(tag.bytes().take(i as int + 1).last() == tag.bytes()[i as int]);
            }
            h = h.wrapping_mul(31).wrapping_add(tag.data[i] as u64);
            i = i + 1;
        }
        proof {
            assert(tag.bytes().take(n as int) =~= tag.bytes());
        }
        (h % (HASH_TABLE_SIZE as u64)) as usize
    }

    /// Hash for the second table (wrapping multiply-by-33 fold, seeded).
    fn hash2(&self, tag: &Tag) -> (h: usize)
        requires
            tag.wf(),
        ensures
            h == bucket2(tag.bytes()),
    {
        let mut h: u64 = 5381;
        let n = tag.data.len();
        let mut i: usize = 0;
        while i < n
            invariant
                n == tag.bytes().len(),
                i <= n,
                h == fold_hash(tag.bytes().take(i as int), 5381, 33),
            decreases n - i,
        {
            proof {
                assert(tag.bytes().take(i as int + 1).drop_last() =~= tag.bytes().take(i as int));
                assert(tag.bytes().take(i as int + 1).last() == tag.bytes()[i as int]);
            }
            h = h.wrapping_mul(33).wrapping_add(tag.data[i] as u64);
            i = i + 1;
        }
        proof {
            assert(tag.bytes().take(n as int) =~= tag.bytes());
        }
        (h % (HASH_TABLE_SIZE as u64)) as usize
    }

    /// Insert a tag-to-object binding: into the first table's bucket if
    /// free, else the second table's bucket, else fail (no eviction).
    pub fn insert(&mut self, tag: Tag, object_id: u64) -> (r: Result<(), TagFsError>)
        requires
            old(self).wf(),
            tag.wf(),
        ensures
            final(self).wf(),
            if old(self).buckets1()[bucket1(tag.bytes())] is None {
                &&& r == Ok::<(), TagFsError>(())
                &&& final(self).buckets1() == old(self).buckets1().update(
                    bucket1(tag.bytes()),
                    Some((tag.bytes(), object_id)),
                )
                &&& final(self).buckets2() == old(self).buckets2()
            } else if old(self).buckets2()[bucket2(tag.bytes())] is None {
                &&& r == Ok::<(), TagFsError>(())
                &&& final(self).buckets1() == old(self).buckets1()
                &&& final(self).buckets2() == old(self).buckets2().update(
                    bucket2(tag.bytes()),
                    Some((tag.bytes(), object_id)),
                )
            } else {
                &&& r == Err::<(), TagFsError>(TagFsError::HashTableFull)
                &&& final(self).buckets1() == old(self).buckets1()
                &&& final(self).buckets2() == old(self).buckets2()
            },
    {
        let ghost pre = *self;
        let idx1 = self.hash1(&tag);
        if self.table1[idx1].is_none() {
            let ghost tag_bytes = tag.bytes();
            self.table1[idx1] = Some((tag, object_id));
            proof {
                assert(self.buckets1() =~= pre.buckets1().update(
                    bucket1(tag_bytes),
                    Some((tag_bytes, object_id)),
                ));
                assert(self.buckets2() =~= pre.buckets2());
            }
            return Ok(());
        }
        let idx2 = self.hash2(&tag);
        if self.table2[idx2].is_none() {
            let ghost tag_bytes = tag.bytes();
            self.table2[idx2] = Some((tag, object_id));
            proof {
                assert(self.buckets2() =~= pre.buckets2().update(
                    bucket2(tag_bytes),
                    Some((tag_bytes, object_id)),
                ));
                assert(self.buckets1() =~= pre.buckets1());
            }
            return Ok(());
        }
        Err(TagFsError::HashTableFull)
    }

    /// Look a tag up, probing the first table's bucket and then the
    /// second table's.
    pub fn lookup(&self, tag: &Tag) -> (r: Option<u64>)
        requires
            self.wf(),
            tag.wf(),
        ensures
            r == self.probe(tag.bytes()),
    {
        let idx1 = self.hash1(tag);
        match &self.table1[idx1] {
            Some(entry) => {
                if entry.0.eq(tag) {
                    return Some(entry.1);
                }
            },
            None => {},
        }
        let idx2 = self.hash2(tag);
        match &self.table2[idx2] {
            Some(entry) => {
                if entry.0.eq(tag) {
                    return Some(entry.1);
                }
            },
            None => {},
        }
        None
    }
}

/// One attempted insertion at the spec level: the tables after binding
/// `bytes` to `object_id`, plus whether the insertion found room.
pub open spec fn insert_step(
    b1: Seq<Option<(Seq<u8>, u64)>>,
    b2: Seq<Option<(Seq<u8>, u64)>>,
    bytes: Seq<u8>,
    object_id: u64,
) -> (Seq<Option<(Seq<u8>, u64)>>, Seq<Option<(Seq<u8>, u64)>>, bool) {
    if b1[bucket1(bytes)] is None {
        (b1.update(bucket1(bytes), Some((bytes, object_id))), b2, true)
    } else if b2[bucket2(bytes)] is None {
        (b1, b2.update(bucket2(bytes), Some((bytes, object_id))), true)
    } else {
        (b1, b2, false)
    }
}

/// Insertions of a run of tags, stopping at the first that finds no
/// room: the final tables and whether every tag was placed.
pub open spec fn insert_all(
    b1: Seq<Option<(Seq<u8>, u64)>>,
    b2: Seq<Option<(Seq<u8>, u64)>>,
    tags: Seq<Seq<u8>>,
    object_id: u64,
) -> (Seq<Option<(Seq<u8>, u64)>>, Seq<Option<(Seq<u8>, u64)>>, bool)
    decreases tags.len(),
{
    if tags.len() == 0 {
        (b1, b2, true)
    } else {
        let step = insert_step(b1, b2, tags[0], object_id);
        if !step.2 {
            (step.0, step.1, false)
        } else {
            insert_all(step.0, step.1, tags.drop_first(), object_id)
        }
    }
}

/// The tag-indexed store: the hash index plus the object-id counter.
/// Object payloads themselves are the storage subsystem's concern and are
/// not retained here.
pub struct TagFs {
    index: TagIndex,
    next_object_id: u64,
}

impl TagFs {
    /// The hash index.
    pub closed spec fn index_state(self) -> TagIndex {
        self.index
    }

    /// The id the next created object receives.
    pub closed spec fn next_object(self) -> u64 {
        self.next_object_id
    }

    /// Structural invariant.
    pub open spec fn wf(self) -> bool {
        &&& self.index_state().wf()
        &&& self.next_object() >= 1
    }

    /// Initialize an empty store; object ids start at 1.
    pub fn init() -> (r: Self)
        ensures
            r.wf(),
            r.next_object() == 1,
            forall|i: int|
                0 <= i < HASH_TABLE_SIZE ==> (#[trigger] r.index_state().buckets1()[i]) is None,
            forall|i: int|
                0 <= i < HASH_TABLE_SIZE ==> (#[trigger] r.index_state().buckets2()[i]) is None,
    {
        Self { index: TagIndex::new(), next_object_id: 1 }
    }

    /// Create a new object: allocate the next id and bind every given tag
    /// to it.  The id is consumed even when a tag finds no room, in which
    /// case the tags before it stay bound and `HashTableFull` is
    /// reported; ids exhaust with `StorageFull`.
    pub fn tagfs_create(&mut self, tags: &Vec<Tag>, _data: &[u8]) -> (r: Result<u64, TagFsError>)
        requires
            old(self).wf(),
            forall|i: int| 0 <= i < tags@.len() ==> (#[trigger] tags@[i]).wf(),
        ensures
            final(self).wf(),
            if old(self).next_object() == u64::MAX {
                r == Err::<u64, TagFsError>(TagFsError::StorageFull) && *final(self) == *old(self)
            } else {
                let run = insert_all(
                    old(self).index_state().buckets1(),
                    old(self).index_state().buckets2(),
                    tags@.map_values(|t: Tag| t.bytes()),
                    old(self).next_object(),
                );
                &&& final(self).index_state().buckets1() == run.0
                &&& final(self).index_state().buckets2() == run.1
                &&& final(self).next_object() == old(self).next_object() + 1
                &&& r == if run.2 {
                    Ok::<u64, TagFsError>(old(self).next_object())
                } else {
                    Err::<u64, TagFsError>(TagFsError::HashTableFull)
                }
            },
    {
        if self.next_object_id == u64::MAX {
            return Err(TagFsError::StorageFull);
        }
        let object_id = self.next_object_id;
        self.next_object_id = object_id + 1;
        let ghost all = tags@.map_values(|t: Tag| t.bytes());
        proof {
            assert(all.skip(0) =~= all);
        }
        let n = tags.len();
        let mut i: usize = 0;
        while i < n
            invariant
                self.index.wf(),
                object_id == old(self).next_object(),
                object_id < u64::MAX,
                self.next_object_id == object_id + 1,
                object_id >= 1,
                n == tags@.len(),
                all == tags@.map_values(|t: Tag| t.bytes()),
                forall|k: int| 0 <= k < n ==> (#[trigger] tags@[k]).wf(),
                i <= n,
                insert_all(old(self).index_state().buckets1(), old(self).index_state().buckets2(), all, object_id)
                    == insert_all(self.index.buckets1(), self.index.buckets2(), all.skip(i as int), object_id),
            decreases n - i,
        {
            let tag = tags[i].clone();
            let ghost pre_index = self.index;
            proof {
                assert(all[i as int] == tags@[i as int].bytes());
                assert(tag.bytes() == all[i as int]);
            }
            let inserted = self.index.insert(tag, object_id);
            proof {
                assert(all.skip(i as int)[0] == all[i as int]);
                assert(all.skip(i as int).drop_first() =~= all.skip(i as int + 1));
            }
            match inserted {
                Ok(()) => {},
                Err(_) => {
                    proof {
                        let step = insert_step(
                            pre_index.buckets1(),
                            pre_index.buckets2(),
                            all.skip(i as int)[0],
                            object_id,
                        );
                        assert(!step.2);
                        assert(insert_all(
                            pre_index.buckets1(),
                            pre_index.buckets2(),
                            all.skip(i as int),
                            object_id,
                        ) == (pre_index.buckets1(), pre_index.buckets2(), false));
                        assert(self.index.buckets1() == pre_index.buckets1());
                        assert(self.index.buckets2() == pre_index.buckets2());
                    }
                    return Err(TagFsError::HashTableFull);
                },
            }
            i = i + 1;
        }
        proof {
            assert(all.skip(n as int) =~= Seq::<Seq<u8>>::empty());
        }
        Ok(object_id)
    }

    /// Find the object bound to a tag.
    pub fn tagfs_query(&self, tag: &Tag) -> (r: Option<u64>)
        requires
            self.wf(),
            tag.wf(),
        ensures
            r == self.index_state().probe(tag.bytes()),
    {
        self.index.lookup(tag)
    }

    /// Bind one more tag to an existing object id.
    pub fn tagfs_add_tag(&mut self, object_id: u64, tag: Tag) -> (r: Result<(), TagFsError>)
        requires
            old(self).wf(),
            tag.wf(),
        ensures
            final(self).wf(),
            final(self).next_object() == old(self).next_object(),
            ({
                let step = insert_step(
                    old(self).index_state().buckets1(),
                    old(self).index_state().buckets2(),
                    tag.bytes(),
                    object_id,
                );
                &&& final(self).index_state().buckets1() == step.0
                &&& final(self).index_state().buckets2() == step.1
                &&& r == if step.2 {
                    Ok::<(), TagFsError>(())
                } else {
                    Err::<(), TagFsError>(TagFsError::HashTableFull)
                }
            }),
    {
        self.index.insert(tag, object_id)
    }
}

} // verus!
