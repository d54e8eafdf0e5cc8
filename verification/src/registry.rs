//! Component registry: the flash-persisted set of provisioned component
//! identities, with enumeration and atomic identity replacement.
//!
//! The in-memory registry is an ordered sequence of 32-bit identifiers,
//! unique among themselves and bounded by a build-time capacity. Its
//! persistent image is a fixed-size byte block: a little-endian magic word
//! (the build-time seed, which makes an uninitialized store detectable), a
//! little-endian count, and one little-endian word per capacity slot, unused
//! slots zero. The unverified shell reads and writes that image in
//! non-volatile storage as one block, so persisted state is either the
//! pre-mutation or the fully-applied post-mutation registry, never a partial
//! write.

use vstd::prelude::*;

verus! {

/// How many component identities the registry can hold, fixed at build time.
pub const REGISTRY_CAPACITY: usize = 32;

/// Size of the persistent registry image in bytes: magic word, count word,
/// and one word per capacity slot.
pub const REGISTRY_IMAGE_SIZE: usize = 8 + REGISTRY_CAPACITY * 4;

/// How a registry operation can fail. Storage faults are kept distinct from
/// lookup failures, so the command layer can tell a corrupt store from a
/// merely absent identifier.
#[derive(Clone, Copy, Debug, PartialEq, Eq, Structural)]
pub enum RegistryError {
    /// The persistent image is unreadable: wrong size, wrong magic word, a
    /// count beyond capacity, or duplicated identifiers.
    Storage,
    /// The identifier to replace is not provisioned.
    NotFound,
    /// The replacement identifier is already provisioned elsewhere.
    Duplicate,
}

/// The provisioned identifiers are pairwise distinct.
pub open spec fn unique_ids(s: Seq<u32>) -> bool {
    forall|i: int, j: int| 0 <= i < j < s.len() ==> s[i] != s[j]
}

/// Little-endian reading of four bytes as one 32-bit word.
pub open spec fn spec_le32(b0: u8, b1: u8, b2: u8, b3: u8) -> u32 {
    (b0 as u32) | ((b1 as u32) << 8u32) | ((b2 as u32) << 16u32) | ((b3 as u32) << 24u32)
}

/// The word read little-endian at offset `off` of a byte sequence.
pub open spec fn spec_le32_at(b: Seq<u8>, off: int) -> u32 {
    spec_le32(b[off], b[off + 1], b[off + 2], b[off + 3])
}

/// Byte `k` (little-endian) of a 32-bit word.
pub open spec fn spec_byte_of(v: u32, k: int) -> u8 {
    if k == 0 {
        (v & 0xff) as u8
    } else if k == 1 {
        ((v >> 8u32) & 0xff) as u8
    } else if k == 2 {
        ((v >> 16u32) & 0xff) as u8
    } else {
        ((v >> 24u32) & 0xff) as u8
    }
}

/// Reassembling a word from its four little-endian bytes gives the word
/// back.
proof fn lemma_le32_of_bytes(v: u32)
    by (bit_vector)
    ensures
        spec_le32(
            (v & 0xff) as u8,
            ((v >> 8u32) & 0xff) as u8,
            ((v >> 16u32) & 0xff) as u8,
            ((v >> 24u32) & 0xff) as u8,
        ) == v,
{
}

/// Reads the word stored little-endian at offset `off`.
fn le32_read(bytes: &[u8], off: usize) -> (v: u32)
    requires
        off + 4 <= bytes@.len(),
    ensures
        v == spec_le32_at(bytes@, off as int),
{
    (bytes[off] as u32) | ((bytes[off + 1] as u32) << 8u32) | ((bytes[off + 2] as u32) << 16u32)
        | ((bytes[off + 3] as u32) << 24u32)
}

/// Appends the four little-endian bytes of `v`.
fn le32_push(out: &mut Vec<u8>, v: u32)
    ensures
        final(out)@ == old(out)@ + seq![
            spec_byte_of(v, 0),
            spec_byte_of(v, 1),
            spec_byte_of(v, 2),
            spec_byte_of(v, 3),
        ],
{
    proof {
        assert((v & 0xff) < 256 && ((v >> 8u32) & 0xff) < 256 && ((v >> 16u32) & 0xff) < 256 && ((v
            >> 24u32) & 0xff) < 256) by (bit_vector);
    }
    out.push((v & 0xff) as u8);
    out.push(((v >> 8u32) & 0xff) as u8);
    out.push(((v >> 16u32) & 0xff) as u8);
    out.push(((v >> 24u32) & 0xff) as u8);
    proof {
        assert(out@ =~= old(out)@ + seq![
            spec_byte_of(v, 0),
            spec_byte_of(v, 1),
            spec_byte_of(v, 2),
            spec_byte_of(v, 3),
        ]);
    }
}

/// Byte `i` of the persistent image of a registry holding `ids` under the
/// magic word `seed`.
pub open spec fn spec_image_byte(seed: u32, ids: Seq<u32>, i: int) -> u8 {
    if i < 4 {
        spec_byte_of(seed, i)
    } else if i < 8 {
        spec_byte_of(ids.len() as u32, i - 4)
    } else {
        let slot = (i - 8) / 4;
        let off = (i - 8) % 4;
        if slot < ids.len() {
            spec_byte_of(ids[slot], off)
        } else {
            0u8
        }
    }
}

/// The whole persistent image of a registry holding `ids` under the magic
/// word `seed`.
pub open spec fn spec_image(seed: u32, ids: Seq<u32>) -> Seq<u8> {
    Seq::new(REGISTRY_IMAGE_SIZE as nat, |i: int| spec_image_byte(seed, ids, i))
}

/// A stored byte block is a valid registry image under `seed` when it has
/// the image size, carries the magic word, and holds at most the capacity
/// in pairwise distinct identifiers.
pub open spec fn spec_image_ok(seed: u32, b: Seq<u8>) -> bool {
    &&& b.len() == REGISTRY_IMAGE_SIZE
    &&& spec_le32_at(b, 0) == seed
    &&& spec_le32_at(b, 4) <= REGISTRY_CAPACITY as u32
    &&& unique_ids(spec_image_ids(b))
}

/// The identifiers a stored image holds: its first `count` slots in storage
/// order.
pub open spec fn spec_image_ids(b: Seq<u8>) -> Seq<u32> {
    Seq::new(spec_le32_at(b, 4) as nat, |i: int| spec_le32_at(b, 8 + 4 * i))
}

/// In a word-aligned region, position `4 * s + r` falls in slot `s` at
/// byte `r`.
proof fn lemma_slot_index(s: int, r: int)
    requires
        0 <= s,
        0 <= r < 4,
    ensures
        (4 * s + r) / 4 == s,
        (4 * s + r) % 4 == r,
{
    vstd::arithmetic::div_mod::lemma_fundamental_div_mod_converse(4 * s + r, 4, s, r);
}

/// The persisted set of provisioned component identities.
pub struct Registry {
    ids: Vec<u32>,
}

impl View for Registry {
    type V = Seq<u32>;

    closed spec fn view(&self) -> Seq<u32> {
        self.ids@
    }
}

impl Registry {
    /// The registry's invariant: at most the capacity in identifiers, all
    /// pairwise distinct.
    pub open spec fn wf(&self) -> bool {
        self@.len() <= REGISTRY_CAPACITY && unique_ids(self@)
    }

    /// Whether `ids` holds two equal identifiers.
    fn has_duplicate(ids: &Vec<u32>) -> (r: bool)
        ensures
            r == !unique_ids(ids@),
    {
        let mut i: usize = 0;
        while i < ids.len()
            invariant
                i <= ids@.len(),
                forall|p: int, q: int| 0 <= p < q < ids@.len() && p < i ==> ids@[p] != ids@[q],
            decreases ids@.len() - i,
        {
            let mut j: usize = i + 1;
            while j < ids.len()
                invariant
                    i < j,
                    j <= ids@.len(),
                    i < ids@.len(),
                    forall|q: int| i < q < j ==> ids@[i as int] != ids@[q],
                decreases ids@.len() - j,
            {
                if ids[i] == ids[j] {
                    return true;
                }
                j = j + 1;
            }
            i = i + 1;
        }
        false
    }

    /// Decodes a stored image under `seed`. Any malformation — wrong size,
    /// wrong magic, count beyond capacity, duplicated identifiers — is a
    /// storage error, never a silently repaired registry.
    pub fn decode(seed: u32, bytes: &[u8]) -> (r: Result<Registry, RegistryError>)
        ensures
            match r {
                Ok(reg) => reg.wf() && spec_image_ok(seed, bytes@) && reg@ == spec_image_ids(
                    bytes@,
                ),
                Err(e) => e == RegistryError::Storage && !spec_image_ok(seed, bytes@),
            },
    {
        if bytes.len() != REGISTRY_IMAGE_SIZE {
            return Err(RegistryError::Storage);
        }
        let magic = le32_read(bytes, 0);
        if magic != seed {
            return Err(RegistryError::Storage);
        }
        let count_word = le32_read(bytes, 4);
        if count_word > REGISTRY_CAPACITY as u32 {
            return Err(RegistryError::Storage);
        }
        let count = count_word as usize;
        let mut ids: Vec<u32> = Vec::new();
        let mut i: usize = 0;
        while i < count
            invariant
                i <= count,
                count <= REGISTRY_CAPACITY,
                bytes@.len() == REGISTRY_IMAGE_SIZE,
                count == spec_le32_at(bytes@, 4),
                ids@.len() == i,
                forall|t: int| 0 <= t < i ==> ids@[t] == spec_image_ids(bytes@)[t],
            decreases count - i,
        {
            ids.push(le32_read(bytes, 8 + 4 * i));
            i = i + 1;
        }
        proof {
            assert(ids@ =~= spec_image_ids(bytes@));
        }
        if Self::has_duplicate(&ids) {
            return Err(RegistryError::Storage);
        }
        Ok(Registry { ids })
    }

    /// Encodes this registry as its persistent image under `seed`.
    pub fn encode(&self, seed: u32) -> (bytes: Vec<u8>)
        requires
            self.wf(),
        ensures
            bytes@ == spec_image(seed, self@),
            spec_image_ok(seed, bytes@),
    {
        let mut bytes: Vec<u8> = Vec::new();
        le32_push(&mut bytes, seed);
        le32_push(&mut bytes, self.ids.len() as u32);
        let mut i: usize = 0;
        while i < self.ids.len()
            invariant
                i <= self@.len(),
                self.wf(),
                bytes@.len() == 8 + 4 * i,
                forall|t: int| 0 <= t < bytes@.len() ==> bytes@[t] == spec_image_byte(
                    seed,
                    self@,
                    t,
                ),
            decreases self@.len() - i,
        {
            let ghost before = bytes@;
            le32_push(&mut bytes, self.ids[i]);
            proof {
                assert forall|t: int| 0 <= t < bytes@.len() implies bytes@[t] == spec_image_byte(
                    seed,
                    self@,
                    t,
                ) by {
                    if t >= before.len() {
                        lemma_slot_index(i as int, t - (8 + 4 * i));
                    }
                }
            }
            i = i + 1;
        }
        while i < REGISTRY_CAPACITY
            invariant
                self@.len() <= i <= REGISTRY_CAPACITY,
                self.wf(),
                bytes@.len() == 8 + 4 * i,
                forall|t: int| 0 <= t < bytes@.len() ==> bytes@[t] == spec_image_byte(
                    seed,
                    self@,
                    t,
                ),
            decreases REGISTRY_CAPACITY - i,
        {
            let ghost before = bytes@;
            le32_push(&mut bytes, 0u32);
            proof {
                assert(spec_byte_of(0u32, 0) == 0u8 && spec_byte_of(0u32, 1) == 0u8 && spec_byte_of(
                    0u32,
                    2,
                ) == 0u8 && spec_byte_of(0u32, 3) == 0u8) by (bit_vector);
                assert forall|t: int| 0 <= t < bytes@.len() implies bytes@[t] == spec_image_byte(
                    seed,
                    self@,
                    t,
                ) by {
                    if t >= before.len() {
                        lemma_slot_index(i as int, t - (8 + 4 * i));
                    }
                }
            }
            i = i + 1;
        }
        proof {
            assert(bytes@ =~= spec_image(seed, self@));
            lemma_image_round_trip(seed, self@);
        }
        bytes
    }

    /// Returns the provisioned identifiers in storage order.
    pub fn list(&self) -> (ids: Vec<u32>)
        ensures
            ids@ == self@,
    {
        vstd::slice::slice_to_vec(self.ids.as_slice())
    }

    /// The slot holding `id`, if any.
    fn find(&self, id: u32) -> (r: Option<usize>)
        ensures
            match r {
                Some(i) => i < self@.len() && self@[i as int] == id,
                None => !self@.contains(id),
            },
    {
        let mut i: usize = 0;
        while i < self.ids.len()
            invariant
                i <= self@.len(),
                forall|t: int| 0 <= t < i ==> self@[t] != id,
            decreases self@.len() - i,
        {
            if self.ids[i] == id {
                return Some(i);
            }
            i = i + 1;
        }
        proof {
            assert(!self@.contains(id));
        }
        None
    }

    /// Replaces the provisioned identifier `old_id` with `new_id` in place,
    /// atomically with respect to the registry's contents: either exactly
    /// that one slot changes, or — when `old_id` is absent or `new_id` is
    /// already provisioned elsewhere — nothing changes and the failure is
    /// reported. Count and all other entries are preserved.
    pub fn swap(&mut self, old_id: u32, new_id: u32) -> (r: Result<(), RegistryError>)
        requires
            old(self).wf(),
        ensures
            final(self).wf(),
            final(self)@.len() == old(self)@.len(),
            match r {
                Ok(_) => old(self)@.contains(old_id) && (new_id == old_id || !old(self)@.contains(
                    new_id,
                )) && exists|i: int|
                    0 <= i < old(self)@.len() && old(self)@[i] == old_id && final(self)@ == old(
                        self,
                    )@.update(i, new_id),
                Err(RegistryError::NotFound) => !old(self)@.contains(old_id) && final(self)@ == old(
                    self,
                )@,
                Err(RegistryError::Duplicate) => old(self)@.contains(old_id) && new_id != old_id
                    && old(self)@.contains(new_id) && final(self)@ == old(self)@,
                Err(RegistryError::Storage) => false,
            },
    {
        let pos = match self.find(old_id) {
            Some(i) => i,
            None => {
                return Err(RegistryError::NotFound);
            },
        };
        proof {
            assert(self@.contains(old_id)) by {
                assert(self@[pos as int] == old_id);
            }
        }
        if new_id != old_id {
            match self.find(new_id) {
                Some(_) => {
                    return Err(RegistryError::Duplicate);
                },
                None => {},
            }
        }
        self.ids.set(pos, new_id);
        proof {
            assert(self@ =~= old(self)@.update(pos as int, new_id));
            assert forall|p: int, q: int| 0 <= p < q < self@.len() implies self@[p] != self@[q] by {
                if new_id == old_id {
                    assert(self@[p] == old(self)@[p] && self@[q] == old(self)@[q]);
                }
            }
        }
        Ok(())
    }

    /// Initializes the registry from what persistent storage holds. A valid
    /// stored image wins, and nothing is written back, so repeated calls
    /// against an initialized store change nothing; otherwise a fresh
    /// registry is built from the build-time provisioned identifiers and
    /// its image is returned for the shell to persist.
    pub fn initialize(seed: u32, provisioned: &Vec<u32>, stored: &[u8]) -> (r: (
        Registry,
        Option<Vec<u8>>,
    ))
        requires
            provisioned@.len() <= REGISTRY_CAPACITY,
            unique_ids(provisioned@),
        ensures
            r.0.wf(),
            spec_image_ok(seed, stored@) ==> r.0@ == spec_image_ids(stored@) && r.1 is None,
            !spec_image_ok(seed, stored@) ==> r.0@ == provisioned@ && (match r.1 {
                Some(img) => img@ == spec_image(seed, provisioned@),
                None => false,
            }),
    {
        match Self::decode(seed, stored) {
            Ok(reg) => (reg, None),
            Err(_) => {
                let reg = Registry { ids: vstd::slice::slice_to_vec(provisioned.as_slice()) };
                let img = reg.encode(seed);
                (reg, Some(img))
            },
        }
    }
}

/// Round trip through persistent storage: the image of any well-formed
/// registry is a valid image that decodes to the same identifiers.
pub proof fn lemma_image_round_trip(seed: u32, ids: Seq<u32>)
    requires
        ids.len() <= REGISTRY_CAPACITY,
        unique_ids(ids),
    ensures
        spec_image_ok(seed, spec_image(seed, ids)),
        spec_image_ids(spec_image(seed, ids)) == ids,
{
    let img = spec_image(seed, ids);
    lemma_le32_of_bytes(seed);
    lemma_le32_of_bytes(ids.len() as u32);
    assert(spec_le32_at(img, 0) == seed);
    assert(spec_le32_at(img, 4) == ids.len() as u32);
    assert forall|i: int| 0 <= i < ids.len() implies spec_le32_at(img, 8 + 4 * i) == ids[i] by {
        lemma_slot_index(i, 0);
        lemma_slot_index(i, 1);
        lemma_slot_index(i, 2);
        lemma_slot_index(i, 3);
        lemma_le32_of_bytes(ids[i]);
    }
    assert(spec_image_ids(img) =~= ids);
}

} // verus!
