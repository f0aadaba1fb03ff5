//! Uniform records and the per-entity uniform array.
//!
//! The uniform array models one GPU buffer that holds a fixed-size record per
//! entity at an aligned byte offset; a draw call addresses a record through
//! its offset. Records here are the buffer's contents; a backend uploads them
//! verbatim.
use vstd::prelude::*;

use crate::linalg::Mat;

verus! {

/// The camera's uniform record: a view and a projection matrix.
#[derive(Clone, Copy, Debug)]
pub struct CameraBinding {
    pub view_matrix: Mat,
    pub projection_matrix: Mat,
}

/// One entity's uniform record: its world transform.
#[derive(Clone, Copy, Debug)]
pub struct EntityBinding {
    pub transform: Mat,
}

/// One material's uniform record: its scalar factors as single-precision
/// bit patterns.
#[derive(Clone, Copy, Debug, PartialEq, Eq)]
pub struct MaterialFactorsBinding {
    pub base_color_factor: [u32; 4],
    pub metallic_factor: u32,
    pub roughness_factor: u32,
}

/// The byte size of an `EntityBinding` record (16 single words).
pub const ENTITY_BINDING_SIZE: u64 = 64;

/// Rounds `size` up to the next multiple of `align`.
///
/// Used to place fixed-size uniform records at offsets the GPU's minimum
/// uniform-buffer alignment allows.
pub fn align_up(size: u64, align: u64) -> (r: u64)
    requires
        1 <= align,
        size + align <= u64::MAX,
    ensures
        r == spec_align_up(size as int, align as int),
{
    let rem = size % align;
    if rem == 0 {
        size
    } else {
        size + (align - rem)
    }
}

/// `size` rounded up to the next multiple of `align`.
pub open spec fn spec_align_up(size: int, align: int) -> int
    recommends
        align >= 1,
{
    if size % align == 0 {
        size
    } else {
        size + (align - size % align)
    }
}

/// The rounded value is a multiple of `align`, and moves `size` up by less
/// than one `align`.
pub proof fn lemma_align_up(size: int, align: int)
    requires
        align >= 1,
        size >= 0,
    ensures
        spec_align_up(size, align) % align == 0,
        size <= spec_align_up(size, align) < size + align,
{
    if size % align != 0 {
        assert((size + (align - size % align)) % align == 0 && 0 < size % align < align)
            by (nonlinear_arith)
            requires
                align >= 1,
                size >= 0,
                size % align != 0,
        ;
    }
}

/// One GPU buffer of per-entity uniform records at aligned offsets.
///
/// `records[i]` is what the buffer holds at `offset(i)`; a fresh array is
/// all-zero, matching a zero-initialized GPU buffer.
#[derive(Debug)]
pub struct UniformsArray {
    pub records: Vec<EntityBinding>,
    pub alignment: u64,
}

impl UniformsArray {
    /// The array's shape for a device whose minimum uniform-buffer offset
    /// alignment is `min_alignment`.
    pub open spec fn wf(self, min_alignment: u64) -> bool {
        &&& 1 <= min_alignment
        &&& self.alignment == spec_align_up(ENTITY_BINDING_SIZE as int, min_alignment as int)
    }

    /// The byte offset of record `index`.
    pub open spec fn spec_offset(self, index: int) -> int {
        index * self.alignment
    }

    /// Creates the array for `len` entities: `len` zeroed records at offsets
    /// aligned to the device's `min_alignment`.
    pub fn new(len: usize, min_alignment: u32) -> (r: UniformsArray)
        requires
            1 <= min_alignment,
        ensures
            r.wf(min_alignment as u64),
            r.records.len() == len,
            forall|i: int, j: int|
                0 <= i < len && 0 <= j < 16 ==> r.records[i].transform@[j] == 0u32,
    {
        let alignment = align_up(ENTITY_BINDING_SIZE, min_alignment as u64);
        let mut records: Vec<EntityBinding> = Vec::new();
        let zero = EntityBinding {
            transform: [
                0u32, 0u32, 0u32, 0u32, 0u32, 0u32, 0u32, 0u32, 0u32, 0u32, 0u32, 0u32, 0u32, 0u32,
                0u32, 0u32,
            ],
        };
        while records.len() < len
            invariant
                records.len() <= len,
                forall|j: int| 0 <= j < 16 ==> zero.transform@[j] == 0u32,
                forall|i: int, j: int|
                    0 <= i < records.len() && 0 <= j < 16 ==> records[i].transform@[j] == 0u32,
            decreases len - records.len(),
        {
            records.push(zero);
        }
        UniformsArray { records, alignment }
    }

    /// Overwrites record `index` with `data`.
    pub fn update(&mut self, data: EntityBinding, index: usize)
        requires
            index < old(self).records.len(),
        ensures
            final(self).records@ == old(self).records@.update(index as int, data),
            final(self).alignment == old(self).alignment,
    {
        self.records.set(index, data);
    }

    /// The byte offset at which record `index` sits in the buffer.
    pub fn offset(&self, index: usize) -> (r: u64)
        requires
            (index as int) * (self.alignment as int) <= u64::MAX,
        ensures
            r == self.spec_offset(index as int),
    {
        proof {
            assert(0 <= (index as int) * (self.alignment as int)) by (nonlinear_arith)
                requires
                    index >= 0,
                    self.alignment >= 0,
            ;
        }
        (index as u64) * self.alignment
    }

    /// Offsets are unique per entity and respect the device's minimum
    /// uniform-buffer offset alignment: for valid indices `i != j`,
    /// `offset(i) != offset(j)`, and every offset is a multiple of
    /// `min_alignment`.
    pub proof fn lemma_offsets_unique(self, min_alignment: u64, i: int, j: int)
        requires
            self.wf(min_alignment),
            0 <= i,
            0 <= j,
            i != j,
        ensures
            self.spec_offset(i) != self.spec_offset(j),
            self.spec_offset(i) % (min_alignment as int) == 0,
    {
        lemma_align_up(ENTITY_BINDING_SIZE as int, min_alignment as int);
        let a = self.alignment as int;
        let m = min_alignment as int;
        assert(i * a != j * a) by (nonlinear_arith)
            requires
                a >= 1,
                i != j,
        ;
        let k = a / m;
        vstd::arithmetic::div_mod::lemma_fundamental_div_mod(a, m);
        assert(i * a == (i * k) * m) by (nonlinear_arith)
            requires
                a == m * k,
        ;
        vstd::arithmetic::div_mod::lemma_mod_multiples_basic(i * k, m);
    }
}

} // verus!
