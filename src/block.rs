use vstd::prelude::*;

use n5::compression::CompressionType;
use n5::DataBlock;

use crate::attributes::{extents_u32, product, scheme_of, CompressionScheme, DatasetAttributes, ElementType};
use crate::error::N5Error;

verus! {

/// The elements of a decoded block, tagged with their element type.
///
/// Floating-point elements are held as their IEEE 754 bit patterns
/// (`f32::from_bits`, `f64::from_bits` give the numbers).
#[derive(Debug, PartialEq, Eq)]
pub enum BlockData {
    Uint8(Vec<u8>),
    Uint16(Vec<u16>),
    Uint32(Vec<u32>),
    Uint64(Vec<u64>),
    Int8(Vec<i8>),
    Int16(Vec<i16>),
    Int32(Vec<i32>),
    Int64(Vec<i64>),
    Float32(Vec<u32>),
    Float64(Vec<u64>),
}

/// The elements of a decoded block as mathematical sequences.
pub ghost enum BlockDataView {
    Uint8(Seq<u8>),
    Uint16(Seq<u16>),
    Uint32(Seq<u32>),
    Uint64(Seq<u64>),
    Int8(Seq<i8>),
    Int16(Seq<i16>),
    Int32(Seq<i32>),
    Int64(Seq<i64>),
    Float32(Seq<u32>),
    Float64(Seq<u64>),
}

impl View for BlockData {
    type V = BlockDataView;

    open spec fn view(&self) -> BlockDataView {
        match self {
            BlockData::Uint8(v) => BlockDataView::Uint8(v@),
            BlockData::Uint16(v) => BlockDataView::Uint16(v@),
            BlockData::Uint32(v) => BlockDataView::Uint32(v@),
            BlockData::Uint64(v) => BlockDataView::Uint64(v@),
            BlockData::Int8(v) => BlockDataView::Int8(v@),
            BlockData::Int16(v) => BlockDataView::Int16(v@),
            BlockData::Int32(v) => BlockDataView::Int32(v@),
            BlockData::Int64(v) => BlockDataView::Int64(v@),
            BlockData::Float32(v) => BlockDataView::Float32(v@),
            BlockData::Float64(v) => BlockDataView::Float64(v@),
        }
    }
}

impl BlockDataView {
    /// The element type of these elements.
    pub open spec fn data_type(self) -> ElementType {
        match self {
            BlockDataView::Uint8(_) => ElementType::Uint8,
            BlockDataView::Uint16(_) => ElementType::Uint16,
            BlockDataView::Uint32(_) => ElementType::Uint32,
            BlockDataView::Uint64(_) => ElementType::Uint64,
            BlockDataView::Int8(_) => ElementType::Int8,
            BlockDataView::Int16(_) => ElementType::Int16,
            BlockDataView::Int32(_) => ElementType::Int32,
            BlockDataView::Int64(_) => ElementType::Int64,
            BlockDataView::Float32(_) => ElementType::Float32,
            BlockDataView::Float64(_) => ElementType::Float64,
        }
    }

    /// The number of elements.
    pub open spec fn len(self) -> nat {
        match self {
            BlockDataView::Uint8(s) => s.len(),
            BlockDataView::Uint16(s) => s.len(),
            BlockDataView::Uint32(s) => s.len(),
            BlockDataView::Uint64(s) => s.len(),
            BlockDataView::Int8(s) => s.len(),
            BlockDataView::Int16(s) => s.len(),
            BlockDataView::Int32(s) => s.len(),
            BlockDataView::Int64(s) => s.len(),
            BlockDataView::Float32(s) => s.len(),
            BlockDataView::Float64(s) => s.len(),
        }
    }
}

/// A copy of a vector of plain values.
fn copy_vec<T: Copy>(v: &Vec<T>) -> (r: Vec<T>)
    ensures
        r@ == v@,
{
    vstd::slice::slice_to_vec(v.as_slice())
}

impl BlockData {
    /// The element type of these elements.
    pub fn data_type(&self) -> (r: ElementType)
        ensures
            r == self@.data_type(),
    {
        match self {
            BlockData::Uint8(_) => ElementType::Uint8,
            BlockData::Uint16(_) => ElementType::Uint16,
            BlockData::Uint32(_) => ElementType::Uint32,
            BlockData::Uint64(_) => ElementType::Uint64,
            BlockData::Int8(_) => ElementType::Int8,
            BlockData::Int16(_) => ElementType::Int16,
            BlockData::Int32(_) => ElementType::Int32,
            BlockData::Int64(_) => ElementType::Int64,
            BlockData::Float32(_) => ElementType::Float32,
            BlockData::Float64(_) => ElementType::Float64,
        }
    }

    /// The number of elements.
    pub fn len(&self) -> (r: usize)
        ensures
            r == self@.len(),
    {
        match self {
            BlockData::Uint8(v) => v.len(),
            BlockData::Uint16(v) => v.len(),
            BlockData::Uint32(v) => v.len(),
            BlockData::Uint64(v) => v.len(),
            BlockData::Int8(v) => v.len(),
            BlockData::Int16(v) => v.len(),
            BlockData::Int32(v) => v.len(),
            BlockData::Int64(v) => v.len(),
            BlockData::Float32(v) => v.len(),
            BlockData::Float64(v) => v.len(),
        }
    }

    /// An independent copy with the same elements.
    pub fn copy(&self) -> (r: BlockData)
        ensures
            r@ == self@,
    {
        match self {
            BlockData::Uint8(v) => BlockData::Uint8(copy_vec(v)),
            BlockData::Uint16(v) => BlockData::Uint16(copy_vec(v)),
            BlockData::Uint32(v) => BlockData::Uint32(copy_vec(v)),
            BlockData::Uint64(v) => BlockData::Uint64(copy_vec(v)),
            BlockData::Int8(v) => BlockData::Int8(copy_vec(v)),
            BlockData::Int16(v) => BlockData::Int16(copy_vec(v)),
            BlockData::Int32(v) => BlockData::Int32(copy_vec(v)),
            BlockData::Int64(v) => BlockData::Int64(copy_vec(v)),
            BlockData::Float32(v) => BlockData::Float32(copy_vec(v)),
            BlockData::Float64(v) => BlockData::Float64(copy_vec(v)),
        }
    }
}

/// A decoded block: its extent (smaller than the nominal block size at the
/// dataset's edges), its grid position and its elements.
#[derive(Debug, PartialEq, Eq)]
pub struct DecodedBlock {
    pub size: Vec<u32>,
    pub grid_position: Vec<u64>,
    pub data: BlockData,
}

/// A decoded block as mathematical values.
pub ghost struct BlockView {
    pub size: Seq<u32>,
    pub grid_position: Seq<u64>,
    pub data: BlockDataView,
}

impl View for DecodedBlock {
    type V = BlockView;

    open spec fn view(&self) -> BlockView {
        BlockView { size: self.size@, grid_position: self.grid_position@, data: self.data@ }
    }
}

/// The view of a block that may be absent.
pub open spec fn opt_block_view(b: Option<DecodedBlock>) -> Option<BlockView> {
    match b {
        Some(b) => Some(b@),
        None => None,
    }
}

impl DecodedBlock {
    /// An independent copy with the same extent, position and elements.
    pub fn copy(&self) -> (r: DecodedBlock)
        ensures
            r@ == self@,
    {
        DecodedBlock {
            size: copy_vec(&self.size),
            grid_position: copy_vec(&self.grid_position),
            data: self.data.copy(),
        }
    }

    pub fn get_size(&self) -> (r: &Vec<u32>)
        ensures
            r@ == self@.size,
    {
        &self.size
    }

    pub fn get_grid_position(&self) -> (r: &Vec<u64>)
        ensures
            r@ == self@.grid_position,
    {
        &self.grid_position
    }

    pub fn get_data(&self) -> (r: &BlockData)
        ensures
            r@ == self@.data,
    {
        &self.data
    }

    /// The number of elements.
    pub fn get_num_elements(&self) -> (r: usize)
        ensures
            r == self@.data.len(),
    {
        self.data.len()
    }
}

/// A copy of a block that may be absent.
pub fn copy_opt_block(b: &Option<DecodedBlock>) -> (r: Option<DecodedBlock>)
    ensures
        opt_block_view(r) == opt_block_view(*b),
{
    match b {
        Some(b) => Some(b.copy()),
        None => None,
    }
}

/// A big-endian 16-bit integer at `i`.
pub open spec fn be16(b: Seq<u8>, i: int) -> int {
    b[i] as int * 256 + b[i + 1] as int
}

/// A big-endian 32-bit integer at `i`.
pub open spec fn be32(b: Seq<u8>, i: int) -> int {
    ((b[i] as int * 256 + b[i + 1] as int) * 256 + b[i + 2] as int) * 256 + b[i + 3] as int
}

/// The block extents that a block header declares: after the mode and the
/// number of dimensions, one big-endian `u32` per dimension.
pub open spec fn header_extents(b: Seq<u8>) -> Seq<int> {
    Seq::new(be16(b, 2) as nat, |j: int| be32(b, 4 + 4 * j))
}

/// Whether a fixed-length block header declares extents whose running
/// product leaves `u32`, which n5's header reader computes in `u32`.
pub open spec fn header_overflows(b: Seq<u8>) -> bool {
    &&& b.len() >= 4
    &&& be16(b, 0) == 0
    &&& b.len() >= 4 + 4 * be16(b, 2)
    &&& exists|k: int| 0 <= k <= be16(b, 2) && product(header_extents(b).subrange(0, k)) > u32::MAX
}

/// Whether the header of `bytes` is one that `header_overflows` describes.
pub fn check_header_overflow(b: &[u8]) -> (r: bool)
    ensures
        r == header_overflows(b@),
{
    if b.len() < 4 {
        return false;
    }
    let mode: u64 = (b[0] as u64) * 256 + (b[1] as u64);
    let ndim: u64 = (b[2] as u64) * 256 + (b[3] as u64);
    if mode != 0 || (b.len() as u64) < 4 + 4 * ndim {
        return false;
    }
    let ghost e = header_extents(b@);
    let mut acc: u64 = 1;
    let mut i: u64 = 0;
    assert(e.subrange(0, 0) =~= Seq::<int>::empty());
    while i < ndim
        invariant
            ndim == be16(b@, 2),
            be16(b@, 0) == 0,
            b@.len() >= 4 + 4 * ndim,
            e == header_extents(b@),
            0 <= i <= ndim,
            acc == product(e.subrange(0, i as int)),
            acc <= u32::MAX,
            forall|k: int| 0 <= k <= i ==> product(#[trigger] e.subrange(0, k)) <= u32::MAX,
        decreases ndim - i,
    {
        let j: usize = (4 + 4 * i) as usize;
        let x: u64 = (((b[j] as u64) * 256 + (b[j + 1] as u64)) * 256 + (b[j + 2] as u64)) * 256 + (b[j + 3] as u64);
        proof {
            assert(x == e[i as int]);
            assert(e.subrange(0, i + 1).drop_last() =~= e.subrange(0, i as int));
            assert(x <= u32::MAX);
            assert(acc * x <= u32::MAX * u32::MAX) by (nonlinear_arith)
                requires acc <= u32::MAX, x <= u32::MAX;
        }
        acc = acc * x;
        i = i + 1;
        if acc > u32::MAX as u64 {
            proof {
                assert(product(e.subrange(0, i as int)) > u32::MAX);
            }
            return true;
        }
    }
    assert(!header_overflows(b@)) by {
        assert forall|k: int| 0 <= k <= be16(b@, 2) implies product(#[trigger] e.subrange(0, k)) <= u32::MAX by {}
    }
    false
}

/// What n5's `DefaultBlockReader::read_block` makes of block bytes stored
/// with compression `scheme`, read as elements of type `t`: the block's
/// extent and elements, or `None` where it rejects them.
pub uninterp spec fn n5_block(bytes: Seq<u8>, scheme: CompressionScheme, t: ElementType) -> Option<(Seq<u32>, BlockDataView)>;

/// Relies on n5's `DefaultBlockReader::read_block` for `u8` elements: the
/// block's extent and elements; they depend on the bytes and the compression
/// scheme alone.
#[verifier::external_body]
fn n5_read_u8(
    bytes: &[u8],
    dims: &Vec<u64>,
    block_size: &Vec<u32>,
    compression: &CompressionType,
    coord: &Vec<u64>,
) -> (r: Option<(Vec<u32>, Vec<u8>)>)
    requires
        dims@.len() == block_size@.len(),
        !header_overflows(bytes@),
    ensures
        match r {
            Some((s, d)) => n5_block(bytes@, scheme_of(*compression), ElementType::Uint8)
                == Some((s@, BlockDataView::Uint8(d@))),
            None => n5_block(bytes@, scheme_of(*compression), ElementType::Uint8) is None,
        },
{
    let dt = n5::DataType::UINT8;
    let da = n5::DatasetAttributes::new(dims[..].into(), block_size[..].into(), dt, compression.clone());
    match <n5::DefaultBlock as n5::DefaultBlockReader<u8, &[u8]>>::read_block(bytes, &da, coord.as_slice().into()) {
        Ok(b) => Some((b.get_size().to_vec(), b.into_data())),
        Err(_) => None,
    }
}

/// Relies on n5's `DefaultBlockReader::read_block` for `u16` elements: the
/// block's extent and elements; they depend on the bytes and the compression
/// scheme alone.
#[verifier::external_body]
fn n5_read_u16(
    bytes: &[u8],
    dims: &Vec<u64>,
    block_size: &Vec<u32>,
    compression: &CompressionType,
    coord: &Vec<u64>,
) -> (r: Option<(Vec<u32>, Vec<u16>)>)
    requires
        dims@.len() == block_size@.len(),
        !header_overflows(bytes@),
    ensures
        match r {
            Some((s, d)) => n5_block(bytes@, scheme_of(*compression), ElementType::Uint16)
                == Some((s@, BlockDataView::Uint16(d@))),
            None => n5_block(bytes@, scheme_of(*compression), ElementType::Uint16) is None,
        },
{
    let dt = n5::DataType::UINT16;
    let da = n5::DatasetAttributes::new(dims[..].into(), block_size[..].into(), dt, compression.clone());
    match <n5::DefaultBlock as n5::DefaultBlockReader<u16, &[u8]>>::read_block(bytes, &da, coord.as_slice().into()) {
        Ok(b) => Some((b.get_size().to_vec(), b.into_data())),
        Err(_) => None,
    }
}

/// Relies on n5's `DefaultBlockReader::read_block` for `u32` elements: the
/// block's extent and elements; they depend on the bytes and the compression
/// scheme alone.
#[verifier::external_body]
fn n5_read_u32(
    bytes: &[u8],
    dims: &Vec<u64>,
    block_size: &Vec<u32>,
    compression: &CompressionType,
    coord: &Vec<u64>,
) -> (r: Option<(Vec<u32>, Vec<u32>)>)
    requires
        dims@.len() == block_size@.len(),
        !header_overflows(bytes@),
    ensures
        match r {
            Some((s, d)) => n5_block(bytes@, scheme_of(*compression), ElementType::Uint32)
                == Some((s@, BlockDataView::Uint32(d@))),
            None => n5_block(bytes@, scheme_of(*compression), ElementType::Uint32) is None,
        },
{
    let dt = n5::DataType::UINT32;
    let da = n5::DatasetAttributes::new(dims[..].into(), block_size[..].into(), dt, compression.clone());
    match <n5::DefaultBlock as n5::DefaultBlockReader<u32, &[u8]>>::read_block(bytes, &da, coord.as_slice().into()) {
        Ok(b) => Some((b.get_size().to_vec(), b.into_data())),
        Err(_) => None,
    }
}

/// Relies on n5's `DefaultBlockReader::read_block` for `u64` elements: the
/// block's extent and elements; they depend on the bytes and the compression
/// scheme alone.
#[verifier::external_body]
fn n5_read_u64(
    bytes: &[u8],
    dims: &Vec<u64>,
    block_size: &Vec<u32>,
    compression: &CompressionType,
    coord: &Vec<u64>,
) -> (r: Option<(Vec<u32>, Vec<u64>)>)
    requires
        dims@.len() == block_size@.len(),
        !header_overflows(bytes@),
    ensures
        match r {
            Some((s, d)) => n5_block(bytes@, scheme_of(*compression), ElementType::Uint64)
                == Some((s@, BlockDataView::Uint64(d@))),
            None => n5_block(bytes@, scheme_of(*compression), ElementType::Uint64) is None,
        },
{
    let dt = n5::DataType::UINT64;
    let da = n5::DatasetAttributes::new(dims[..].into(), block_size[..].into(), dt, compression.clone());
    match <n5::DefaultBlock as n5::DefaultBlockReader<u64, &[u8]>>::read_block(bytes, &da, coord.as_slice().into()) {
        Ok(b) => Some((b.get_size().to_vec(), b.into_data())),
        Err(_) => None,
    }
}

/// Relies on n5's `DefaultBlockReader::read_block` for `i8` elements: the
/// block's extent and elements; they depend on the bytes and the compression
/// scheme alone.
#[verifier::external_body]
fn n5_read_i8(
    bytes: &[u8],
    dims: &Vec<u64>,
    block_size: &Vec<u32>,
    compression: &CompressionType,
    coord: &Vec<u64>,
) -> (r: Option<(Vec<u32>, Vec<i8>)>)
    requires
        dims@.len() == block_size@.len(),
        !header_overflows(bytes@),
    ensures
        match r {
            Some((s, d)) => n5_block(bytes@, scheme_of(*compression), ElementType::Int8)
                == Some((s@, BlockDataView::Int8(d@))),
            None => n5_block(bytes@, scheme_of(*compression), ElementType::Int8) is None,
        },
{
    let dt = n5::DataType::INT8;
    let da = n5::DatasetAttributes::new(dims[..].into(), block_size[..].into(), dt, compression.clone());
    match <n5::DefaultBlock as n5::DefaultBlockReader<i8, &[u8]>>::read_block(bytes, &da, coord.as_slice().into()) {
        Ok(b) => Some((b.get_size().to_vec(), b.into_data())),
        Err(_) => None,
    }
}

/// Relies on n5's `DefaultBlockReader::read_block` for `i16` elements: the
/// block's extent and elements; they depend on the bytes and the compression
/// scheme alone.
#[verifier::external_body]
fn n5_read_i16(
    bytes: &[u8],
    dims: &Vec<u64>,
    block_size: &Vec<u32>,
    compression: &CompressionType,
    coord: &Vec<u64>,
) -> (r: Option<(Vec<u32>, Vec<i16>)>)
    requires
        dims@.len() == block_size@.len(),
        !header_overflows(bytes@),
    ensures
        match r {
            Some((s, d)) => n5_block(bytes@, scheme_of(*compression), ElementType::Int16)
                == Some((s@, BlockDataView::Int16(d@))),
            None => n5_block(bytes@, scheme_of(*compression), ElementType::Int16) is None,
        },
{
    let dt = n5::DataType::INT16;
    let da = n5::DatasetAttributes::new(dims[..].into(), block_size[..].into(), dt, compression.clone());
    match <n5::DefaultBlock as n5::DefaultBlockReader<i16, &[u8]>>::read_block(bytes, &da, coord.as_slice().into()) {
        Ok(b) => Some((b.get_size().to_vec(), b.into_data())),
        Err(_) => None,
    }
}

/// Relies on n5's `DefaultBlockReader::read_block` for `i32` elements: the
/// block's extent and elements; they depend on the bytes and the compression
/// scheme alone.
#[verifier::external_body]
fn n5_read_i32(
    bytes: &[u8],
    dims: &Vec<u64>,
    block_size: &Vec<u32>,
    compression: &CompressionType,
    coord: &Vec<u64>,
) -> (r: Option<(Vec<u32>, Vec<i32>)>)
    requires
        dims@.len() == block_size@.len(),
        !header_overflows(bytes@),
    ensures
        match r {
            Some((s, d)) => n5_block(bytes@, scheme_of(*compression), ElementType::Int32)
                == Some((s@, BlockDataView::Int32(d@))),
            None => n5_block(bytes@, scheme_of(*compression), ElementType::Int32) is None,
        },
{
    let dt = n5::DataType::INT32;
    let da = n5::DatasetAttributes::new(dims[..].into(), block_size[..].into(), dt, compression.clone());
    match <n5::DefaultBlock as n5::DefaultBlockReader<i32, &[u8]>>::read_block(bytes, &da, coord.as_slice().into()) {
        Ok(b) => Some((b.get_size().to_vec(), b.into_data())),
        Err(_) => None,
    }
}

/// Relies on n5's `DefaultBlockReader::read_block` for `i64` elements: the
/// block's extent and elements; they depend on the bytes and the compression
/// scheme alone.
#[verifier::external_body]
fn n5_read_i64(
    bytes: &[u8],
    dims: &Vec<u64>,
    block_size: &Vec<u32>,
    compression: &CompressionType,
    coord: &Vec<u64>,
) -> (r: Option<(Vec<u32>, Vec<i64>)>)
    requires
        dims@.len() == block_size@.len(),
        !header_overflows(bytes@),
    ensures
        match r {
            Some((s, d)) => n5_block(bytes@, scheme_of(*compression), ElementType::Int64)
                == Some((s@, BlockDataView::Int64(d@))),
            None => n5_block(bytes@, scheme_of(*compression), ElementType::Int64) is None,
        },
{
    let dt = n5::DataType::INT64;
    let da = n5::DatasetAttributes::new(dims[..].into(), block_size[..].into(), dt, compression.clone());
    match <n5::DefaultBlock as n5::DefaultBlockReader<i64, &[u8]>>::read_block(bytes, &da, coord.as_slice().into()) {
        Ok(b) => Some((b.get_size().to_vec(), b.into_data())),
        Err(_) => None,
    }
}

/// The element type whose stored words elements of type `t` are read as:
/// floating-point elements are read as the unsigned words of their bits.
pub open spec fn word_type(t: ElementType) -> ElementType {
    match t {
        ElementType::Float32 => ElementType::Uint32,
        ElementType::Float64 => ElementType::Uint64,
        _ => t,
    }
}

/// Elements read as words, tagged as elements of type `t`.
pub open spec fn as_type(d: BlockDataView, t: ElementType) -> BlockDataView {
    match (d, t) {
        (BlockDataView::Uint32(w), ElementType::Float32) => BlockDataView::Float32(w),
        (BlockDataView::Uint64(w), ElementType::Float64) => BlockDataView::Float64(w),
        _ => d,
    }
}

/// The block at `coord` that bytes stored with compression `scheme` decode
/// to as elements of type `t`, in a dataset of block size `block_size`; `None`
/// where the header's extents overflow, the codec rejects the bytes, or they
/// hold more elements than a block has room for.
pub open spec fn block_decoding(
    bytes: Seq<u8>,
    block_size: Seq<u32>,
    scheme: CompressionScheme,
    t: ElementType,
    coord: Seq<u64>,
) -> Option<BlockView> {
    if header_overflows(bytes) {
        None
    } else {
        match n5_block(bytes, scheme, word_type(t)) {
            Some((s, d)) => if d.len() <= product(extents_u32(block_size)) {
                Some(BlockView { size: s, grid_position: coord, data: as_type(d, t) })
            } else {
                None
            },
            None => None,
        }
    }
}

/// Whether `n` elements fit in a block of extents `block_size`.
pub fn fits_block(n: usize, block_size: &Vec<u32>) -> (r: bool)
    ensures
        r == (n <= product(extents_u32(block_size@))),
{
    let ghost e = extents_u32(block_size@);
    let mut i: usize = 0;
    while i < block_size.len()
        invariant
            0 <= i <= block_size.len(),
            e == extents_u32(block_size@),
            forall|j: int| 0 <= j < i ==> block_size@[j] != 0,
        decreases block_size.len() - i,
    {
        if block_size[i] == 0 {
            proof {
                assert(e[i as int] == 0);
                crate::attributes::lemma_product_zero(e);
            }
            return n == 0;
        }
        i = i + 1;
    }
    proof {
        assert forall|j: int| 0 <= j < e.len() implies e[j] >= 1 by {
            assert(e[j] == block_size@[j] as int);
        }
    }
    if n == 0 {
        proof {
            crate::attributes::lemma_product_positive(e);
        }
        return true;
    }
    let mut acc: u128 = 1;
    let mut k: usize = 0;
    while k < block_size.len()
        invariant
            0 <= k <= block_size.len(),
            e == extents_u32(block_size@),
            forall|j: int| 0 <= j < e.len() ==> e[j] >= 1,
            acc == product(e.subrange(0, k as int)),
            acc <= n,
        decreases block_size.len() - k,
    {
        proof {
            crate::attributes::lemma_prefix_product_le(e, k as int);
            assert(e.subrange(0, k + 1).drop_last() =~= e.subrange(0, k as int));
            assert(e[k as int] == block_size@[k as int] as int);
            assert(acc * (block_size@[k as int] as u128) <= (usize::MAX as u128) * (u32::MAX as u128)) by (nonlinear_arith)
                requires acc <= usize::MAX, block_size@[k as int] <= u32::MAX;
        }
        acc = acc * (block_size[k] as u128);
        k = k + 1;
        if acc > n as u128 {
            proof {
                crate::attributes::lemma_prefix_product_le(e, k as int);
                assert(product(e.subrange(0, k as int)) == acc as int);
            }
            return true;
        }
    }
    assert(e.subrange(0, block_size.len() as int) =~= e);
    (n as u128) <= acc
}

/// The block at `coord` from its stored bytes, as `block_decoding` gives it;
/// bytes it does not decode are `Malformed`.
pub fn decode_block(bytes: &[u8], attrs: &DatasetAttributes, coord: &Vec<u64>) -> (r: Result<DecodedBlock, N5Error>)
    ensures
        match block_decoding(bytes@, attrs@.block_size, attrs@.scheme, attrs@.data_type, coord@) {
            Some(v) => r matches Ok(b) && b@ == v,
            None => r == Err::<DecodedBlock, N5Error>(N5Error::Malformed),
        },
        r matches Ok(b) ==> b@.data.data_type() == attrs@.data_type,
{
    if check_header_overflow(bytes) {
        return Err(N5Error::Malformed);
    }
    let dims = attrs.get_dimensions();
    let block_size = attrs.get_block_size();
    let compression = attrs.compression();
    let decoded = match attrs.get_data_type() {
        ElementType::Uint8 => match n5_read_u8(bytes, dims, block_size, compression, coord) {
            Some((size, d)) => Some((size, BlockData::Uint8(d))),
            None => None,
        },
        ElementType::Uint16 => match n5_read_u16(bytes, dims, block_size, compression, coord) {
            Some((size, d)) => Some((size, BlockData::Uint16(d))),
            None => None,
        },
        ElementType::Uint32 => match n5_read_u32(bytes, dims, block_size, compression, coord) {
            Some((size, d)) => Some((size, BlockData::Uint32(d))),
            None => None,
        },
        ElementType::Uint64 => match n5_read_u64(bytes, dims, block_size, compression, coord) {
            Some((size, d)) => Some((size, BlockData::Uint64(d))),
            None => None,
        },
        ElementType::Int8 => match n5_read_i8(bytes, dims, block_size, compression, coord) {
            Some((size, d)) => Some((size, BlockData::Int8(d))),
            None => None,
        },
        ElementType::Int16 => match n5_read_i16(bytes, dims, block_size, compression, coord) {
            Some((size, d)) => Some((size, BlockData::Int16(d))),
            None => None,
        },
        ElementType::Int32 => match n5_read_i32(bytes, dims, block_size, compression, coord) {
            Some((size, d)) => Some((size, BlockData::Int32(d))),
            None => None,
        },
        ElementType::Int64 => match n5_read_i64(bytes, dims, block_size, compression, coord) {
            Some((size, d)) => Some((size, BlockData::Int64(d))),
            None => None,
        },
        ElementType::Float32 => match n5_read_u32(bytes, dims, block_size, compression, coord) {
            Some((size, d)) => Some((size, BlockData::Float32(d))),
            None => None,
        },
        ElementType::Float64 => match n5_read_u64(bytes, dims, block_size, compression, coord) {
            Some((size, d)) => Some((size, BlockData::Float64(d))),
            None => None,
        },
    };
    match decoded {
        Some((size, d)) => {
            if fits_block(d.len(), block_size) {
                Ok(DecodedBlock { size, grid_position: copy_vec(coord), data: d })
            } else {
                Err(N5Error::Malformed)
            }
        },
        None => Err(N5Error::Malformed),
    }
}

} // verus!
