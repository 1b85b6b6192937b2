use vstd::prelude::*;

verus! {

/// Declares n5's compression descriptor, whose variants are read.
#[verifier::external_type_specification]
pub struct ExCompressionType(n5::compression::CompressionType);

/// Declares n5's raw compression settings.
#[verifier::external_type_specification]
#[verifier::external_body]
pub struct ExRawCompression(n5::compression::raw::RawCompression);

/// Declares n5's gzip compression settings.
#[verifier::external_type_specification]
#[verifier::external_body]
pub struct ExGzipCompression(n5::compression::gzip::GzipCompression);

/// The compression schemes a block can be stored with. Decompression
/// depends on the scheme alone, not on its settings.
#[derive(Debug, Clone, Copy, PartialEq, Eq, Structural)]
pub enum CompressionScheme {
    Raw,
    Gzip,
}

/// The scheme of an n5 compression descriptor.
pub open spec fn scheme_of(c: n5::compression::CompressionType) -> CompressionScheme {
    match c {
        n5::compression::CompressionType::Raw(_) => CompressionScheme::Raw,
        n5::compression::CompressionType::Gzip(_) => CompressionScheme::Gzip,
    }
}

/// The name n5 shows for a scheme.
pub open spec fn scheme_name(s: CompressionScheme) -> Seq<char> {
    match s {
        CompressionScheme::Raw => "Raw"@,
        CompressionScheme::Gzip => "Gzip"@,
    }
}

/// Declares n5's element type tag, whose variants are read.
#[verifier::external_type_specification]
pub struct ExDataType(n5::DataType);

/// The closed set of element types a dataset can declare.
#[derive(Debug, Clone, Copy, PartialEq, Eq, Structural)]
pub enum ElementType {
    Uint8,
    Uint16,
    Uint32,
    Uint64,
    Int8,
    Int16,
    Int32,
    Int64,
    Float32,
    Float64,
}

impl ElementType {
    /// The name under which the type is shown, in capitals (`UINT8`).
    pub fn name(&self) -> (r: &'static str)
        ensures
            r@ == self.name_spec(),
    {
        match self {
            ElementType::Uint8 => "UINT8",
            ElementType::Uint16 => "UINT16",
            ElementType::Uint32 => "UINT32",
            ElementType::Uint64 => "UINT64",
            ElementType::Int8 => "INT8",
            ElementType::Int16 => "INT16",
            ElementType::Int32 => "INT32",
            ElementType::Int64 => "INT64",
            ElementType::Float32 => "FLOAT32",
            ElementType::Float64 => "FLOAT64",
        }
    }

    pub open spec fn name_spec(&self) -> Seq<char> {
        match self {
            ElementType::Uint8 => "UINT8"@,
            ElementType::Uint16 => "UINT16"@,
            ElementType::Uint32 => "UINT32"@,
            ElementType::Uint64 => "UINT64"@,
            ElementType::Int8 => "INT8"@,
            ElementType::Int16 => "INT16"@,
            ElementType::Int32 => "INT32"@,
            ElementType::Int64 => "INT64"@,
            ElementType::Float32 => "FLOAT32"@,
            ElementType::Float64 => "FLOAT64"@,
        }
    }

    /// The library's tag for n5's tag of the same name.
    pub open spec fn from_n5_spec(t: n5::DataType) -> ElementType {
        match t {
            n5::DataType::UINT8 => ElementType::Uint8,
            n5::DataType::UINT16 => ElementType::Uint16,
            n5::DataType::UINT32 => ElementType::Uint32,
            n5::DataType::UINT64 => ElementType::Uint64,
            n5::DataType::INT8 => ElementType::Int8,
            n5::DataType::INT16 => ElementType::Int16,
            n5::DataType::INT32 => ElementType::Int32,
            n5::DataType::INT64 => ElementType::Int64,
            n5::DataType::FLOAT32 => ElementType::Float32,
            n5::DataType::FLOAT64 => ElementType::Float64,
        }
    }

    /// The library's tag for n5's tag of the same name.
    pub fn from_n5(t: n5::DataType) -> (r: ElementType)
        ensures
            r == Self::from_n5_spec(t),
    {
        match t {
            n5::DataType::UINT8 => ElementType::Uint8,
            n5::DataType::UINT16 => ElementType::Uint16,
            n5::DataType::UINT32 => ElementType::Uint32,
            n5::DataType::UINT64 => ElementType::Uint64,
            n5::DataType::INT8 => ElementType::Int8,
            n5::DataType::INT16 => ElementType::Int16,
            n5::DataType::INT32 => ElementType::Int32,
            n5::DataType::INT64 => ElementType::Int64,
            n5::DataType::FLOAT32 => ElementType::Float32,
            n5::DataType::FLOAT64 => ElementType::Float64,
        }
    }

    /// Whether elements of this type are floating-point numbers.
    pub fn is_float(&self) -> (r: bool)
        ensures
            r == (*self is Float32 || *self is Float64),
    {
        matches!(self, ElementType::Float32 | ElementType::Float64)
    }
}

/// The product of a sequence of extents; 1 for the empty sequence.
pub open spec fn product(s: Seq<int>) -> int
    decreases s.len(),
{
    if s.len() == 0 {
        1
    } else {
        product(s.drop_last()) * s.last()
    }
}

/// Extents of `u64` as integers.
pub open spec fn extents_u64(s: Seq<u64>) -> Seq<int> {
    s.map_values(|d: u64| d as int)
}

/// Extents of `u32` as integers.
pub open spec fn extents_u32(s: Seq<u32>) -> Seq<int> {
    s.map_values(|d: u32| d as int)
}

/// The dataset attributes as mathematical values.
pub ghost struct AttributesView {
    pub dimensions: Seq<u64>,
    pub block_size: Seq<u32>,
    pub data_type: ElementType,
    pub scheme: CompressionScheme,
}

/// Shape, block size, element type and compression of a dataset.
///
/// There is one block size per dimension, and at least one dimension.
pub struct DatasetAttributes {
    dimensions: Vec<u64>,
    block_size: Vec<u32>,
    data_type: ElementType,
    compression: n5::compression::CompressionType,
}

impl View for DatasetAttributes {
    type V = AttributesView;

    closed spec fn view(&self) -> AttributesView {
        AttributesView {
            dimensions: self.dimensions@,
            block_size: self.block_size@,
            data_type: self.data_type,
            scheme: scheme_of(self.compression),
        }
    }
}

/// Whether lengths of dimensions and block size agree and are not zero.
pub open spec fn shape_ok(dimensions: Seq<u64>, block_size: Seq<u32>) -> bool {
    dimensions.len() == block_size.len() && dimensions.len() > 0
}

/// Whether some extent is zero.
pub open spec fn has_zero(s: Seq<int>) -> bool {
    exists|i: int| 0 <= i < s.len() && s[i] == 0
}

pub(crate) proof fn lemma_product_zero(s: Seq<int>)
    requires
        has_zero(s),
    ensures
        product(s) == 0,
    decreases s.len(),
{
    let i = choose|i: int| 0 <= i < s.len() && s[i] == 0;
    let p = product(s.drop_last());
    assert(product(s) == p * s.last());
    if i == s.len() - 1 {
        assert(p * 0 == 0) by (nonlinear_arith);
    } else {
        assert(s.drop_last()[i] == 0);
        lemma_product_zero(s.drop_last());
        assert(0 * s.last() == 0) by (nonlinear_arith);
    }
}

pub(crate) proof fn lemma_product_positive(s: Seq<int>)
    requires
        forall|i: int| 0 <= i < s.len() ==> s[i] >= 1,
    ensures
        product(s) >= 1,
    decreases s.len(),
{
    if s.len() > 0 {
        lemma_product_positive(s.drop_last());
        assert(product(s) == product(s.drop_last()) * s.last());
        assert(product(s.drop_last()) * s.last() >= 1) by (nonlinear_arith)
            requires product(s.drop_last()) >= 1, s.last() >= 1;
    }
}

/// Prefix products never exceed the whole product when no extent is zero.
pub(crate) proof fn lemma_prefix_product_le(s: Seq<int>, k: int)
    requires
        0 <= k <= s.len(),
        forall|i: int| 0 <= i < s.len() ==> s[i] >= 1,
    ensures
        product(s.subrange(0, k)) <= product(s),
        product(s.subrange(0, k)) >= 1,
    decreases s.len() - k,
{
    if k == s.len() {
        assert(s.subrange(0, k) =~= s);
        lemma_product_positive(s);
    } else {
        lemma_prefix_product_le(s, k + 1);
        let p = s.subrange(0, k + 1);
        assert(p.drop_last() =~= s.subrange(0, k));
        lemma_product_positive(s.subrange(0, k));
        assert(product(p) == product(s.subrange(0, k)) * s[k]);
        assert(product(s.subrange(0, k)) * s[k] >= product(s.subrange(0, k))) by (nonlinear_arith)
            requires product(s.subrange(0, k)) >= 1, s[k] >= 1;
    }
}

/// The product of `s`, computed in `usize`.
fn product_of(s: &Vec<u64>) -> (r: usize)
    requires
        product(extents_u64(s@)) <= usize::MAX,
    ensures
        r == product(extents_u64(s@)),
{
    let ghost e = extents_u64(s@);
    let mut i: usize = 0;
    while i < s.len()
        invariant
            0 <= i <= s.len(),
            e == extents_u64(s@),
            forall|j: int| 0 <= j < i ==> s@[j] != 0,
        decreases s.len() - i,
    {
        if s[i] == 0 {
            proof {
                assert(e[i as int] == 0);
                lemma_product_zero(e);
            }
            return 0;
        }
        i = i + 1;
    }
    let mut acc: usize = 1;
    let mut k: usize = 0;
    while k < s.len()
        invariant
            0 <= k <= s.len(),
            e == extents_u64(s@),
            forall|j: int| 0 <= j < s.len() ==> s@[j] != 0,
            product(e) <= usize::MAX,
            acc == product(e.subrange(0, k as int)),
        decreases s.len() - k,
    {
        proof {
            assert forall|j: int| 0 <= j < e.len() implies e[j] >= 1 by {
                assert(e[j] == s@[j] as int);
            }
            lemma_prefix_product_le(e, k as int);
            lemma_prefix_product_le(e, k + 1);
            assert(e.subrange(0, k + 1).drop_last() =~= e.subrange(0, k as int));
            assert(e[k as int] == s@[k as int] as int);
            let p = product(e.subrange(0, k as int));
            assert(p * e[k as int] >= e[k as int]) by (nonlinear_arith)
                requires p >= 1, e[k as int] >= 1;
        }
        acc = acc * (s[k] as usize);
        k = k + 1;
    }
    assert(e.subrange(0, s.len() as int) =~= e);
    acc
}

/// The extents of `s` widened to `u64`.
fn widen(s: &Vec<u32>) -> (r: Vec<u64>)
    ensures
        extents_u64(r@) == extents_u32(s@),
{
    let mut r: Vec<u64> = Vec::new();
    let mut i: usize = 0;
    while i < s.len()
        invariant
            0 <= i <= s.len(),
            r@.len() == i,
            forall|j: int| 0 <= j < i ==> r@[j] as int == s@[j] as int,
        decreases s.len() - i,
    {
        r.push(s[i] as u64);
        i = i + 1;
    }
    assert(extents_u64(r@) =~= extents_u32(s@));
    r
}

/// Relies on n5's `Display` for `CompressionType`: the scheme's name.
#[verifier::external_body]
fn compression_name(c: &n5::compression::CompressionType) -> (r: String)
    ensures
        r@ == scheme_name(scheme_of(*c)),
{
    c.to_string()
}

/// Relies on `Clone` of n5's `CompressionType`: an equal descriptor.
#[verifier::external_body]
fn clone_compression(c: &n5::compression::CompressionType) -> (r: n5::compression::CompressionType)
    ensures
        scheme_of(r) == scheme_of(*c),
{
    c.clone()
}

impl DatasetAttributes {
    #[verifier::type_invariant]
    spec fn inv(&self) -> bool {
        shape_ok(self.dimensions@, self.block_size@)
    }

    /// Attributes from their parts; one block extent per dimension.
    pub fn new(
        dimensions: Vec<u64>,
        block_size: Vec<u32>,
        data_type: ElementType,
        compression: n5::compression::CompressionType,
    ) -> (r: DatasetAttributes)
        requires
            shape_ok(dimensions@, block_size@),
        ensures
            r@ == (AttributesView {
                dimensions: dimensions@,
                block_size: block_size@,
                data_type,
                scheme: scheme_of(compression),
            }),
    {
        DatasetAttributes { dimensions, block_size, data_type, compression }
    }

    /// Attributes from their parts, or `None` where the lengths of
    /// dimensions and block size differ or are zero.
    pub fn try_new(
        dimensions: Vec<u64>,
        block_size: Vec<u32>,
        data_type: ElementType,
        compression: n5::compression::CompressionType,
    ) -> (r: Option<DatasetAttributes>)
        ensures
            r is Some <==> shape_ok(dimensions@, block_size@),
            r matches Some(a) ==> a@ == (AttributesView {
                dimensions: dimensions@,
                block_size: block_size@,
                data_type,
                scheme: scheme_of(compression),
            }),
    {
        if dimensions.len() == block_size.len() && dimensions.len() > 0 {
            Some(DatasetAttributes { dimensions, block_size, data_type, compression })
        } else {
            None
        }
    }

    pub fn get_dimensions(&self) -> (r: &Vec<u64>)
        ensures
            r@ == self@.dimensions,
            shape_ok(self@.dimensions, self@.block_size),
    {
        proof {
            use_type_invariant(self);
        }
        &self.dimensions
    }

    pub fn get_block_size(&self) -> (r: &Vec<u32>)
        ensures
            r@ == self@.block_size,
    {
        &self.block_size
    }

    pub fn get_data_type(&self) -> (r: ElementType)
        ensures
            r == self@.data_type,
    {
        self.data_type
    }

    /// The compression descriptor, handed unchanged to the block codec.
    pub fn compression(&self) -> (r: &n5::compression::CompressionType)
        ensures
            scheme_of(*r) == self@.scheme,
    {
        &self.compression
    }

    /// The name of the compression scheme (`Raw`, `Gzip`).
    pub fn get_compression(&self) -> (r: String)
        ensures
            r@ == scheme_name(self@.scheme),
    {
        compression_name(&self.compression)
    }

    /// An independent copy of the attributes.
    pub fn copy(&self) -> (r: DatasetAttributes)
        ensures
            r@ == self@,
    {
        proof {
            use_type_invariant(self);
        }
        DatasetAttributes {
            dimensions: vstd::slice::slice_to_vec(self.dimensions.as_slice()),
            block_size: vstd::slice::slice_to_vec(self.block_size.as_slice()),
            data_type: self.data_type,
            compression: clone_compression(&self.compression),
        }
    }

    /// The number of dimensions.
    pub fn get_ndim(&self) -> (r: usize)
        ensures
            r == self@.dimensions.len(),
            r > 0,
    {
        proof {
            use_type_invariant(self);
        }
        self.dimensions.len()
    }

    /// The total number of elements possible given the dimensions.
    pub fn get_num_elements(&self) -> (r: usize)
        requires
            product(extents_u64(self@.dimensions)) <= usize::MAX,
        ensures
            r == product(extents_u64(self@.dimensions)),
    {
        product_of(&self.dimensions)
    }

    /// The total number of elements possible in a block.
    pub fn get_block_num_elements(&self) -> (r: usize)
        requires
            product(extents_u32(self@.block_size)) <= usize::MAX,
        ensures
            r == product(extents_u32(self@.block_size)),
    {
        product_of(&widen(&self.block_size))
    }
}

} // verus!
