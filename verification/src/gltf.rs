use crate::bytes::{le_u16, le_u32, Endianness, FromBytes, FromBytesIter};
use crate::mesh::MeshCounts;
use byteorder::{ByteOrder, LittleEndian};
use std::ops::Range;
use vstd::prelude::*;

verus! {

/// Grows `bytes` with `0xfe` filler to the length `(len + align_mask) & !align_mask`.
pub fn align_vec(bytes: &mut Vec<u8>, align_mask: usize)
    requires
        old(bytes)@.len() + align_mask <= usize::MAX,
    ensures
        final(bytes)@.len() == ((old(bytes)@.len() + align_mask) as usize) & !align_mask,
        final(bytes)@.len() >= old(bytes)@.len(),
        final(bytes)@.subrange(0, old(bytes)@.len() as int) == old(bytes)@,
        forall|i: int| old(bytes)@.len() <= i < final(bytes)@.len() ==> #[trigger] final(bytes)@[i] == 0xfeu8,
{
    let len: usize = bytes.len();
    let sum: usize = len + align_mask;
    let new_size: usize = sum & !align_mask;
    assert(sum & !align_mask >= len) by (bit_vector)
        requires sum == len + align_mask;
    bytes.resize(new_size, 0xfe);
    proof {
        if new_size == len {
            assert(bytes@ =~= old(bytes)@.subrange(0, len as int));
        }
    }
}

/// The length `align_vec` gives has none of the mask's bits set, and grows
/// the old length by at most the mask.
pub proof fn law_align_vec_aligns(len: usize, align_mask: usize)
    requires
        len + align_mask <= usize::MAX,
    ensures
        ({
            let r = ((len + align_mask) as usize) & !align_mask;
            &&& r & align_mask == 0
            &&& len <= r <= len + align_mask
        }),
{
    let sum = (len + align_mask) as usize;
    let r = sum & !align_mask;
    assert(r & align_mask == 0 && r >= len && r <= len + align_mask) by (bit_vector)
        requires
            sum == len + align_mask,
            r == sum & !align_mask;
}


/// Shape of the elements an accessor describes.
#[derive(Clone, Copy, Debug, PartialEq, Eq, Structural)]
pub enum Dimensions {
    Scalar,
    Vec2,
    Vec3,
    Vec4,
    Mat2,
    Mat3,
    Mat4,
}

/// Component type of accessor elements.
#[derive(Clone, Copy, Debug, PartialEq, Eq, Structural)]
pub enum DataType {
    I8,
    U8,
    I16,
    U16,
    U32,
    F32,
}

/// A buffer view, as far as loading reads it.
#[derive(Clone, Copy, Debug, PartialEq, Eq, Structural)]
pub struct ViewDesc {
    /// Offset of the view in its buffer.
    pub offset: usize,
    /// Length of the view in bytes.
    pub length: usize,
    /// Distance between elements, when the view sets one.
    pub stride: Option<usize>,
}

/// An accessor, as far as loading reads it.
#[derive(Clone, Copy, Debug, PartialEq, Eq, Structural)]
pub struct AccessorDesc {
    pub dimensions: Dimensions,
    pub data_type: DataType,
    /// Number of elements.
    pub count: usize,
    /// Size of one element in bytes.
    pub size: usize,
    /// Offset of the first element in the view.
    pub offset: usize,
    /// The view; `None` for a sparse accessor.
    pub view: Option<ViewDesc>,
}

/// Errors of loading glTF data.
#[derive(Clone, Copy, Debug, PartialEq, Eq, Structural)]
#[allow(inconsistent_fields)]
pub enum GltfLoadingError {
    /// The document did not parse or did not validate.
    GltfError,
    NoScenes,
    OutOfMemory,
    UnexpectedDimensions { unexpected: Dimensions, expected: Dimensions },
    UnexpectedDataType { unexpected: DataType, expected: ExpectedDataTypes },
    SparseAccessorUnsupported,
    AccessorOutOfBound,
    ViewOutOfBound,
    MissingSource,
    MissingPositionAttribute,
    MissingTexture,
    UnsupportedTopology { unsupported: Mode },
}

/// The component types a reader accepts, as reported when it meets another.
#[derive(Clone, Copy, Debug, PartialEq, Eq, Structural)]
pub enum ExpectedDataTypes {
    /// Indices: `U16` or `U32`.
    U16OrU32,
    /// Joints: `U8` or `U16`.
    U8OrU16,
}

/// Where loaded indices were written in the output buffer, and their type.
#[derive(Debug)]
pub enum IndicesAux {
    U16(Range<usize>),
    U32(Range<usize>),
}

/// Distance between elements of an accessor with the given view.
pub open spec fn stride_of(a: AccessorDesc, v: ViewDesc) -> int {
    match v.stride {
        Some(s) => s as int,
        None => a.size as int,
    }
}

/// Number of bytes an accessor spans.
pub open spec fn span_of(a: AccessorDesc, stride: int) -> int {
    if a.count == 0 {
        0
    } else {
        (a.count - 1) * stride + a.size
    }
}

/// The bound computations of loading do not overflow.
pub open spec fn accessor_arith_fits(a: AccessorDesc) -> bool {
    match a.view {
        None => true,
        Some(v) => {
            &&& span_of(a, stride_of(a, v)) + a.offset <= usize::MAX
            &&& v.offset + v.length <= usize::MAX
        },
    }
}

/// The bytes an accessor covers in its source, with the stride, or the error
/// that loading reports.
pub open spec fn accessor_bytes_spec(a: AccessorDesc, source: Option<Seq<u8>>) -> Result<(Seq<u8>, int), GltfLoadingError> {
    match a.view {
        None => Err(GltfLoadingError::SparseAccessorUnsupported),
        Some(v) => {
            let stride = stride_of(a, v);
            let span = span_of(a, stride);
            if v.length < span + a.offset {
                Err(GltfLoadingError::AccessorOutOfBound)
            } else {
                match source {
                    None => Err(GltfLoadingError::MissingSource),
                    Some(src) => {
                        if src.len() < v.offset + v.length {
                            Err(GltfLoadingError::ViewOutOfBound)
                        } else {
                            let start = v.offset + a.offset;
                            Ok((src.subrange(start, start + span), stride))
                        }
                    },
                }
            }
        },
    }
}

/// Checks an accessor against its view and source and returns the bytes it
/// covers together with the element stride.
pub fn accessor_bytes<'a>(a: &AccessorDesc, source: Option<&'a [u8]>) -> (r: Result<(&'a [u8], usize), GltfLoadingError>)
    requires
        accessor_arith_fits(*a),
    ensures
        match (r, accessor_bytes_spec(*a, match source { Some(s) => Some(s@), None => None })) {
            (Ok((b, st)), Ok((sb, sst))) => b@ == sb && st == sst,
            (Err(e), Err(se)) => e == se,
            _ => false,
        },
{
    let v = match a.view {
        None => return Err(GltfLoadingError::SparseAccessorUnsupported),
        Some(v) => v,
    };
    let stride: usize = match v.stride {
        Some(s) => s,
        None => a.size,
    };
    let span: usize = if a.count == 0 {
        0
    } else {
        proof {
            assert((a.count - 1) * stride <= (a.count - 1) * stride + a.size);
        }
        (a.count - 1) * stride + a.size
    };
    if v.length < span + a.offset {
        return Err(GltfLoadingError::AccessorOutOfBound);
    }
    let bytes = match source {
        None => return Err(GltfLoadingError::MissingSource),
        Some(b) => b,
    };
    if bytes.len() < v.offset + v.length {
        return Err(GltfLoadingError::ViewOutOfBound);
    }
    let start: usize = v.offset + a.offset;
    Ok((&bytes[start..start + span], stride))
}


/// The four bytes of `x`, least significant first.
pub open spec fn le_bytes(x: u32) -> Seq<u8> {
    seq![(x % 256) as u8, ((x / 256) % 256) as u8, ((x / 65536) % 256) as u8, (x / 16777216) as u8]
}

/// The four bytes of `x`, most significant first.
pub open spec fn be_bytes(x: u32) -> Seq<u8> {
    seq![(x / 16777216) as u8, ((x / 65536) % 256) as u8, ((x / 256) % 256) as u8, (x % 256) as u8]
}

/// The bytes of `x` in the host's order.
pub open spec fn native_bytes(x: u32, native_little_endian: bool) -> Seq<u8> {
    if native_little_endian {
        le_bytes(x)
    } else {
        be_bytes(x)
    }
}

/// The bytes of all values in order, each in the host's order.
pub open spec fn encode_all(vals: Seq<u32>, native_little_endian: bool) -> Seq<u8>
    decreases vals.len(),
{
    if vals.len() == 0 {
        Seq::empty()
    } else {
        encode_all(vals.drop_last(), native_little_endian) + native_bytes(vals.last(), native_little_endian)
    }
}

/// The `k`-th index stored little-endian in `bytes`, one every `stride` bytes.
pub open spec fn index_value(data_type: DataType, bytes: Seq<u8>, stride: int, k: int) -> u32 {
    if data_type == DataType::U16 {
        le_u16(bytes.subrange(k * stride, k * stride + 2)) as u32
    } else {
        le_u32(bytes.subrange(k * stride, k * stride + 4))
    }
}

/// The first `n` indices stored in `bytes`.
pub open spec fn index_values(data_type: DataType, bytes: Seq<u8>, stride: int, n: int) -> Seq<u32> {
    Seq::new(n as nat, |k: int| index_value(data_type, bytes, stride, k))
}

/// Loading reaches the point where it reads index data.
pub open spec fn indices_readable(a: AccessorDesc, source: Option<Seq<u8>>) -> bool {
    a.dimensions == Dimensions::Scalar && accessor_bytes_spec(a, source) is Ok
}

/// Calls `u32::to_le_bytes`.
#[verifier::external_body]
fn u32_to_le_bytes(x: u32) -> (r: [u8; 4])
    ensures
        r@ == le_bytes(x),
{
    x.to_le_bytes()
}

/// Calls `u32::to_be_bytes`.
#[verifier::external_body]
fn u32_to_be_bytes(x: u32) -> (r: [u8; 4])
    ensures
        r@ == be_bytes(x),
{
    x.to_be_bytes()
}

fn push_native_u32(output: &mut Vec<u8>, x: u32, native_little_endian: bool)
    requires
        old(output)@.len() + 4 <= usize::MAX,
    ensures
        final(output)@ == old(output)@ + native_bytes(x, native_little_endian),
{
    let b = if native_little_endian { u32_to_le_bytes(x) } else { u32_to_be_bytes(x) };
    output.extend_from_slice(b.as_slice());
    assert(output@ =~= old(output)@ + native_bytes(x, native_little_endian));
}

proof fn lemma_le_bytes_roundtrip(s: Seq<u8>)
    requires
        s.len() == 4,
    ensures
        le_bytes(le_u32(s)) == s,
{
    let a = s[0];
    let b = s[1];
    let c = s[2];
    let d = s[3];
    let x = le_u32(s);
    assert(x == a as u32 + 256 * (b as u32) + 65536 * (c as u32) + 16777216 * (d as u32));
    assert(x % 256 == a && (x / 256) % 256 == b && (x / 65536) % 256 == c && x / 16777216 == d) by (bit_vector)
        requires
            x == a as u32 + 256 * (b as u32) + 65536 * (c as u32) + 16777216 * (d as u32);
    assert(le_bytes(x) =~= s);
}

/// Packed little-endian indices on a little-endian host are their own
/// encoding: copying the bytes gives what reading and writing each index gives.
pub proof fn law_packed_indices_copy(bytes: Seq<u8>, n: int)
    requires
        0 <= n,
        bytes.len() >= 4 * n,
    ensures
        encode_all(index_values(DataType::U32, bytes, 4, n), true) == bytes.subrange(0, 4 * n),
    decreases n,
{
    if n == 0 {
        assert(bytes.subrange(0, 0) =~= Seq::<u8>::empty());
    } else {
        let vals = index_values(DataType::U32, bytes, 4, n);
        assert(vals.drop_last() =~= index_values(DataType::U32, bytes, 4, n - 1));
        law_packed_indices_copy(bytes, n - 1);
        lemma_le_bytes_roundtrip(bytes.subrange(4 * (n - 1), 4 * (n - 1) + 4));
        assert(bytes.subrange(0, 4 * n) =~= bytes.subrange(0, 4 * (n - 1)) + bytes.subrange(4 * (n - 1), 4 * n));
    }
}

proof fn lemma_stride_step(n: int, count: int, stride: int, size: int, len: int)
    requires
        0 <= count < n,
        0 <= stride,
        0 <= size,
        len == (n - 1) * stride + size,
    ensures
        count * stride + size <= len,
        (count + 1) * stride == count * stride + stride,
        len - count * stride >= stride || count + 1 == n,
        0 <= count * stride,
{
    assert(count * stride + size <= len) by (nonlinear_arith)
        requires 0 <= count < n, 0 <= stride, len == (n - 1) * stride + size;
    assert((count + 1) * stride == count * stride + stride) by (nonlinear_arith);
    assert(len - count * stride >= stride || count + 1 == n) by (nonlinear_arith)
        requires 0 <= count < n, 0 <= stride, 0 <= size, len == (n - 1) * stride + size;
    assert(0 <= count * stride) by (nonlinear_arith)
        requires 0 <= count, 0 <= stride;
}

/// Reads `n` little-endian 16-bit indices, one every `stride` bytes, and
/// appends them to `output` as 32-bit values in the host's order.
fn read_u16_indices(bytes: &[u8], stride: usize, n: usize, native_little_endian: bool, output: &mut Vec<u8>)
    requires
        n > 0 ==> bytes@.len() == (n - 1) * stride + 2,
        old(output)@.len() + 4 * n <= usize::MAX,
    ensures
        final(output)@ == old(output)@ + encode_all(index_values(DataType::U16, bytes@, stride as int, n as int), native_little_endian),
{
    let mut iter = FromBytesIter::<u16>::from_bytes_iter(Endianness::Little, bytes, stride);
    let mut count: usize = 0;
    while count < n
        invariant
            count <= n,
            n > 0 ==> bytes@.len() == (n - 1) * stride + 2,
            iter.stride() == stride,
            iter.order() == Endianness::Little,
            count < n ==> count * stride <= bytes@.len() && iter.rest() == bytes@.subrange(count * stride, bytes@.len() as int),
            output@ == old(output)@ + encode_all(index_values(DataType::U16, bytes@, stride as int, count as int), native_little_endian),
            output@.len() == old(output)@.len() + 4 * count,
            old(output)@.len() + 4 * n <= usize::MAX,
        decreases n - count,
    {
        proof {
            lemma_stride_step(n as int, count as int, stride as int, 2, bytes@.len() as int);
        }
        let ghost before = iter.rest();
        match iter.next() {
            Some(index) => {
                proof {
                    let vals = index_values(DataType::U16, bytes@, stride as int, count + 1);
                    assert(vals.drop_last() =~= index_values(DataType::U16, bytes@, stride as int, count as int));
                    assert(before.subrange(0, 2) =~= bytes@.subrange(count * stride, count * stride + 2));
                    if count + 1 < n {
                        assert(iter.rest() =~= bytes@.subrange((count + 1) * stride, bytes@.len() as int));
                    }
                }
                push_native_u32(output, index as u32, native_little_endian);
                count = count + 1;
            }
            None => {
                proof { assert(false); }
            }
        }
    }
}

/// Reads `n` little-endian 32-bit indices, one every `stride` bytes, and
/// appends them to `output` in the host's order.
fn read_u32_indices(bytes: &[u8], stride: usize, n: usize, native_little_endian: bool, output: &mut Vec<u8>)
    requires
        n > 0 ==> bytes@.len() == (n - 1) * stride + 4,
        old(output)@.len() + 4 * n <= usize::MAX,
    ensures
        final(output)@ == old(output)@ + encode_all(index_values(DataType::U32, bytes@, stride as int, n as int), native_little_endian),
{
    let mut iter = FromBytesIter::<u32>::from_bytes_iter(Endianness::Little, bytes, stride);
    let mut count: usize = 0;
    while count < n
        invariant
            count <= n,
            n > 0 ==> bytes@.len() == (n - 1) * stride + 4,
            iter.stride() == stride,
            iter.order() == Endianness::Little,
            count < n ==> count * stride <= bytes@.len() && iter.rest() == bytes@.subrange(count * stride, bytes@.len() as int),
            output@ == old(output)@ + encode_all(index_values(DataType::U32, bytes@, stride as int, count as int), native_little_endian),
            output@.len() == old(output)@.len() + 4 * count,
            old(output)@.len() + 4 * n <= usize::MAX,
        decreases n - count,
    {
        proof {
            lemma_stride_step(n as int, count as int, stride as int, 4, bytes@.len() as int);
        }
        let ghost before = iter.rest();
        match iter.next() {
            Some(index) => {
                proof {
                    let vals = index_values(DataType::U32, bytes@, stride as int, count + 1);
                    assert(vals.drop_last() =~= index_values(DataType::U32, bytes@, stride as int, count as int));
                    assert(before.subrange(0, 4) =~= bytes@.subrange(count * stride, count * stride + 4));
                    if count + 1 < n {
                        assert(iter.rest() =~= bytes@.subrange((count + 1) * stride, bytes@.len() as int));
                    }
                }
                push_native_u32(output, index, native_little_endian);
                count = count + 1;
            }
            None => {
                proof { assert(false); }
            }
        }
    }
}

/// Loads index data into `output` as 32-bit indices in the host's byte order.
/// glTF stores binary data little-endian.
pub fn load_indices(
    accessor: &AccessorDesc,
    source: Option<&[u8]>,
    native_little_endian: bool,
    output: &mut Vec<u8>,
) -> (r: Result<IndicesAux, GltfLoadingError>)
    requires
        accessor_arith_fits(*accessor),
        old(output)@.len() + 4 * accessor.count <= usize::MAX,
        indices_readable(*accessor, match source { Some(s) => Some(s@), None => None }) ==> {
            &&& accessor.data_type == DataType::U16 ==> accessor.size == 2
            &&& accessor.data_type == DataType::U32 ==> accessor.size == 4
        },
    ensures
        ({
            let src = match source { Some(s) => Some(s@), None => None };
            if accessor.dimensions != Dimensions::Scalar {
                &&& r == Err::<IndicesAux, _>(GltfLoadingError::UnexpectedDimensions {
                    unexpected: accessor.dimensions,
                    expected: Dimensions::Scalar,
                })
                &&& final(output)@ == old(output)@
            } else {
                match accessor_bytes_spec(*accessor, src) {
                    Err(e) => r == Err::<IndicesAux, _>(e) && final(output)@ == old(output)@,
                    Ok((bytes, stride)) => {
                        if accessor.data_type == DataType::U16 || accessor.data_type == DataType::U32 {
                            &&& final(output)@ == old(output)@ + encode_all(
                                index_values(accessor.data_type, bytes, stride, accessor.count as int),
                                native_little_endian,
                            )
                            &&& r matches Ok(IndicesAux::U32(range))
                            &&& range.start == old(output)@.len()
                            &&& range.end == final(output)@.len()
                        } else {
                            &&& r == Err::<IndicesAux, _>(GltfLoadingError::UnexpectedDataType {
                                unexpected: accessor.data_type,
                                expected: ExpectedDataTypes::U16OrU32,
                            })
                            &&& final(output)@ == old(output)@
                        }
                    },
                }
            }
        }),
{
    if accessor.dimensions != Dimensions::Scalar {
        return Err(GltfLoadingError::UnexpectedDimensions {
            unexpected: accessor.dimensions,
            expected: Dimensions::Scalar,
        });
    }
    let (bytes, stride) = match accessor_bytes(accessor, source) {
        Ok(found) => found,
        Err(e) => return Err(e),
    };
    let n: usize = accessor.count;
    let start: usize = output.len();
    match accessor.data_type {
        DataType::U16 => {
            read_u16_indices(bytes, stride, n, native_little_endian, output);
            Ok(IndicesAux::U32(start..output.len()))
        }
        DataType::U32 => {
            if native_little_endian && stride == 4 {
                // Packed little-endian indices on a little-endian host are copied as they are.
                output.extend_from_slice(bytes);
                proof {
                    assert(bytes@.len() == 4 * n) by (nonlinear_arith)
                        requires
                            n > 0 ==> bytes@.len() == (n - 1) * 4 + 4,
                            n == 0 ==> bytes@.len() == 0;
                    law_packed_indices_copy(bytes@, n as int);
                    assert(bytes@.subrange(0, 4 * n) =~= bytes@);
                    assert(output@ =~= old(output)@ + bytes@);
                }
                Ok(IndicesAux::U32(start..output.len()))
            } else {
                read_u32_indices(bytes, stride, n, native_little_endian, output);
                Ok(IndicesAux::U32(start..output.len()))
            }
        }
        _ => Err(GltfLoadingError::UnexpectedDataType { unexpected: accessor.data_type, expected: ExpectedDataTypes::U16OrU32 }),
    }
}


/// How glTF primitives are assembled from vertices.
#[derive(Clone, Copy, Debug, PartialEq, Eq, Structural)]
pub enum Mode {
    Points,
    Lines,
    LineLoop,
    LineStrip,
    Triangles,
    TriangleStrip,
    TriangleFan,
}

/// Primitive topology of a mesh.
#[derive(Clone, Copy, Debug, PartialEq, Eq, Structural, Hash)]
pub enum PrimitiveTopology {
    PointList,
    LineList,
    LineStrip,
    TriangleList,
    TriangleStrip,
    TriangleFan,
}

/// The topology a primitive mode maps to; line loops are not supported.
pub open spec fn mode_topology(mode: Mode) -> Result<PrimitiveTopology, GltfLoadingError> {
    match mode {
        Mode::Points => Ok(PrimitiveTopology::PointList),
        Mode::Lines => Ok(PrimitiveTopology::LineList),
        Mode::LineLoop => Err(GltfLoadingError::UnsupportedTopology { unsupported: Mode::LineLoop }),
        Mode::LineStrip => Ok(PrimitiveTopology::LineStrip),
        Mode::Triangles => Ok(PrimitiveTopology::TriangleList),
        Mode::TriangleStrip => Ok(PrimitiveTopology::TriangleStrip),
        Mode::TriangleFan => Ok(PrimitiveTopology::TriangleFan),
    }
}

/// The topology a primitive mode maps to; line loops are not supported.
pub fn topology_from_mode(mode: Mode) -> (r: Result<PrimitiveTopology, GltfLoadingError>)
    ensures
        r == mode_topology(mode),
        r == (match mode {
            Mode::Points => Ok(PrimitiveTopology::PointList),
            Mode::Lines => Ok(PrimitiveTopology::LineList),
            Mode::LineLoop => Err(GltfLoadingError::UnsupportedTopology { unsupported: Mode::LineLoop }),
            Mode::LineStrip => Ok(PrimitiveTopology::LineStrip),
            Mode::Triangles => Ok(PrimitiveTopology::TriangleList),
            Mode::TriangleStrip => Ok(PrimitiveTopology::TriangleStrip),
            Mode::TriangleFan => Ok(PrimitiveTopology::TriangleFan),
        }),
{
    match mode {
        Mode::Points => Ok(PrimitiveTopology::PointList),
        Mode::Lines => Ok(PrimitiveTopology::LineList),
        Mode::LineLoop => Err(GltfLoadingError::UnsupportedTopology { unsupported: Mode::LineLoop }),
        Mode::LineStrip => Ok(PrimitiveTopology::LineStrip),
        Mode::Triangles => Ok(PrimitiveTopology::TriangleList),
        Mode::TriangleStrip => Ok(PrimitiveTopology::TriangleStrip),
        Mode::TriangleFan => Ok(PrimitiveTopology::TriangleFan),
    }
}

/// Calls `byteorder::LittleEndian::read_u16_into` on the first eight bytes of
/// `src` into four values: each pair of bytes, least significant first.
#[verifier::external_body]
fn read_u16x4_le(src: &[u8]) -> (r: [u16; 4])
    requires
        src@.len() == 8,
    ensures
        forall|i: int| 0 <= i < 4 ==> #[trigger] r@[i] == le_u16(src@.subrange(2 * i, 2 * i + 2)),
{
    let mut dst = [0u16; 4];
    LittleEndian::read_u16_into(src, &mut dst);
    dst
}

/// Calls `byteorder::LittleEndian::read_u32_into` on sixteen bytes of `src`
/// into four values: each four bytes, least significant first.
#[verifier::external_body]
fn read_u32x4_le(src: &[u8]) -> (r: [u32; 4])
    requires
        src@.len() == 16,
    ensures
        forall|i: int| 0 <= i < 4 ==> #[trigger] r@[i] == le_u32(src@.subrange(4 * i, 4 * i + 4)),
{
    let mut dst = [0u32; 4];
    LittleEndian::read_u32_into(src, &mut dst);
    dst
}

/// Indices of the four joints that influence a vertex.
#[derive(Clone, Copy, Debug, PartialEq, Eq)]
pub struct Joints(pub [u32; 4]);

/// The joints that `bytes` of a given component type encode, little-endian.
pub open spec fn joints_spec(data_type: DataType, bytes: Seq<u8>) -> Option<Seq<u32>> {
    if data_type == DataType::U8 {
        if bytes.len() == 4 {
            Some(Seq::new(4, |i: int| bytes[i] as u32))
        } else {
            None
        }
    } else if data_type == DataType::U16 {
        if bytes.len() < 8 {
            None
        } else {
            Some(Seq::new(4, |i: int| le_u16(bytes.subrange(2 * i, 2 * i + 2)) as u32))
        }
    } else {
        if bytes.len() < 16 {
            None
        } else {
            Some(Seq::new(4, |i: int| le_u32(bytes.subrange(4 * i, 4 * i + 4))))
        }
    }
}

/// Component types joints can be stored in.
pub open spec fn joint_data_type(data_type: DataType) -> bool {
    data_type == DataType::U8 || data_type == DataType::U16 || data_type == DataType::U32
}

impl Joints {
    /// Reads the joints of one vertex: four bytes exactly for `U8`, or the
    /// first four 16- or 32-bit values.
    pub fn from_bytes(data_type: DataType, bytes: &[u8]) -> (r: Option<Joints>)
        requires
            joint_data_type(data_type),
        ensures
            match joints_spec(data_type, bytes@) {
                Some(j) => r matches Some(v) && v.0@ == j,
                None => r.is_none(),
            },
    {
        match data_type {
            DataType::U8 => {
                if bytes.len() == 4 {
                    let r = Joints([bytes[0] as u32, bytes[1] as u32, bytes[2] as u32, bytes[3] as u32]);
                    assert(r.0@ =~= Seq::new(4, |i: int| bytes@[i] as u32));
                    Some(r)
                } else {
                    None
                }
            }
            DataType::U16 => {
                if bytes.len() < 8 {
                    None
                } else {
                    let v = read_u16x4_le(&bytes[0..8]);
                    let r = Joints([v[0] as u32, v[1] as u32, v[2] as u32, v[3] as u32]);
                    proof {
                        let s = bytes@.subrange(0, 8);
                        assert forall|i: int| 0 <= i < 4 implies #[trigger] s.subrange(2 * i, 2 * i + 2) =~= bytes@.subrange(2 * i, 2 * i + 2) by {}
                        assert(r.0@ =~= Seq::new(4, |i: int| le_u16(bytes@.subrange(2 * i, 2 * i + 2)) as u32));
                    }
                    Some(r)
                }
            }
            _ => {
                if bytes.len() < 16 {
                    None
                } else {
                    let v = read_u32x4_le(&bytes[0..16]);
                    let r = Joints(v);
                    proof {
                        let s = bytes@.subrange(0, 16);
                        assert forall|i: int| 0 <= i < 4 implies #[trigger] s.subrange(4 * i, 4 * i + 4) =~= bytes@.subrange(4 * i, 4 * i + 4) by {}
                        assert(r.0@ =~= Seq::new(4, |i: int| le_u32(bytes@.subrange(4 * i, 4 * i + 4))));
                    }
                    Some(r)
                }
            }
        }
    }

    /// Starts reading joints, one every `stride` bytes; only `U8` and `U16`
    /// components are accepted.
    pub fn from_bytes_iter<'a>(data_type: DataType, bytes: &'a [u8], stride: usize) -> (r: Result<FromGltfBytesIter<'a>, GltfLoadingError>)
        ensures
            match r {
                Ok(it) => {
                    &&& data_type == DataType::U8 || data_type == DataType::U16
                    &&& it.rest() == bytes@
                    &&& it.stride() == stride
                    &&& it.data_type() == data_type
                },
                Err(e) => {
                    &&& data_type != DataType::U8 && data_type != DataType::U16
                    &&& e == GltfLoadingError::UnexpectedDataType { unexpected: data_type, expected: ExpectedDataTypes::U8OrU16 }
                },
            },
    {
        match data_type {
            DataType::U8 | DataType::U16 => Ok(FromGltfBytesIter { bytes, stride, data_type }),
            _ => Err(GltfLoadingError::UnexpectedDataType { unexpected: data_type, expected: ExpectedDataTypes::U8OrU16 }),
        }
    }
}

/// Reads joints from a byte slice, one every `stride` bytes.
#[derive(Debug)]
pub struct FromGltfBytesIter<'a> {
    bytes: &'a [u8],
    stride: usize,
    data_type: DataType,
}

impl<'a> FromGltfBytesIter<'a> {
    pub closed spec fn rest(&self) -> Seq<u8> {
        self.bytes@
    }

    pub closed spec fn stride(&self) -> usize {
        self.stride
    }

    pub closed spec fn data_type(&self) -> DataType {
        self.data_type
    }

    /// Reads the joints in the next `stride` bytes. Where they do not decode,
    /// returns `None` and keeps its place; where fewer than `stride` bytes are
    /// left, returns `None` and drops them.
    pub fn next(&mut self) -> (r: Option<Joints>)
        requires
            joint_data_type(old(self).data_type()),
        ensures
            final(self).stride() == old(self).stride(),
            final(self).data_type() == old(self).data_type(),
            if old(self).rest().len() >= old(self).stride() {
                match joints_spec(old(self).data_type(), old(self).rest().subrange(0, old(self).stride() as int)) {
                    Some(j) => {
                        &&& r matches Some(v) && v.0@ == j
                        &&& final(self).rest() == old(self).rest().subrange(old(self).stride() as int, old(self).rest().len() as int)
                    },
                    None => r.is_none() && final(self).rest() == old(self).rest(),
                }
            } else {
                r.is_none() && final(self).rest() == Seq::<u8>::empty()
            },
    {
        if self.bytes.len() >= self.stride {
            let v = match Joints::from_bytes(self.data_type, &self.bytes[0..self.stride]) {
                Some(v) => v,
                None => return None,
            };
            self.bytes = &self.bytes[self.stride..self.bytes.len()];
            Some(v)
        } else {
            self.bytes = &[];
            None
        }
    }
}


/// Where the joints an accessor describes lie, with their stride, or the
/// error that loading them reports: joints are four-component vectors of
/// `U8` or `U16` components.
pub open spec fn joints_attribute_spec(a: AccessorDesc, source: Option<Seq<u8>>) -> Result<(Seq<u8>, int), GltfLoadingError> {
    if a.dimensions != Dimensions::Vec4 {
        Err(GltfLoadingError::UnexpectedDimensions { unexpected: a.dimensions, expected: Dimensions::Vec4 })
    } else {
        match accessor_bytes_spec(a, source) {
            Err(e) => Err(e),
            Ok((bytes, stride)) => if a.data_type == DataType::U8 || a.data_type == DataType::U16 {
                Ok((bytes, stride))
            } else {
                Err(GltfLoadingError::UnexpectedDataType { unexpected: a.data_type, expected: ExpectedDataTypes::U8OrU16 })
            },
        }
    }
}

/// Checks a joints accessor against its view and source and starts reading
/// the joints it covers.
pub fn load_joints_attribute<'a>(a: &AccessorDesc, source: Option<&'a [u8]>) -> (r: Result<FromGltfBytesIter<'a>, GltfLoadingError>)
    requires
        accessor_arith_fits(*a),
    ensures
        match (r, joints_attribute_spec(*a, match source { Some(s) => Some(s@), None => None })) {
            (Ok(it), Ok((bytes, stride))) => {
                &&& it.rest() == bytes
                &&& it.stride() == stride
                &&& it.data_type() == a.data_type
            },
            (Err(e), Err(se)) => e == se,
            _ => false,
        },
{
    if a.dimensions != Dimensions::Vec4 {
        return Err(GltfLoadingError::UnexpectedDimensions { unexpected: a.dimensions, expected: Dimensions::Vec4 });
    }
    let (bytes, stride) = match accessor_bytes(a, source) {
        Ok(found) => found,
        Err(e) => return Err(e),
    };
    Joints::from_bytes_iter(a.data_type, bytes, stride)
}


/// Where a glTF buffer or image gets its bytes: from inside the document (the
/// binary chunk, or a buffer view), or from a URI.
#[derive(Clone, Debug, PartialEq, Eq)]
pub enum DataSource {
    Embedded,
    Uri(String),
}

/// The URIs among `sources`, in order.
pub open spec fn uris_of(sources: Seq<DataSource>) -> Seq<Seq<char>>
    decreases sources.len(),
{
    if sources.len() == 0 {
        Seq::empty()
    } else {
        let rest = uris_of(sources.drop_last());
        match sources.last() {
            DataSource::Uri(uri) => rest.push(uri@),
            DataSource::Embedded => rest,
        }
    }
}

/// The URIs of the sources that are read from outside the document, in
/// document order.
pub fn external_uris(sources: &[DataSource]) -> (r: Vec<String>)
    ensures
        r@.map_values(|u: String| u@) == uris_of(sources@),
{
    let mut uris: Vec<String> = Vec::new();
    let mut i: usize = 0;
    while i < sources.len()
        invariant
            i <= sources@.len(),
            uris@.map_values(|u: String| u@) == uris_of(sources@.subrange(0, i as int)),
        decreases sources@.len() - i,
    {
        let ghost prefix = sources@.subrange(0, i + 1);
        assert(prefix.drop_last() =~= sources@.subrange(0, i as int));
        assert(prefix.last() == sources@[i as int]);
        match &sources[i] {
            DataSource::Uri(uri) => {
                let ghost before = uris@;
                uris.push(uri.clone());
                assert(uris@.map_values(|u: String| u@) =~= before.map_values(|u: String| u@).push(uri@));
            },
            DataSource::Embedded => {},
        }
        i = i + 1;
    }
    assert(sources@.subrange(0, sources@.len() as int) =~= sources@);
    uris
}

/// The outside sources a glTF document needs: the URIs of its buffers and of
/// its images.
#[derive(Clone, Debug, PartialEq, Eq)]
pub struct ExternalSources {
    pub buffers: Vec<String>,
    pub images: Vec<String>,
}

/// Checks that a parsed document has a scene and lists the buffers and
/// images to read from outside it.
pub fn external_sources(scene_count: usize, buffers: &[DataSource], images: &[DataSource]) -> (r: Result<ExternalSources, GltfLoadingError>)
    ensures
        match r {
            Ok(found) => {
                &&& scene_count > 0
                &&& found.buffers@.map_values(|u: String| u@) == uris_of(buffers@)
                &&& found.images@.map_values(|u: String| u@) == uris_of(images@)
            },
            Err(e) => scene_count == 0 && e == GltfLoadingError::NoScenes,
        },
{
    if scene_count == 0 {
        return Err(GltfLoadingError::NoScenes);
    }
    Ok(ExternalSources { buffers: external_uris(buffers), images: external_uris(images) })
}


/// The counts a primitive's mesh is drawn with: the number of indices where
/// it has indices, else the number of vertices, and the number of vertices.
/// A count over `u32` is an out-of-memory error.
pub fn primitive_counts(vertex_count: usize, index_count: Option<usize>) -> (r: Result<MeshCounts, GltfLoadingError>)
    ensures
        ({
            let count = match index_count {
                Some(n) => n,
                None => vertex_count,
            };
            match r {
                Ok(c) => {
                    &&& count <= u32::MAX && vertex_count <= u32::MAX
                    &&& c.count == count
                    &&& c.vertex_count == vertex_count
                },
                Err(e) => {
                    &&& count > u32::MAX || vertex_count > u32::MAX
                    &&& e == GltfLoadingError::OutOfMemory
                },
            }
        }),
{
    let count: usize = match index_count {
        Some(n) => n,
        None => vertex_count,
    };
    if count > u32::MAX as usize || vertex_count > u32::MAX as usize {
        return Err(GltfLoadingError::OutOfMemory);
    }
    Ok(MeshCounts { count: count as u32, vertex_count: vertex_count as u32 })
}


/// The URIs among sources given as plain values, in order.
pub open spec fn uris_in(sources: Seq<Option<Seq<char>>>) -> Seq<Seq<char>>
    decreases sources.len(),
{
    if sources.len() == 0 {
        Seq::empty()
    } else {
        let rest = uris_in(sources.drop_last());
        match sources.last() {
            Some(uri) => rest.push(uri),
            None => rest,
        }
    }
}

/// What an image of a document says of its bytes, as plain values: its
/// buffer view, its MIME type and its URI.
pub type ImageFieldsView = (Option<nat>, Option<Seq<char>>, Option<Seq<char>>);

/// What `gltf::Gltf::from_slice` makes of `bytes`, as far as loading reads it:
/// the number of scenes, the URI of each buffer, and the buffer view, MIME
/// type and URI of each image; `None` where the bytes do not parse or
/// validate as a document.
pub uninterp spec fn gltf_sources_of(bytes: Seq<u8>) -> Option<(nat, Seq<Option<Seq<char>>>, Seq<(Option<nat>, Option<Seq<char>>, Option<Seq<char>>)>)>;

/// Binary glTF whose header gives a total length under the header's own
/// twelve bytes; `gltf::Gltf::from_slice` subtracts without a check there.
pub open spec fn glb_length_underflows(bytes: Seq<u8>) -> bool {
    &&& bytes.len() >= 12
    &&& bytes[0] == 0x67u8 && bytes[1] == 0x6cu8 && bytes[2] == 0x54u8 && bytes[3] == 0x46u8
    &&& le_u32(bytes.subrange(8, 12)) < 12
}

/// An image whose source can be told: one in a buffer view names its MIME
/// type, any other has a URI.
pub open spec fn image_source_defined(image: ImageFieldsView) -> bool {
    match image.0 {
        Some(_) => image.1 is Some,
        None => image.2 is Some,
    }
}

/// The URI an image is read from, or `None` for one in a buffer view.
pub open spec fn image_uri(image: ImageFieldsView) -> Option<Seq<char>> {
    match image.0 {
        Some(_) => None,
        None => image.2,
    }
}

/// The fields of an image of a parsed document.
#[derive(Clone, Debug)]
pub struct ImageFields {
    pub buffer_view: Option<usize>,
    pub mime_type: Option<String>,
    pub uri: Option<String>,
}

impl ImageFields {
    pub open spec fn view(&self) -> ImageFieldsView {
        (match self.buffer_view { Some(v) => Some(v as nat), None => None },
         match self.mime_type { Some(m) => Some(m@), None => None },
         match self.uri { Some(u) => Some(u@), None => None })
    }
}

/// A URI field as a plain value.
pub open spec fn uri_view(uri: Option<String>) -> Option<Seq<char>> {
    match uri {
        Some(u) => Some(u@),
        None => None,
    }
}

/// The scene count, buffer URIs and image fields of a parsed document.
#[derive(Clone, Debug)]
pub struct DocumentSources {
    pub scene_count: usize,
    pub buffers: Vec<Option<String>>,
    pub images: Vec<ImageFields>,
}

impl DocumentSources {
    /// The document's sources as plain values.
    pub open spec fn view(&self) -> (nat, Seq<Option<Seq<char>>>, Seq<ImageFieldsView>) {
        (self.scene_count as nat,
         self.buffers@.map_values(|u: Option<String>| uri_view(u)),
         self.images@.map_values(|i: ImageFields| i.view()))
    }
}

#[verifier::external_type_specification]
#[verifier::external_body]
pub struct ExGltfError(::gltf::Error);

/// Calls `gltf::Gltf::from_slice` and reads, from the parsed JSON, the number
/// of scenes, the `uri` of each buffer, and the `bufferView`, `mimeType` and
/// `uri` of each image; the result is named `gltf_sources_of(bytes@)`.
#[verifier::external_body]
fn parse_gltf_sources(bytes: &[u8]) -> (r: Result<DocumentSources, ::gltf::Error>)
    requires
        !glb_length_underflows(bytes@),
    ensures
        match r {
            Ok(d) => gltf_sources_of(bytes@) == Some(d.view()),
            Err(_) => gltf_sources_of(bytes@) is None,
        },
{
    let doc = ::gltf::Gltf::from_slice(bytes)?;
    let json = doc.as_json();
    let buffers = json.buffers.iter().map(|b| b.uri.clone()).collect();
    let images = json.images.iter().map(|i| ImageFields {
        buffer_view: i.buffer_view.map(|v| v.value()),
        mime_type: i.mime_type.as_ref().map(|m| m.0.clone()),
        uri: i.uri.clone(),
    }).collect();
    Ok(DocumentSources { scene_count: json.scenes.len(), buffers, images })
}

/// Loading can tell every source of a parsed document: it has no scene, so
/// its sources are not read, or each of its images has a source.
pub open spec fn sources_defined(parsed: (nat, Seq<Option<Seq<char>>>, Seq<ImageFieldsView>)) -> bool {
    parsed.0 == 0 || forall|i: int| 0 <= i < parsed.2.len() ==> #[trigger] image_source_defined(parsed.2[i])
}

/// What loading makes of a parsed document: `NoScenes`, or the URIs of the
/// buffers and images read from outside it.
pub open spec fn sources_result(parsed: (nat, Seq<Option<Seq<char>>>, Seq<ImageFieldsView>)) -> Result<(Seq<Seq<char>>, Seq<Seq<char>>), GltfLoadingError> {
    if parsed.0 == 0 {
        Err(GltfLoadingError::NoScenes)
    } else {
        Ok((uris_in(parsed.1), uris_in(parsed.2.map_values(|i: ImageFieldsView| image_uri(i)))))
    }
}

/// What loading makes of a document's bytes, given what parsing them gives.
pub open spec fn decoded_sources(parsed: Option<(nat, Seq<Option<Seq<char>>>, Seq<ImageFieldsView>)>) -> Result<(Seq<Seq<char>>, Seq<Seq<char>>), GltfLoadingError> {
    match parsed {
        None => Err(GltfLoadingError::GltfError),
        Some(p) => sources_result(p),
    }
}

/// The URIs among optional URIs, in order.
fn present_uris(uris: &Vec<Option<String>>) -> (r: Vec<String>)
    ensures
        r@.map_values(|u: String| u@) == uris_in(uris@.map_values(|u: Option<String>| uri_view(u))),
{
    let mut out: Vec<String> = Vec::new();
    let mut i: usize = 0;
    while i < uris.len()
        invariant
            i <= uris@.len(),
            out@.map_values(|u: String| u@) == uris_in(uris@.subrange(0, i as int).map_values(|u: Option<String>| uri_view(u))),
        decreases uris@.len() - i,
    {
        let ghost prefix = uris@.subrange(0, i + 1).map_values(|u: Option<String>| uri_view(u));
        assert(prefix.drop_last() =~= uris@.subrange(0, i as int).map_values(|u: Option<String>| uri_view(u)));
        match &uris[i] {
            Some(uri) => {
                let ghost before = out@;
                out.push(uri.clone());
                assert(out@.map_values(|u: String| u@) =~= before.map_values(|u: String| u@).push(uri@));
            },
            None => {},
        }
        i = i + 1;
    }
    assert(uris@.subrange(0, uris@.len() as int) =~= uris@);
    out
}

/// The URIs of the images that are read from outside the document, in order.
fn image_uris(images: &Vec<ImageFields>) -> (r: Vec<String>)
    ensures
        r@.map_values(|u: String| u@) == uris_in(images@.map_values(|i: ImageFields| i.view()).map_values(|i: ImageFieldsView| image_uri(i))),
{
    let mut out: Vec<String> = Vec::new();
    let mut i: usize = 0;
    while i < images.len()
        invariant
            i <= images@.len(),
            out@.map_values(|u: String| u@) == uris_in(images@.subrange(0, i as int).map_values(|i: ImageFields| i.view()).map_values(|i: ImageFieldsView| image_uri(i))),
        decreases images@.len() - i,
    {
        let ghost prefix = images@.subrange(0, i + 1).map_values(|i: ImageFields| i.view()).map_values(|i: ImageFieldsView| image_uri(i));
        assert(prefix.drop_last() =~= images@.subrange(0, i as int).map_values(|i: ImageFields| i.view()).map_values(|i: ImageFieldsView| image_uri(i)));
        let image = &images[i];
        match image.buffer_view {
            Some(_) => {},
            None => match &image.uri {
                Some(uri) => {
                    let ghost before = out@;
                    out.push(uri.clone());
                    assert(out@.map_values(|u: String| u@) =~= before.map_values(|u: String| u@).push(uri@));
                },
                None => {},
            },
        }
        i = i + 1;
    }
    let ghost all = images@.map_values(|i: ImageFields| i.view()).map_values(|i: ImageFieldsView| image_uri(i));
    assert(images@.subrange(0, images@.len() as int) =~= images@);
    out
}

/// Lists the buffers and images a parsed document reads from outside itself;
/// a document with no scene is refused.
pub fn sources_from_parsed(parsed: &DocumentSources) -> (r: Result<ExternalSources, GltfLoadingError>)
    requires
        sources_defined(parsed.view()),
    ensures
        match (r, sources_result(parsed.view())) {
            (Ok(found), Ok((buffers, images))) => {
                &&& found.buffers@.map_values(|u: String| u@) == buffers
                &&& found.images@.map_values(|u: String| u@) == images
            },
            (Err(e), Err(se)) => e == se,
            _ => false,
        },
{
    if parsed.scene_count == 0 {
        return Err(GltfLoadingError::NoScenes);
    }
    let buffers = present_uris(&parsed.buffers);
    let images = image_uris(&parsed.images);
    proof {
        assert(parsed.images@.map_values(|i: ImageFields| i.view()).map_values(|i: ImageFieldsView| image_uri(i))
            =~= parsed.view().2.map_values(|i: ImageFieldsView| image_uri(i)));
    }
    Ok(ExternalSources { buffers, images })
}

/// Parses a glTF document and lists the buffers and images to read from
/// outside it; a document that does not parse, or has no scene, is refused.
pub fn decode_gltf_sources(bytes: &[u8]) -> (r: Result<ExternalSources, GltfLoadingError>)
    requires
        !glb_length_underflows(bytes@),
        gltf_sources_of(bytes@) matches Some(p) ==> sources_defined(p),
    ensures
        match (r, decoded_sources(gltf_sources_of(bytes@))) {
            (Ok(found), Ok((buffers, images))) => {
                &&& found.buffers@.map_values(|u: String| u@) == buffers
                &&& found.images@.map_values(|u: String| u@) == images
            },
            (Err(e), Err(se)) => e == se,
            _ => false,
        },
{
    let parsed = match parse_gltf_sources(bytes) {
        Ok(d) => d,
        Err(_) => return Err(GltfLoadingError::GltfError),
    };
    sources_from_parsed(&parsed)
}

/// Parses a glTF document and, where loading can tell all its sources, lists
/// the buffers and images to read from outside it as `decode_gltf_sources`
/// does; `None` for a document with a scene and an image that has neither a
/// URI nor, in a buffer view, a MIME type.
pub fn try_decode_gltf_sources(bytes: &[u8]) -> (r: Option<Result<ExternalSources, GltfLoadingError>>)
    requires
        !glb_length_underflows(bytes@),
    ensures
        match r {
            None => gltf_sources_of(bytes@) matches Some(p) && !sources_defined(p),
            Some(res) => {
                &&& gltf_sources_of(bytes@) matches Some(p) ==> sources_defined(p)
                &&& match (res, decoded_sources(gltf_sources_of(bytes@))) {
                    (Ok(found), Ok((buffers, images))) => {
                        &&& found.buffers@.map_values(|u: String| u@) == buffers
                        &&& found.images@.map_values(|u: String| u@) == images
                    },
                    (Err(e), Err(se)) => e == se,
                    _ => false,
                }
            },
        },
{
    match parse_gltf_sources(bytes) {
        Err(_) => {},
        Ok(parsed) => {
            if parsed.scene_count > 0 {
                let mut i: usize = 0;
                while i < parsed.images.len()
                    invariant
                        i <= parsed.images@.len(),
                        parsed.scene_count > 0,
                        gltf_sources_of(bytes@) == Some(parsed.view()),
                        forall|j: int| 0 <= j < i ==> #[trigger] image_source_defined(parsed.images@[j].view()),
                    decreases parsed.images@.len() - i,
                {
                    let image = &parsed.images[i];
                    let defined = match image.buffer_view {
                        Some(_) => image.mime_type.is_some(),
                        None => image.uri.is_some(),
                    };
                    if !defined {
                        proof {
                            assert(parsed.view().2[i as int] == parsed.images@[i as int].view());
                            assert(!image_source_defined(parsed.view().2[i as int]));
                            assert(parsed.view().0 > 0);
                            assert(!sources_defined(parsed.view()));
                        }
                        return None;
                    }
                    i = i + 1;
                }
                assert(sources_defined(parsed.view()));
            }
        },
    }
    Some(decode_gltf_sources(bytes))
}


/// Listing URIs goes source by source: the URIs of two runs of sources are
/// those of the first followed by those of the second; a source with a URI
/// lists exactly that URI, one without lists nothing.
pub proof fn law_uris_in_concat(s: Seq<Option<Seq<char>>>, t: Seq<Option<Seq<char>>>, uri: Seq<char>)
    ensures
        uris_in(s + t) == uris_in(s) + uris_in(t),
        uris_in(seq![Some(uri)]) == seq![uri],
        uris_in(seq![None::<Seq<char>>]) == Seq::<Seq<char>>::empty(),
        uris_in(Seq::<Option<Seq<char>>>::empty()) == Seq::<Seq<char>>::empty(),
    decreases t.len(),
{
    if t.len() == 0 {
        assert(s + t =~= s);
        assert(uris_in(s) + uris_in(t) =~= uris_in(s));
    } else {
        law_uris_in_concat(s, t.drop_last(), uri);
        assert((s + t).drop_last() =~= s + t.drop_last());
        assert((s + t).last() == t.last());
        match t.last() {
            Some(u) => {
                assert(uris_in(s) + uris_in(t.drop_last()).push(u) =~= (uris_in(s) + uris_in(t.drop_last())).push(u));
            },
            None => {},
        }
    }
    assert(uris_in(Seq::<Option<Seq<char>>>::empty()) == Seq::<Seq<char>>::empty());
    assert(seq![Some(uri)].drop_last() =~= Seq::<Option<Seq<char>>>::empty());
    assert(seq![None::<Seq<char>>].drop_last() =~= Seq::<Option<Seq<char>>>::empty());
    assert(seq![Some(uri)].last() == Some(uri));
    assert(seq![None::<Seq<char>>].last() == None::<Seq<char>>);
    assert(Seq::<Seq<char>>::empty().push(uri) =~= seq![uri]);
}

/// The same for sources given as `DataSource`s: runs concatenate, a URI
/// source lists its URI, an embedded one nothing.
pub proof fn law_uris_of_concat(s: Seq<DataSource>, t: Seq<DataSource>, uri: String)
    ensures
        uris_of(s + t) == uris_of(s) + uris_of(t),
        uris_of(seq![DataSource::Uri(uri)]) == seq![uri@],
        uris_of(seq![DataSource::Embedded]) == Seq::<Seq<char>>::empty(),
    decreases t.len(),
{
    if t.len() == 0 {
        assert(s + t =~= s);
        assert(uris_of(s) + uris_of(t) =~= uris_of(s));
    } else {
        law_uris_of_concat(s, t.drop_last(), uri);
        assert((s + t).drop_last() =~= s + t.drop_last());
        assert((s + t).last() == t.last());
        match t.last() {
            DataSource::Uri(u) => {
                assert(uris_of(s) + uris_of(t.drop_last()).push(u@) =~= (uris_of(s) + uris_of(t.drop_last())).push(u@));
            },
            DataSource::Embedded => {},
        }
    }
    assert(uris_of(Seq::<DataSource>::empty()) == Seq::<Seq<char>>::empty());
    assert(seq![DataSource::Uri(uri)].drop_last() =~= Seq::<DataSource>::empty());
    assert(seq![DataSource::Embedded].drop_last() =~= Seq::<DataSource>::empty());
    assert(seq![DataSource::Uri(uri)].last() == DataSource::Uri(uri));
    assert(seq![DataSource::Embedded].last() == DataSource::Embedded);
    assert(Seq::<Seq<char>>::empty().push(uri@) =~= seq![uri@]);
}

/// An image in a buffer view is read from inside the document and lists no
/// URI; any other image lists its URI.
pub proof fn law_image_uri(image: ImageFieldsView)
    ensures
        image.0 is Some ==> image_uri(image) is None,
        image.0 is None ==> image_uri(image) == image.2,
{
}


/// The bytes an accessor covers lie inside its view, and the view inside its
/// source: they start at the view's offset plus the accessor's, and span
/// `(count - 1) * stride + size` bytes (none for an empty accessor), with the
/// view's stride where it sets one and the element size otherwise.
pub proof fn law_accessor_bytes_in_view(a: AccessorDesc, source: Option<Seq<u8>>)
    requires
        accessor_bytes_spec(a, source) is Ok,
    ensures
        ({
            let v = a.view->0;
            let src = source->0;
            let (bytes, stride) = accessor_bytes_spec(a, source)->Ok_0;
            let span = if a.count == 0 { 0 } else { (a.count - 1) * stride + a.size };
            &&& a.view is Some && source is Some
            &&& stride == (if v.stride is Some { v.stride->0 as int } else { a.size as int })
            &&& bytes.len() == span
            &&& a.offset + span <= v.length
            &&& v.offset + v.length <= src.len()
            &&& bytes == src.subrange(v.offset + a.offset, v.offset + a.offset + span)
        }),
{
}

} // verus!
