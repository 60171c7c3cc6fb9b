//! Reading index data: a checked reinterpretation of a byte range as
//! little-endian unsigned integers of 16 or 32 bits.

use crate::asset::Accessor;
use crate::buffer::{check_view, view_bytes, view_in_bounds};
use crate::error::Error;
use crate::format::{DataType, Dimensions};
use crate::mesh::Indices;
use vstd::prelude::*;

verus! {

/// The 16-bit number whose little-endian bytes are `lo`, `hi`.
pub open spec fn le_u16(lo: u8, hi: u8) -> u16 {
    (lo as int + 256 * hi as int) as u16
}

/// The 32-bit number whose little-endian bytes are `b0` to `b3`.
pub open spec fn le_u32(b0: u8, b1: u8, b2: u8, b3: u8) -> u32 {
    (b0 as int + 256 * b1 as int + 65536 * b2 as int + 16777216 * b3 as int) as u32
}

/// The bytes read two by two as 16-bit numbers.
pub open spec fn decode_u16(bytes: Seq<u8>) -> Seq<u16> {
    Seq::new(bytes.len() / 2, |i: int| le_u16(bytes[2 * i], bytes[2 * i + 1]))
}

/// The bytes read four by four as 32-bit numbers.
pub open spec fn decode_u32(bytes: Seq<u8>) -> Seq<u32> {
    Seq::new(
        bytes.len() / 4,
        |i: int| le_u32(bytes[4 * i], bytes[4 * i + 1], bytes[4 * i + 2], bytes[4 * i + 3]),
    )
}

/// Byte width of one index, for the accessors that can hold indices: scalars
/// of 16- or 32-bit unsigned integers.
pub open spec fn index_width(accessor: Accessor) -> Option<nat> {
    if accessor.dimensions == Dimensions::Scalar && accessor.data_type == DataType::U16 {
        Some(2)
    } else if accessor.dimensions == Dimensions::Scalar && accessor.data_type == DataType::U32 {
        Some(4)
    } else {
        None
    }
}

/// Why the accessor cannot be read as indices, if it cannot. The element type
/// is judged first, then the presence of a view, then the view's byte range:
/// it must lie inside its buffer, start on a multiple of the index width and
/// hold a whole number of indices.
pub open spec fn index_error(accessor: Accessor, buffers: Seq<Vec<u8>>) -> Option<Error> {
    match index_width(accessor) {
        None => Some(Error::UnsupportedIndicesFormat),
        Some(width) => match accessor.view {
            None => Some(Error::UnsupportedSparseStorage),
            Some(view) => if view_in_bounds(view, buffers) && view.offset as int % width as int == 0
                && view.length as int % width as int == 0 {
                None
            } else {
                Some(Error::CorruptBufferView)
            },
        },
    }
}

/// `indices` are the numbers that the bytes of the accessor's view spell, in
/// the width the accessor declares.
pub open spec fn indices_of(indices: Indices, accessor: Accessor, buffers: Seq<Vec<u8>>) -> bool {
    match indices {
        Indices::U16(values) => accessor.data_type == DataType::U16 && values@ == decode_u16(
            view_bytes(accessor.view.unwrap(), buffers),
        ),
        Indices::U32(values) => accessor.data_type == DataType::U32 && values@ == decode_u32(
            view_bytes(accessor.view.unwrap(), buffers),
        ),
    }
}

/// Reads the bytes from `start` on, two by two, as 16-bit numbers.
fn read_u16s(buffer: &Vec<u8>, start: usize, length: usize) -> (values: Vec<u16>)
    requires
        start + length <= buffer.len(),
        length % 2 == 0,
    ensures
        values@ == decode_u16(buffer@.subrange(start as int, start + length)),
{
    let ghost bytes = buffer@.subrange(start as int, start + length);
    let count = length / 2;
    let mut values: Vec<u16> = Vec::new();
    let mut i: usize = 0;
    while i < count
        invariant
            i <= count,
            count == length / 2,
            length % 2 == 0,
            start + length <= buffer.len(),
            bytes == buffer@.subrange(start as int, start + length),
            values@.len() == i,
            forall|j: int| 0 <= j < i ==> values@[j] == le_u16(bytes[2 * j], bytes[2 * j + 1]),
        decreases count - i,
    {
        let lo = buffer[start + 2 * i];
        let hi = buffer[start + 2 * i + 1];
        let value: u16 = lo as u16 + 256 * (hi as u16);
        values.push(value);
        i += 1;
    }
    assert(values@ =~= decode_u16(bytes));
    values
}

/// Reads the bytes from `start` on, four by four, as 32-bit numbers.
fn read_u32s(buffer: &Vec<u8>, start: usize, length: usize) -> (values: Vec<u32>)
    requires
        start + length <= buffer.len(),
        length % 4 == 0,
    ensures
        values@ == decode_u32(buffer@.subrange(start as int, start + length)),
{
    let ghost bytes = buffer@.subrange(start as int, start + length);
    let count = length / 4;
    let mut values: Vec<u32> = Vec::new();
    let mut i: usize = 0;
    while i < count
        invariant
            i <= count,
            count == length / 4,
            length % 4 == 0,
            start + length <= buffer.len(),
            bytes == buffer@.subrange(start as int, start + length),
            values@.len() == i,
            forall|j: int|
                0 <= j < i ==> values@[j] == le_u32(
                    bytes[4 * j],
                    bytes[4 * j + 1],
                    bytes[4 * j + 2],
                    bytes[4 * j + 3],
                ),
        decreases count - i,
    {
        let b0 = buffer[start + 4 * i];
        let b1 = buffer[start + 4 * i + 1];
        let b2 = buffer[start + 4 * i + 2];
        let b3 = buffer[start + 4 * i + 3];
        let value: u32 = b0 as u32 + 256 * (b1 as u32) + 65536 * (b2 as u32) + 16777216 * (
        b3 as u32);
        values.push(value);
        i += 1;
    }
    assert(values@ =~= decode_u32(bytes));
    values
}

/// Reads the indices an accessor describes out of the loaded buffers.
///
/// Only scalars of 16- or 32-bit unsigned integers are indices. The whole
/// byte range of the accessor's view is read, little-endian, so the number of
/// indices is the view's length divided by the index width.
pub fn read_indices(accessor: &Accessor, buffers: &Vec<Vec<u8>>) -> (read: Result<Indices, Error>)
    ensures
        match read {
            Ok(indices) => {
                &&& index_error(*accessor, buffers@).is_none()
                &&& indices_of(indices, *accessor, buffers@)
                &&& indices.values().len() == accessor.view.unwrap().length as int / index_width(
                    *accessor,
                ).unwrap() as int
            },
            Err(error) => index_error(*accessor, buffers@) == Some(error),
        },
{
    let width: usize = match (accessor.dimensions, accessor.data_type) {
        (Dimensions::Scalar, DataType::U16) => 2,
        (Dimensions::Scalar, DataType::U32) => 4,
        _ => {
            return Err(Error::UnsupportedIndicesFormat);
        },
    };
    let view = match accessor.view {
        Some(view) => view,
        None => {
            return Err(Error::UnsupportedSparseStorage);
        },
    };
    if !check_view(&view, buffers) || view.offset % width != 0 || view.length % width != 0 {
        return Err(Error::CorruptBufferView);
    }
    let buffer = &buffers[view.buffer];
    if width == 2 {
        Ok(Indices::U16(read_u16s(buffer, view.offset, view.length)))
    } else {
        Ok(Indices::U32(read_u32s(buffer, view.offset, view.length)))
    }
}

/// An accessor of vectors, or of real numbers, never holds indices, whatever
/// its view; a scalar accessor of 16-bit unsigned integers whose view lies
/// in its buffer on even bounds holds half as many indices as the view has
/// bytes.
pub proof fn lemma_index_formats(accessor: Accessor, buffers: Seq<Vec<u8>>)
    ensures
        accessor.dimensions == Dimensions::Vec2 || accessor.data_type == DataType::F32
            ==> index_error(accessor, buffers) == Some(Error::UnsupportedIndicesFormat),
        accessor.dimensions == Dimensions::Scalar && accessor.data_type == DataType::U16
            && accessor.view.is_some() && view_in_bounds(accessor.view.unwrap(), buffers)
            && accessor.view.unwrap().offset % 2 == 0 && accessor.view.unwrap().length % 2 == 0
            ==> index_error(accessor, buffers).is_none() && decode_u16(
            view_bytes(accessor.view.unwrap(), buffers),
        ).len() == accessor.view.unwrap().length / 2,
{
}

} // verus!
