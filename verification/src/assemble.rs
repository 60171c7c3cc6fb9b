//! Assembling vertex data: attribute arrays that lie apart in the buffers are
//! packed into one buffer, vertex by vertex.

use crate::asset::BufferView;
use crate::buffer::{check_view, view_bytes, view_in_bounds};
use crate::error::Error;
use crate::format::VertexFormat;
use crate::mesh::{vertex_size, Attribute};
use vstd::prelude::*;

verus! {

/// One attribute of a primitive, resolved: its kind, its format and the view
/// that holds its array.
#[derive(Debug, Clone, Copy, PartialEq, Eq, Structural)]
pub struct AttributeSource {
    pub kind: Attribute,
    pub format: VertexFormat,
    pub view: BufferView,
}

/// An array of elements of one size, as bytes.
pub struct Source {
    pub region: Seq<u8>,
    pub size: nat,
}

/// The arrays that the attributes select in the buffers.
pub open spec fn sources_of(attributes: Seq<AttributeSource>, buffers: Seq<Vec<u8>>) -> Seq<
    Source,
> {
    Seq::new(
        attributes.len(),
        |i: int|
            Source {
                region: view_bytes(attributes[i].view, buffers),
                size: attributes[i].format.spec_size() as nat,
            },
    )
}

/// Kind and format of each attribute, in order.
pub open spec fn described(attributes: Seq<AttributeSource>) -> Seq<(Attribute, VertexFormat)> {
    Seq::new(attributes.len(), |i: int| (attributes[i].kind, attributes[i].format))
}

/// Size of one packed vertex: the element sizes added up.
pub open spec fn stride(sources: Seq<Source>) -> nat
    decreases sources.len(),
{
    if sources.len() == 0 {
        0
    } else {
        stride(sources.drop_last()) + sources.last().size
    }
}

/// Where the element of attribute `a` starts inside a packed vertex.
pub open spec fn offset_of(sources: Seq<Source>, a: int) -> nat {
    stride(sources.take(a))
}

/// The bytes of element `v` of the array.
pub open spec fn element(source: Source, v: int) -> Seq<u8> {
    source.region.subrange(v * source.size, v * source.size + source.size)
}

/// The packed vertex `v`: element `v` of each array, in attribute order.
pub open spec fn vertex_block(sources: Seq<Source>, v: int) -> Seq<u8>
    decreases sources.len(),
{
    if sources.len() == 0 {
        Seq::empty()
    } else {
        vertex_block(sources.drop_last(), v) + element(sources.last(), v)
    }
}

/// The first `count` packed vertices, one after the other.
pub open spec fn packed(sources: Seq<Source>, count: nat) -> Seq<u8>
    decreases count,
{
    if count == 0 {
        Seq::empty()
    } else {
        packed(sources, (count - 1) as nat) + vertex_block(sources, count - 1)
    }
}

/// Every array holds at least `count` elements.
pub open spec fn sources_hold(sources: Seq<Source>, count: nat) -> bool {
    forall|i: int|
        0 <= i < sources.len() ==> count * (#[trigger] sources[i]).size <= sources[i].region.len()
}

/// Every view lies inside its buffer and holds at least `count` elements of
/// its attribute's format.
pub open spec fn regions_hold(
    attributes: Seq<AttributeSource>,
    buffers: Seq<Vec<u8>>,
    count: nat,
) -> bool {
    forall|i: int|
        0 <= i < attributes.len() ==> {
            &&& view_in_bounds((#[trigger] attributes[i]).view, buffers)
            &&& count * attributes[i].format.spec_size() <= attributes[i].view.length
        }
}

proof fn lemma_element_fits(v: int, count: nat, size: nat)
    requires
        0 <= v < count,
    ensures
        v * size + size <= count * size,
        0 <= v * size,
{
    assert(v * size + size <= count * size) by (nonlinear_arith)
        requires
            v + 1 <= count,
    ;
    assert(0 <= v * size) by (nonlinear_arith)
        requires
            0 <= v,
    ;
}

/// A packed vertex is as long as the stride.
pub proof fn lemma_vertex_block_len(sources: Seq<Source>, count: nat, v: int)
    requires
        sources_hold(sources, count),
        0 <= v < count,
    ensures
        vertex_block(sources, v).len() == stride(sources),
    decreases sources.len(),
{
    if sources.len() > 0 {
        let front = sources.drop_last();
        assert forall|i: int| 0 <= i < front.len() implies count * (#[trigger] front[i]).size
            <= front[i].region.len() by {
            assert(front[i] == sources[i]);
        }
        lemma_vertex_block_len(front, count, v);
        let last = sources.last();
        assert(last == sources[sources.len() - 1]);
        lemma_element_fits(v, count, last.size);
    }
}

/// `count` packed vertices are `count` strides long.
pub proof fn lemma_packed_len(sources: Seq<Source>, count: nat, n: nat)
    requires
        sources_hold(sources, count),
        n <= count,
    ensures
        packed(sources, n).len() == n * stride(sources),
    decreases n,
{
    if n > 0 {
        lemma_packed_len(sources, count, (n - 1) as nat);
        lemma_vertex_block_len(sources, count, n - 1);
        assert((n - 1) * stride(sources) + stride(sources) == n * stride(sources))
            by (nonlinear_arith);
    } else {
        assert(0 * stride(sources) == 0) by (nonlinear_arith);
    }
}

/// Inside a packed vertex, the bytes at an attribute's offset are that
/// attribute's element.
pub proof fn lemma_vertex_block_index(sources: Seq<Source>, count: nat, v: int, a: int, k: int)
    requires
        sources_hold(sources, count),
        0 <= v < count,
        0 <= a < sources.len(),
        0 <= k < sources[a].size,
    ensures
        offset_of(sources, a) + k < stride(sources),
        vertex_block(sources, v)[offset_of(sources, a) + k] == sources[a].region[v
            * sources[a].size + k],
    decreases sources.len(),
{
    let front = sources.drop_last();
    let last = sources.last();
    assert forall|i: int| 0 <= i < front.len() implies count * (#[trigger] front[i]).size
        <= front[i].region.len() by {
        assert(front[i] == sources[i]);
    }
    lemma_vertex_block_len(front, count, v);
    assert(last == sources[sources.len() - 1]);
    lemma_element_fits(v, count, last.size);
    if a == sources.len() - 1 {
        assert(sources.take(a) == front);
    } else {
        lemma_vertex_block_index(front, count, v, a, k);
        assert(front.take(a) == sources.take(a));
        assert(front[a] == sources[a]);
    }
}

/// Inside the packed buffer, vertex `v` starts at `v` strides.
pub proof fn lemma_packed_index(sources: Seq<Source>, count: nat, v: int, j: int)
    requires
        sources_hold(sources, count),
        0 <= v < count,
        0 <= j < stride(sources),
    ensures
        v * stride(sources) + j < packed(sources, count).len(),
        packed(sources, count)[v * stride(sources) + j] == vertex_block(sources, v)[j],
    decreases count,
{
    let rest = (count - 1) as nat;
    assert(sources_hold(sources, rest)) by {
        assert forall|i: int| 0 <= i < sources.len() implies rest * (#[trigger] sources[i]).size
            <= sources[i].region.len() by {
            assert(rest * sources[i].size <= count * sources[i].size) by (nonlinear_arith)
                requires
                    rest <= count,
            ;
        }
    }
    lemma_packed_len(sources, count, rest);
    lemma_packed_len(sources, count, count);
    lemma_vertex_block_len(sources, count, rest as int);
    if v == rest {
    } else {
        lemma_packed_index(sources, rest, v, j);
    }
}

/// Reading the packed buffer back reproduces the arrays: byte `k` of element
/// `v` of attribute `a` stands at `v` strides plus the attribute's offset
/// plus `k`.
pub proof fn lemma_packed_round_trip(sources: Seq<Source>, count: nat, v: int, a: int, k: int)
    requires
        sources_hold(sources, count),
        0 <= v < count,
        0 <= a < sources.len(),
        0 <= k < sources[a].size,
    ensures
        packed(sources, count).len() == count * stride(sources),
        v * stride(sources) + offset_of(sources, a) + k < packed(sources, count).len(),
        packed(sources, count)[v * stride(sources) + offset_of(sources, a) + k]
            == sources[a].region[v * sources[a].size + k],
{
    lemma_packed_len(sources, count, count);
    lemma_vertex_block_index(sources, count, v, a, k);
    lemma_packed_index(sources, count, v, offset_of(sources, a) + k);
}

/// The arrays selected by views that hold are long enough, and their stride is
/// the vertex size of the described attributes.
pub proof fn lemma_sources_of(attributes: Seq<AttributeSource>, buffers: Seq<Vec<u8>>, count: nat)
    requires
        regions_hold(attributes, buffers, count),
    ensures
        sources_hold(sources_of(attributes, buffers), count),
        stride(sources_of(attributes, buffers)) == vertex_size(described(attributes)),
    decreases attributes.len(),
{
    let sources = sources_of(attributes, buffers);
    assert forall|i: int| 0 <= i < sources.len() implies count * (#[trigger] sources[i]).size
        <= sources[i].region.len() by {
        assert(view_in_bounds(attributes[i].view, buffers));
    }
    if attributes.len() > 0 {
        let front = attributes.drop_last();
        assert forall|i: int| 0 <= i < front.len() implies {
            &&& view_in_bounds((#[trigger] front[i]).view, buffers)
            &&& count * front[i].format.spec_size() <= front[i].view.length
        } by {
            assert(front[i] == attributes[i]);
        }
        lemma_sources_of(front, buffers, count);
        assert(sources.drop_last() == sources_of(front, buffers));
        assert(described(attributes).drop_last() == described(front));
    }
}

/// Reading packed vertices back reproduces the buffers: with views that
/// hold, byte `k` of element `v` of attribute `a` stands in the packed
/// buffer at `v` vertex sizes, plus the sizes of the attributes before `a`,
/// plus `k`.
pub proof fn lemma_assembled_round_trip(
    attributes: Seq<AttributeSource>,
    buffers: Seq<Vec<u8>>,
    count: nat,
    v: int,
    a: int,
    k: int,
)
    requires
        regions_hold(attributes, buffers, count),
        0 <= v < count,
        0 <= a < attributes.len(),
        0 <= k < attributes[a].format.spec_size(),
    ensures
        packed(sources_of(attributes, buffers), count).len() == count * vertex_size(
            described(attributes),
        ),
        0 <= v * vertex_size(described(attributes)) + vertex_size(described(attributes).take(a))
            + k < packed(sources_of(attributes, buffers), count).len(),
        attributes[a].view.offset + v * attributes[a].format.spec_size() + k
            < buffers[attributes[a].view.buffer as int]@.len(),
        packed(sources_of(attributes, buffers), count)[v * vertex_size(described(attributes))
            + vertex_size(described(attributes).take(a)) + k]
            == buffers[attributes[a].view.buffer as int]@[attributes[a].view.offset + v
            * attributes[a].format.spec_size() + k],
{
    let sources = sources_of(attributes, buffers);
    let size = attributes[a].format.spec_size() as nat;
    lemma_sources_of(attributes, buffers, count);
    assert(sources[a].size == size);
    lemma_packed_round_trip(sources, count, v, a, k);
    // The offset of attribute `a` is the vertex size of the attributes before it.
    let before = attributes.take(a);
    assert forall|i: int| 0 <= i < before.len() implies {
        &&& view_in_bounds((#[trigger] before[i]).view, buffers)
        &&& count * before[i].format.spec_size() <= before[i].view.length
    } by {
        assert(before[i] == attributes[i]);
    }
    lemma_sources_of(before, buffers, count);
    assert(sources_of(before, buffers) == sources.take(a));
    assert(described(before) == described(attributes).take(a));
    // The element lies inside the view, and the view inside its buffer.
    assert(view_in_bounds(attributes[a].view, buffers));
    lemma_element_fits(v, count, size);
    assert(0 <= v * vertex_size(described(attributes))) by (nonlinear_arith)
        requires
            0 <= v,
            0 <= vertex_size(described(attributes)),
    ;
}

/// Decides whether every view lies inside its buffer and holds `count`
/// elements of its attribute's format.
pub fn check_regions(attributes: &Vec<AttributeSource>, buffers: &Vec<Vec<u8>>, count: usize) -> (held:
    bool)
    ensures
        held == regions_hold(attributes@, buffers@, count as nat),
{
    let mut i: usize = 0;
    while i < attributes.len()
        invariant
            i <= attributes.len(),
            forall|j: int|
                0 <= j < i ==> {
                    &&& view_in_bounds((#[trigger] attributes@[j]).view, buffers@)
                    &&& count * attributes@[j].format.spec_size() <= attributes@[j].view.length
                },
        decreases attributes.len() - i,
    {
        let source = attributes[i];
        let size = source.format.size() as usize;
        let needed = count.checked_mul(size);
        let fits = match needed {
            Some(needed) => needed <= source.view.length,
            None => false,
        };
        if !check_view(&source.view, buffers) || !fits {
            assert(!regions_hold(attributes@, buffers@, count as nat)) by {
                let bad = attributes@[i as int];
                assert(!(view_in_bounds(bad.view, buffers@) && count * bad.format.spec_size()
                    <= bad.view.length));
            }
            return false;
        }
        i += 1;
    }
    true
}

/// Packs attribute arrays that lie apart into one buffer.
///
/// For each of the `count` vertices in order, and within a vertex for each
/// attribute in order, the bytes of that attribute's element are appended. A
/// view that leaves its buffer, or is too short for `count` elements, fails
/// the whole assembly.
pub fn assemble_separate(
    attributes: &Vec<AttributeSource>,
    buffers: &Vec<Vec<u8>>,
    count: usize,
) -> (assembled: Result<Vec<u8>, Error>)
    ensures
        match assembled {
            Ok(data) => {
                &&& regions_hold(attributes@, buffers@, count as nat)
                &&& data@ == packed(sources_of(attributes@, buffers@), count as nat)
                &&& data@.len() == count * vertex_size(described(attributes@))
            },
            Err(error) => {
                &&& error == Error::CorruptBufferView
                &&& !regions_hold(attributes@, buffers@, count as nat)
            },
        },
{
    if !check_regions(attributes, buffers, count) {
        return Err(Error::CorruptBufferView);
    }
    let ghost sources = sources_of(attributes@, buffers@);
    proof {
        lemma_sources_of(attributes@, buffers@, count as nat);
    }
    let mut data: Vec<u8> = Vec::new();
    let mut v: usize = 0;
    while v < count
        invariant
            v <= count,
            sources == sources_of(attributes@, buffers@),
            regions_hold(attributes@, buffers@, count as nat),
            sources_hold(sources, count as nat),
            data@ == packed(sources, v as nat),
        decreases count - v,
    {
        let mut a: usize = 0;
        while a < attributes.len()
            invariant
                v < count,
                a <= attributes.len(),
                sources == sources_of(attributes@, buffers@),
                regions_hold(attributes@, buffers@, count as nat),
                sources_hold(sources, count as nat),
                data@ == packed(sources, v as nat) + vertex_block(sources.take(a as int), v as int),
            decreases attributes.len() - a,
        {
            let source = attributes[a];
            let size = source.format.size() as usize;
            let buffer = &buffers[source.view.buffer];
            let available = buffer.len();
            proof {
                assert(view_in_bounds(attributes@[a as int].view, buffers@));
                assert(count * size <= source.view.length);
                assert(source.view.offset + source.view.length <= available);
                lemma_element_fits(v as int, count as nat, size as nat);
            }
            let base = source.view.offset + v * size;
            let ghost before = data@;
            let ghost item = element(sources[a as int], v as int);
            let mut k: usize = 0;
            while k < size
                invariant
                    k <= size,
                    base + size <= available,
                    available == buffer@.len(),
                    item.len() == size,
                    forall|j: int| 0 <= j < size ==> item[j] == buffer@[base + j],
                    data@ == before + item.take(k as int),
                decreases size - k,
            {
                data.push(buffer[base + k]);
                assert(data@ =~= before + item.take(k + 1));
                k += 1;
            }
            proof {
                assert(item.take(size as int) == item);
                let upto = sources.take(a + 1);
                assert(upto.drop_last() == sources.take(a as int));
                assert(upto.last() == sources[a as int]);
                assert(data@ =~= packed(sources, v as nat) + vertex_block(upto, v as int));
            }
            a += 1;
        }
        proof {
            assert(sources.take(a as int) == sources);
            assert(data@ =~= packed(sources, (v + 1) as nat));
        }
        v += 1;
    }
    proof {
        lemma_packed_len(sources, count as nat, count as nat);
        assert(count * vertex_size(described(attributes@)) == vertex_size(described(attributes@))
            * count) by (nonlinear_arith);
    }
    Ok(data)
}

} // verus!
