//! The layout of interleaved vertex data: where each attribute of a vertex
//! starts, and how far it is from one vertex to the next.

use vstd::prelude::*;

verus! {

/// The type of the components of an attribute.
#[derive(Clone, Copy, Debug, PartialEq, Eq, Structural)]
pub enum DataType {
    Float,
    UnsignedInt,
    UnsignedByte,
}

/// One attribute of a vertex: its index in the shader, the number of its
/// components, and in bytes the distance between vertices and its place in a
/// vertex.
#[derive(Clone, Copy, Debug, PartialEq, Eq, Structural)]
pub struct VertexAttribute {
    pub index: u32,
    pub components: i32,
    pub stride: i32,
    pub offset: usize,
}

/// The bytes of one component.
pub open spec fn component_size(data_type: DataType) -> int {
    match data_type {
        DataType::Float => 4,
        DataType::UnsignedInt => 4,
        DataType::UnsignedByte => 1,
    }
}

/// The components of the attributes together.
pub open spec fn total_components(layout: Seq<u32>) -> int
    decreases layout.len(),
{
    if layout.len() == 0 {
        0
    } else {
        total_components(layout.drop_last()) + layout.last()
    }
}

/// The bytes of a vertex.
pub open spec fn stride_of(layout: Seq<u32>, data_type: DataType) -> int {
    total_components(layout) * component_size(data_type)
}

/// The attributes of the layout: attribute `i` has `layout[i]` components and
/// starts where the attributes before it end.
pub open spec fn attributes_of(layout: Seq<u32>, data_type: DataType) -> Seq<VertexAttribute> {
    Seq::new(
        layout.len(),
        |i: int|
            VertexAttribute {
                index: i as u32,
                components: layout[i] as i32,
                stride: stride_of(layout, data_type) as i32,
                offset: stride_of(layout.take(i), data_type) as usize,
            },
    )
}

/// Whether the layout can be handed to the graphics interface: the stride fits
/// its signed 32 bits, and so does the number of attributes.
pub open spec fn layout_fits(layout: Seq<u32>, data_type: DataType) -> bool {
    stride_of(layout, data_type) <= i32::MAX && layout.len() <= u32::MAX
}

proof fn lemma_total_grows(layout: Seq<u32>, i: int)
    requires
        0 <= i <= layout.len(),
    ensures
        0 <= total_components(layout.take(i)) <= total_components(layout),
    decreases layout.len() - i,
{
    if i == layout.len() {
        assert(layout.take(i) =~= layout);
        lemma_total_nonnegative(layout);
    } else {
        lemma_total_grows(layout, i + 1);
        assert(layout.take(i + 1).drop_last() =~= layout.take(i));
        lemma_total_nonnegative(layout.take(i));
    }
}

proof fn lemma_total_nonnegative(layout: Seq<u32>)
    ensures
        0 <= total_components(layout),
    decreases layout.len(),
{
    if layout.len() > 0 {
        lemma_total_nonnegative(layout.drop_last());
    }
}

impl DataType {
    /// The bytes of one component.
    pub fn size(&self) -> (size: usize)
        ensures
            size == component_size(*self),
    {
        match self {
            DataType::Float => 4,
            DataType::UnsignedInt => 4,
            DataType::UnsignedByte => 1,
        }
    }
}

/// The attributes of a vertex whose attribute `i` has `layout[i]` components of
/// `data_type`, if the layout fits.
pub fn attribute_layout(layout: &[u32], data_type: DataType) -> (attributes: Option<Vec<VertexAttribute>>)
    ensures
        match attributes {
            Some(list) => layout_fits(layout@, data_type) && list@ == attributes_of(layout@, data_type),
            None => !layout_fits(layout@, data_type),
        },
{
    let size: u64 = data_type.size() as u64;
    if layout.len() > u32::MAX as usize {
        return None;
    }
    let mut total: u64 = 0;
    let mut i: usize = 0;
    while i < layout.len()
        invariant
            i <= layout.len(),
            1 <= size <= 4,
            size == component_size(data_type),
            total == total_components(layout@.take(i as int)),
            total * size <= i32::MAX,
        decreases layout.len() - i,
    {
        proof {
            assert(layout@.take(i as int + 1).drop_last() =~= layout@.take(i as int));
            lemma_total_grows(layout@, i as int + 1);
        }
        total = total + layout[i] as u64;
        if total * size > i32::MAX as u64 {
            proof {
                assert(total_components(layout@) * component_size(data_type) >= total * size)
                    by (nonlinear_arith)
                    requires
                        total_components(layout@) >= total,
                        component_size(data_type) == size,
                        size >= 1,
                ;
            }
            return None;
        }
        i = i + 1;
    }
    assert(layout@.take(i as int) =~= layout@);
    let stride: i32 = (total * size) as i32;
    let mut attributes: Vec<VertexAttribute> = Vec::new();
    let mut offset: u64 = 0;
    let mut k: usize = 0;
    while k < layout.len()
        invariant
            k <= layout.len(),
            layout.len() <= u32::MAX,
            1 <= size <= 4,
            size == component_size(data_type),
            stride == stride_of(layout@, data_type),
            stride_of(layout@, data_type) <= i32::MAX,
            offset == stride_of(layout@.take(k as int), data_type),
            attributes@.len() == k,
            forall|j: int| 0 <= j < k ==> attributes@[j] == attributes_of(layout@, data_type)[j],
        decreases layout.len() - k,
    {
        proof {
            assert(layout@.take(k as int + 1).drop_last() =~= layout@.take(k as int));
            lemma_total_grows(layout@, k as int + 1);
            lemma_total_grows(layout@, k as int);
            assert(total_components(layout@.take(k as int + 1)) * size <= total_components(layout@)
                * size) by (nonlinear_arith)
                requires
                    total_components(layout@.take(k as int + 1)) <= total_components(layout@),
                    size >= 1,
            ;
            assert(total_components(layout@.take(k as int + 1)) * size == total_components(
                layout@.take(k as int),
            ) * size + layout@[k as int] * size) by (nonlinear_arith)
                requires
                    total_components(layout@.take(k as int + 1)) == total_components(
                        layout@.take(k as int),
                    ) + layout@[k as int],
            ;
            assert(layout@[k as int] * size >= layout@[k as int]) by (nonlinear_arith)
                requires
                    size >= 1,
            ;
            assert(0 <= total_components(layout@.take(k as int)) * size) by (nonlinear_arith)
                requires
                    0 <= total_components(layout@.take(k as int)),
                    size >= 1,
            ;
        }
        attributes.push(
            VertexAttribute {
                index: k as u32,
                components: layout[k] as i32,
                stride,
                offset: offset as usize,
            },
        );
        offset = offset + layout[k] as u64 * size;
        k = k + 1;
    }
    assert(attributes@ =~= attributes_of(layout@, data_type));
    Some(attributes)
}

} // verus!
