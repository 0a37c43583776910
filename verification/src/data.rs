//! The instance data: cities on a grid of non-negative integer coordinates.

use vstd::prelude::*;

verus! {

/// Coordinates may not exceed this bound, so that squared scaled distances
/// stay inside the range `isqrt` accepts.
pub const COORD_MAX: usize = 1_000_000;

/// The instance size is keyed by the 1-based `u8` group of each city, so an
/// instance never holds more cities than this.
pub const N_MAX: usize = 255;

/// A location on the grid.
#[derive(Clone, Copy, Debug, PartialEq, Eq, Structural)]
pub struct Point {
    pub x: usize,
    pub y: usize,
}

/// One city: its 1-based group key and its location.
#[derive(Clone, Copy, Debug, PartialEq, Eq, Structural)]
pub struct DataNode {
    pub group: u8,
    pub point: Point,
}

/// An instance: the ordered city list.
pub type Data = Vec<DataNode>;

/// Some record of `data` carries the group key `g`.
pub open spec fn has_group(data: Seq<DataNode>, g: int) -> bool {
    exists|i: int| 0 <= i < data.len() && (#[trigger] data[i]).group == g
}

/// A well-formed instance, as the loader collaborator promises to deliver
/// it: the `group` keys are unique and collectively form the index space
/// `1..=len`, in any order, and every coordinate is within `COORD_MAX`.
pub open spec fn data_wf(data: Seq<DataNode>) -> bool {
    &&& data.len() <= N_MAX
    &&& forall|i: int|
        0 <= i < data.len() ==> 1 <= (#[trigger] data[i]).group <= data.len()
    &&& forall|i: int, j: int|
        0 <= i < j < data.len() ==> (#[trigger] data[i]).group != (#[trigger] data[j]).group
    &&& forall|g: int| 1 <= g <= data.len() ==> #[trigger] has_group(data, g)
    &&& forall|i: int|
        0 <= i < data.len()
            ==> (#[trigger] data[i]).point.x <= COORD_MAX && data[i].point.y <= COORD_MAX
}

/// Instance data in the engine's internal arrangement: position `i` holds
/// the city whose group key is `i + 1`.
pub open spec fn data_in_group_order(data: Seq<DataNode>) -> bool {
    &&& data.len() <= N_MAX
    &&& forall|i: int|
        0 <= i < data.len() ==> (#[trigger] data[i]).group == i + 1
    &&& forall|i: int|
        0 <= i < data.len()
            ==> (#[trigger] data[i]).point.x <= COORD_MAX && data[i].point.y <= COORD_MAX
}

/// Rearranges an instance into group order: position `i` of the result is
/// the city with group `i + 1`, as the original's group-keyed distance
/// table expects.
pub fn arrange_by_group(data: &Vec<DataNode>) -> (r: Vec<DataNode>)
    requires
        data_wf(data@),
    ensures
        r@.len() == data@.len(),
        data_in_group_order(r@),
        forall|j: int|
            0 <= j < data@.len() ==> r@[(#[trigger] data@[j]).group - 1] == data@[j],
{
    let n = data.len();
    let mut arranged: Vec<DataNode> = Vec::new();
    if n == 0 {
        return arranged;
    }
    for k in 0..n
        invariant
            n == data@.len() >= 1,
            arranged@.len() == k,
    {
        arranged.push(data[0]);
    }
    for j in 0..n
        invariant
            data_wf(data@),
            n == data@.len(),
            arranged@.len() == n,
            forall|k: int|
                0 <= k < j ==> arranged@[(#[trigger] data@[k]).group - 1] == data@[k],
    {
        let g: usize = data[j].group as usize;
        *vstd::std_specs::vec::vec_index_mut(&mut arranged, g - 1) = data[j];
    }
    proof {
        assert forall|i: int| 0 <= i < n implies (#[trigger] arranged@[i]).group == i + 1 by {
            assert(has_group(data@, i + 1));
            let j = choose|j: int| 0 <= j < data@.len() && (#[trigger] data@[j]).group == i + 1;
            assert(arranged@[data@[j].group - 1] == data@[j]);
        }
        assert forall|i: int|
            0 <= i < n implies (#[trigger] arranged@[i]).point.x <= COORD_MAX
            && arranged@[i].point.y <= COORD_MAX by {
            assert(has_group(data@, i + 1));
            let j = choose|j: int| 0 <= j < data@.len() && (#[trigger] data@[j]).group == i + 1;
            assert(arranged@[data@[j].group - 1] == data@[j]);
        }
    }
    arranged
}

} // verus!
