//! Read-only render snapshots of a run.
//!
//! On demand, the current tour and city set are turned into a list of
//! drawable primitives: one line segment per tour edge and one point marker
//! per city. The snapshot carries plain coordinates; colors and pixels are
//! the renderer's business.

use vstd::prelude::*;

use crate::cooling_methods::CoolingMethod;
use crate::TSA;

verus! {

/// The kind of a drawable primitive.
#[derive(Clone, Copy, Debug, PartialEq, Eq, Structural)]
pub enum ObjectType {
    CIRCLE,
    LINE,
}

/// One drawable primitive: its kind and its endpoint coordinates
/// (two points for a line, one for a circle).
pub struct SceneObject {
    pub object_type: ObjectType,
    pub pos: Vec<(usize, usize)>,
}

/// The coordinates of city `i` of a run.
pub open spec fn city_point<T: CoolingMethod>(tsa: TSA<T>, i: int) -> (usize, usize) {
    (tsa.data@[i].point.x, tsa.data@[i].point.y)
}

/// The snapshot of the current tour: for a run over `n` cities, first `n`
/// line segments (edge `e` joins the cities at tour positions `e` and
/// `e+1`, wrapping), then `n` circle markers, one per city in instance
/// order.
pub fn handle_update<T: CoolingMethod>(tsa: &TSA<T>) -> (r: Vec<SceneObject>)
    requires
        tsa.wf(),
    ensures
        r@.len() == 2 * tsa.solution@.len(),
        forall|e: int|
            0 <= e < tsa.solution@.len() ==> {
                &&& (#[trigger] r@[e]).object_type == ObjectType::LINE
                &&& r@[e].pos@.len() == 2
                &&& r@[e].pos@[0] == city_point(*tsa, tsa.solution@[e] as int)
                &&& r@[e].pos@[1] == city_point(
                    *tsa,
                    tsa.solution@[(e + 1) % (tsa.solution@.len() as int)] as int,
                )
            },
        forall|i: int|
            0 <= i < tsa.solution@.len() ==> {
                &&& (#[trigger] r@[tsa.solution@.len() + i]).object_type == ObjectType::CIRCLE
                &&& r@[tsa.solution@.len() + i].pos@.len() == 1
                &&& r@[tsa.solution@.len() + i].pos@[0] == city_point(*tsa, i)
            },
{
    let n = tsa.solution.len();
    let mut objects: Vec<SceneObject> = Vec::new();
    for e in 0..n
        invariant
            tsa.wf(),
            n == tsa.solution@.len(),
            objects@.len() == e,
            forall|l: int|
                0 <= l < e ==> {
                    &&& (#[trigger] objects@[l]).object_type == ObjectType::LINE
                    &&& objects@[l].pos@.len() == 2
                    &&& objects@[l].pos@[0] == city_point(*tsa, tsa.solution@[l] as int)
                    &&& objects@[l].pos@[1] == city_point(
                        *tsa,
                        tsa.solution@[(l + 1) % (n as int)] as int,
                    )
                },
    {
        let origem_index = tsa.solution[e];
        let destiny_index = tsa.solution[(e + 1) % n];
        let origem = &tsa.data[origem_index];
        let destiny = &tsa.data[destiny_index];
        let mut pos: Vec<(usize, usize)> = Vec::new();
        pos.push((origem.point.x, origem.point.y));
        pos.push((destiny.point.x, destiny.point.y));
        objects.push(SceneObject { object_type: ObjectType::LINE, pos });
    }
    for i in 0..n
        invariant
            tsa.wf(),
            n == tsa.solution@.len(),
            objects@.len() == n + i,
            forall|l: int|
                0 <= l < n ==> {
                    &&& (#[trigger] objects@[l]).object_type == ObjectType::LINE
                    &&& objects@[l].pos@.len() == 2
                    &&& objects@[l].pos@[0] == city_point(*tsa, tsa.solution@[l] as int)
                    &&& objects@[l].pos@[1] == city_point(
                        *tsa,
                        tsa.solution@[(l + 1) % (n as int)] as int,
                    )
                },
            forall|l: int|
                0 <= l < i ==> {
                    &&& (#[trigger] objects@[n + l]).object_type == ObjectType::CIRCLE
                    &&& objects@[n + l].pos@.len() == 1
                    &&& objects@[n + l].pos@[0] == city_point(*tsa, l)
                },
    {
        let item = &tsa.data[i];
        let mut pos: Vec<(usize, usize)> = Vec::new();
        pos.push((item.point.x, item.point.y));
        objects.push(SceneObject { object_type: ObjectType::CIRCLE, pos });
    }
    objects
}

} // verus!
