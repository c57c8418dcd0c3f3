use vstd::prelude::*;
use crate::colormap::TShapeId;

verus! {

/// Face `face_id` is a tool face of a boolean operation whose tool-side
/// face identities are `tool_ids`: it came from (or is) a face of the tool.
pub fn is_tool_face(tool_ids: &[TShapeId], face_id: TShapeId) -> (res: bool)
    ensures
        res == tool_ids@.contains(face_id),
{
    let n = tool_ids.len();
    for i in 0..n
        invariant
            n == tool_ids@.len(),
            forall|j: int| 0 <= j < i ==> tool_ids@[j] != face_id,
    {
        if tool_ids[i] == face_id {
            return true;
        }
    }
    false
}

/// The positions, in enumeration order, of the faces of a boolean result
/// that are tool faces. `face_ids` enumerates the faces of the result.
pub fn tool_face_positions(face_ids: &[TShapeId], tool_ids: &[TShapeId]) -> (res: Vec<usize>)
    ensures
        forall|i: int| 0 <= i < res@.len() ==> #[trigger] res@[i] < face_ids@.len(),
        forall|i: int| 0 <= i < res@.len() ==> tool_ids@.contains(face_ids@[#[trigger] res@[i] as int]),
        forall|i: int, j: int| 0 <= i < j < res@.len() ==> #[trigger] res@[i] < #[trigger] res@[j],
        forall|p: int| 0 <= p < face_ids@.len() && tool_ids@.contains(#[trigger] face_ids@[p])
            ==> res@.contains(p as usize),
{
    let mut res: Vec<usize> = Vec::new();
    let n = face_ids.len();
    for p in 0..n
        invariant
            n == face_ids@.len(),
            forall|i: int| 0 <= i < res@.len() ==> #[trigger] res@[i] < p,
            forall|i: int| 0 <= i < res@.len() ==> tool_ids@.contains(face_ids@[#[trigger] res@[i] as int]),
            forall|i: int, j: int| 0 <= i < j < res@.len() ==> #[trigger] res@[i] < #[trigger] res@[j],
            forall|q: int| 0 <= q < p && tool_ids@.contains(#[trigger] face_ids@[q])
                ==> res@.contains(q as usize),
    {
        if is_tool_face(tool_ids, face_ids[p]) {
            let ghost prev = res@;
            res.push(p);
            proof {
                assert forall|q: int| 0 <= q < p + 1 && tool_ids@.contains(#[trigger] face_ids@[q])
                    implies res@.contains(q as usize) by {
                    if q == p {
                        assert(res@[res@.len() - 1] == p);
                    } else {
                        let i = choose|i: int| 0 <= i < prev.len() && prev[i] == q as usize;
                        assert(res@[i] == q as usize);
                    }
                }
            }
        }
    }
    res
}

} // verus!
