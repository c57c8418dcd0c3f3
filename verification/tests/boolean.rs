use cadrum::boolean::{is_tool_face, tool_face_positions};

#[test]
fn tool_face_membership() {
    let tool = [7u64, 9, 11];
    assert!(is_tool_face(&tool, 9));
    assert!(!is_tool_face(&tool, 8));
    assert!(!is_tool_face(&[], 8));
}

#[test]
fn tool_faces_after_the_outer_faces() {
    // result faces: 6 outer walls of A, then the 6 inner walls from B
    let faces: [u64; 12] = [1, 2, 3, 4, 5, 6, 71, 72, 73, 74, 75, 76];
    let tool: [u64; 6] = [76, 75, 74, 73, 72, 71];
    let picked = tool_face_positions(&faces, &tool);
    assert_eq!(picked, vec![6, 7, 8, 9, 10, 11]);
    assert_eq!(picked.len(), 6);
}

#[test]
fn every_face_a_tool_face() {
    // the result is the tool itself: every face is a tool face
    let faces: [u64; 6] = [71, 72, 73, 74, 75, 76];
    let tool: [u64; 6] = [76, 75, 74, 73, 72, 71];
    let picked = tool_face_positions(&faces, &tool);
    assert_eq!(picked, vec![0, 1, 2, 3, 4, 5]);
}

#[test]
fn tool_faces_interleaved() {
    let faces: [u64; 5] = [1, 50, 2, 60, 3];
    let tool: [u64; 3] = [60, 50, 99];
    assert_eq!(tool_face_positions(&faces, &tool), vec![1, 3]);
}

#[test]
fn no_tool_faces_selects_nothing() {
    assert!(tool_face_positions(&[1, 2, 3], &[4, 5]).is_empty());
}
