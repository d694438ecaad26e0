use boids::mesh::{push_fan, MAX_AGENT, TRIANGLE_COUNT, VERTEX_COUNT};

#[test]
fn fan_of_the_first_agent() {
    let mut indices = Vec::new();
    push_fan(&mut indices, 0);
    assert_eq!(indices, vec![0, 1, 2, 0, 2, 3, 0, 3, 4, 0, 4, 5, 0, 5, 6, 0, 6, 7]);
}

#[test]
fn fan_of_a_later_agent_starts_at_its_own_corners() {
    let mut indices = Vec::new();
    push_fan(&mut indices, 2);
    assert_eq!(
        indices,
        vec![16, 17, 18, 16, 18, 19, 16, 19, 20, 16, 20, 21, 16, 21, 22, 16, 22, 23]
    );
}

#[test]
fn fans_are_appended() {
    let mut indices = vec![9, 9, 9];
    push_fan(&mut indices, 0);
    push_fan(&mut indices, 1);
    assert_eq!(indices.len(), 3 + 2 * 18);
    assert_eq!(&indices[..3], &[9, 9, 9]);
    assert_eq!(&indices[3..6], &[0, 1, 2]);
    assert_eq!(&indices[21..24], &[8, 9, 10]);
    assert_eq!(&indices[36..], &[8, 14, 15]);
}

#[test]
fn fan_of_the_last_agent_that_can_be_numbered() {
    let mut indices = Vec::new();
    push_fan(&mut indices, MAX_AGENT);
    assert_eq!(indices.len(), 18);
    assert_eq!(indices[0], u32::MAX - 7);
    assert_eq!(indices[17], u32::MAX);
}

#[test]
fn polygon_has_eight_corners_and_six_triangles() {
    assert_eq!(VERTEX_COUNT, 8);
    assert_eq!(TRIANGLE_COUNT, VERTEX_COUNT - 2);
    assert_eq!(MAX_AGENT, u32::MAX / 8);
}
