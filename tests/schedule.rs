use bounce::schedule::{derivative_schedule, state_cells, Cell, Dim, Step, Wall};

fn item_steps(i: usize) -> Vec<Step> {
    vec![
        Step::Kinematics(i),
        Step::Gravity(i),
        Step::AirResistance(i),
        Step::WallContact(i, Wall::Left),
        Step::WallContact(i, Wall::Right),
        Step::WallContact(i, Wall::Bottom),
        Step::WallContact(i, Wall::Top),
    ]
}

#[test]
fn empty_pass_has_no_steps() {
    assert!(derivative_schedule(0, None).is_empty());
}

#[test]
fn three_items_with_drag() {
    let mut expected = Vec::new();
    for i in 0..3 {
        expected.extend(item_steps(i));
    }
    expected.push(Step::Collide(0, 1));
    expected.push(Step::Collide(0, 2));
    expected.push(Step::Collide(1, 2));
    expected.push(Step::Attract(1));
    assert_eq!(derivative_schedule(3, Some(1)), expected);
}

#[test]
fn single_item_without_drag() {
    assert_eq!(derivative_schedule(1, None), item_steps(0));
}

#[test]
fn every_pair_exactly_once() {
    let n = 6;
    let steps = derivative_schedule(n, None);
    for i in 0..n {
        for j in 0..n {
            let count = steps.iter().filter(|s| **s == Step::Collide(i, j)).count();
            assert_eq!(count, if i < j { 1 } else { 0 });
        }
    }
    assert_eq!(steps.len(), 7 * n + n * (n - 1) / 2);
}

#[test]
fn wall_normals_point_into_the_box() {
    assert_eq!(Wall::Left.inward_normal(), (1, 0));
    assert_eq!(Wall::Right.inward_normal(), (-1, 0));
    assert_eq!(Wall::Bottom.inward_normal(), (0, 1));
    assert_eq!(Wall::Top.inward_normal(), (0, -1));
}

#[test]
fn state_cells_in_item_order() {
    assert!(state_cells(0).is_empty());
    assert_eq!(
        state_cells(2),
        vec![
            (0, Cell::Position),
            (0, Cell::Velocity),
            (0, Cell::Rotation),
            (0, Cell::AngularSpeed),
            (1, Cell::Position),
            (1, Cell::Velocity),
            (1, Cell::Rotation),
            (1, Cell::AngularSpeed),
        ]
    );
}

#[test]
fn walls_stand_across_their_axis() {
    assert_eq!(Wall::Left.dim(), Dim::X);
    assert_eq!(Wall::Right.dim(), Dim::X);
    assert_eq!(Wall::Bottom.dim(), Dim::Y);
    assert_eq!(Wall::Top.dim(), Dim::Y);
}
