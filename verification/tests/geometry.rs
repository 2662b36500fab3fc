use ship_designer::building::{build_action, BuildAction};
use ship_designer::colliders::{collider_boxes, VoxelBox};
use ship_designer::controls::{movement_direction, Direction, MovementKeys};
use ship_designer::materials::Material;
use ship_designer::mesh::{add_box_triangles, box_triangles, mesh_voxels};
use ship_designer::part::{Part, VoxelPos};

fn solid_voxels(part: &Part) -> usize {
    part.voxels().iter().filter(|m| **m != Material::Empty).count()
}

fn volume(b: &VoxelBox) -> usize {
    (b.max.x - b.min.x + 1) as usize * (b.max.y - b.min.y + 1) as usize * (b.max.z - b.min.z + 1) as usize
}

#[test]
fn full_cube_is_one_box() {
    let part = Part::new(3, 2, 4, vec![Material::Aluminum; 24], None);
    let boxes = collider_boxes(&part);
    assert_eq!(
        boxes,
        vec![VoxelBox { min: VoxelPos::new(0, 0, 0), max: VoxelPos::new(2, 1, 3), material: Material::Aluminum }]
    );
}

#[test]
fn empty_part_has_no_boxes() {
    let part = Part::new(2, 2, 2, vec![Material::Empty; 8], None);
    assert!(collider_boxes(&part).is_empty());
    assert!(mesh_voxels(&part).is_empty());
}

#[test]
fn boxes_cover_each_solid_voxel_once() {
    // an L shape in one layer: row y = 0 full, row y = 1 only at x = 0
    let mut part = Part::new(3, 2, 1, vec![Material::Aluminum; 6], None);
    part.set(VoxelPos::new(1, 1, 0), Material::Empty);
    part.set(VoxelPos::new(2, 1, 0), Material::Empty);
    let boxes = collider_boxes(&part);
    assert_eq!(
        boxes,
        vec![
            VoxelBox { min: VoxelPos::new(0, 0, 0), max: VoxelPos::new(2, 0, 0), material: Material::Aluminum },
            VoxelBox { min: VoxelPos::new(0, 1, 0), max: VoxelPos::new(0, 1, 0), material: Material::Aluminum },
        ]
    );
    assert_eq!(boxes.iter().map(volume).sum::<usize>(), solid_voxels(&part));
}

#[test]
fn mesh_voxels_go_along_x_then_y_then_z() {
    let mut part = Part::new(2, 2, 2, vec![Material::Empty; 8], None);
    part.set(VoxelPos::new(1, 0, 0), Material::Aluminum);
    part.set(VoxelPos::new(0, 1, 1), Material::Aluminum);
    part.set(VoxelPos::new(0, 0, 1), Material::Aluminum);
    assert_eq!(
        mesh_voxels(&part),
        vec![VoxelPos::new(0, 0, 1), VoxelPos::new(0, 1, 1), VoxelPos::new(1, 0, 0)]
    );
}

#[test]
fn one_box_of_triangles() {
    let mut triangles = vec![99];
    let mut offset = 24;
    add_box_triangles(&mut triangles, &mut offset);
    assert_eq!(offset, 48);
    assert_eq!(triangles.len(), 37);
    assert_eq!(&triangles[1..7], &[24, 25, 26, 26, 27, 24]);
    assert_eq!(&triangles[31..37], &[44, 45, 46, 46, 47, 44]);
}

#[test]
fn triangles_of_several_boxes() {
    let triangles = box_triangles(3);
    assert_eq!(triangles.len(), 108);
    assert_eq!(&triangles[72..78], &[48, 49, 50, 50, 51, 48]);
    assert_eq!(*triangles.iter().max().unwrap(), 71);
    assert!(box_triangles(0).is_empty());
}

#[test]
fn click_actions() {
    assert_eq!(build_action(false, true, true), BuildAction::Nothing);
    assert_eq!(build_action(true, true, true), BuildAction::DeletePart);
    assert_eq!(build_action(true, false, true), BuildAction::DeleteVoxel);
    assert_eq!(build_action(true, false, false), BuildAction::PlacePart);
}

#[test]
fn movement_keys_give_directions() {
    let none = MovementKeys { forward: false, back: false, left: false, right: false, up: false, down: false };
    assert_eq!(movement_direction(none), Direction { x: 0, y: 0, z: 0 });
    let forward_right = MovementKeys { forward: true, right: true, ..none };
    assert_eq!(movement_direction(forward_right), Direction { x: 1, y: 0, z: -1 });
    let all = MovementKeys { forward: true, back: true, left: true, right: true, up: true, down: true };
    assert_eq!(movement_direction(all), Direction { x: 0, y: 0, z: 0 });
    let down = MovementKeys { down: true, ..none };
    assert_eq!(movement_direction(down), Direction { x: 0, y: -1, z: 0 });
}

#[test]
fn next_camera_is_the_first_other_one() {
    assert_eq!(ship_designer::controls::next_active_camera(&[7], 7), None);
    assert_eq!(ship_designer::controls::next_active_camera(&[], 7), None);
    assert_eq!(ship_designer::controls::next_active_camera(&[7, 8, 9], 7), Some(8));
    assert_eq!(ship_designer::controls::next_active_camera(&[7, 8, 9], 8), Some(7));
    assert_eq!(ship_designer::controls::next_active_camera(&[7, 8, 9], 9), Some(7));
    assert_eq!(ship_designer::controls::next_active_camera(&[7, 7], 7), Some(7));
}
