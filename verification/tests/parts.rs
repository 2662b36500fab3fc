use ship_designer::ids::PartId;
use ship_designer::materials::Material;
use ship_designer::part::{Part, PartNetworkRepr, VoxelPos};
use ship_designer::predefined::add_hardcoded_parts;
use ship_designer::store::{free_parts, Parts};

fn cube(n: u8, material: Material) -> Part {
    Part::new(n, n, n, vec![material; (n as usize).pow(3)], None)
}

#[test]
fn added_parts_get_consecutive_ids() {
    let mut parts = Parts::new();
    let a = parts.add(cube(1, Material::Aluminum));
    let b = parts.add(cube(2, Material::Aluminum));
    assert_eq!(a.id(), PartId::from(0));
    assert_eq!(b.id(), PartId::from(1));
    assert_eq!(parts.next_part_id(), 2);
    assert_eq!(parts.get(&b).unwrap().width(), 2);
    assert_eq!(parts.ref_count(PartId::from(0)), 1);
}

#[test]
fn part_is_freed_when_its_handle_is_dropped() {
    let mut parts = Parts::new();
    let handle = parts.add(cube(1, Material::Aluminum));
    let id = handle.id();
    assert_eq!(free_parts(&mut parts).0, vec![]);
    drop(handle);
    assert_eq!(free_parts(&mut parts).0, vec![id]);
    assert!(parts.get_part_from_id(id).is_none());
    assert_eq!(parts.ref_count(id), 0);
}

#[test]
fn part_stays_while_a_handle_lives() {
    let mut parts = Parts::new();
    let first = parts.add(cube(1, Material::Aluminum));
    let id = first.id();
    let second = parts.get_handle(id);
    assert_eq!(parts.ref_count(id), 2);
    drop(first);
    assert_eq!(free_parts(&mut parts).0, vec![]);
    assert_eq!(parts.ref_count(id), 1);
    assert!(parts.get(&second).is_some());
    drop(second);
    assert_eq!(free_parts(&mut parts).0, vec![id]);
}

#[test]
fn static_part_is_never_freed_by_its_handles() {
    let mut parts = Parts::new();
    let handle = parts.add_static(cube(1, Material::Aluminum));
    let id = handle.id();
    drop(handle);
    assert_eq!(free_parts(&mut parts).0, vec![]);
    assert!(parts.get_part_from_id(id).is_some());
    assert_eq!(parts.ref_count(id), 1);
}

#[test]
fn counting_dropped_handles_directly() {
    let mut parts = Parts::new();
    let a = parts.add(cube(1, Material::Aluminum));
    let b = parts.add_static(cube(1, Material::Aluminum));
    let (a_id, b_id) = (a.id(), b.id());
    std::mem::forget(a);
    std::mem::forget(b);
    let freed = parts.free_dropped(&[b_id, a_id, PartId::from(9)]);
    assert_eq!(freed.0, vec![a_id, PartId::from(9)]);
    assert!(parts.get_part_from_id(a_id).is_none());
    assert!(parts.get_part_from_id(b_id).is_some());
    assert_eq!(parts.ref_count(b_id), 1);
}

#[test]
fn changing_a_shared_part_changes_a_copy() {
    let mut parts = Parts::new();
    let original = parts.add(cube(2, Material::Aluminum));
    let original_id = original.id();
    let mut handle = parts.get_handle(original_id);
    {
        let part = parts.get_mut(&mut handle).unwrap();
        part.set(VoxelPos::new(0, 0, 0), Material::Empty);
    }
    assert_eq!(handle.id(), PartId::from(1));
    assert_eq!(parts.ref_count(PartId::from(1)), 1);
    // the shared part is as it was
    let shared = parts.get(&original).unwrap();
    assert_eq!(shared.get(VoxelPos::new(0, 0, 0)), Material::Aluminum);
    // the copy holds the change and names the part it came from
    let copy = parts.get(&handle).unwrap();
    assert_eq!(copy.get(VoxelPos::new(0, 0, 0)), Material::Empty);
    assert_eq!(copy.parent_part_id(), Some(original_id));
}

#[test]
fn changing_a_copy_changes_it_in_place() {
    let mut parts = Parts::new();
    let original = parts.add(cube(1, Material::Aluminum));
    let mut handle = parts.get_handle(original.id());
    parts.get_mut(&mut handle).unwrap();
    let copy_id = handle.id();
    parts.get_mut(&mut handle).unwrap().set(VoxelPos::new(0, 0, 0), Material::Empty);
    assert_eq!(handle.id(), copy_id);
    assert_eq!(parts.next_part_id(), 2);
    assert!(parts.get(&handle).unwrap().is_empty());
}

#[test]
fn get_mut_of_a_missing_part_is_none() {
    let mut parts = Parts::new();
    let mut handle = parts.get_handle(PartId::from(5));
    assert!(parts.get_mut(&mut handle).is_none());
    assert_eq!(handle.id(), PartId::from(5));
}

#[test]
fn clone_from_id_records_the_parent() {
    let mut parts = Parts::new();
    let handle = parts.add(cube(1, Material::Aluminum));
    let child = parts.clone_part_from_part_id(handle.id());
    assert_eq!(child.parent_part_id(), Some(handle.id()));
    assert_eq!(child.voxels(), &[Material::Aluminum]);
}

#[test]
fn hardcoded_parts() {
    let mut parts = Parts::new();
    let handles = add_hardcoded_parts(&mut parts);
    assert_eq!(handles.len(), 2);
    let cube = parts.get(&handles[0]).unwrap();
    assert_eq!((cube.width(), cube.height(), cube.depth()), (10, 10, 10));
    assert_eq!(cube.voxels().len(), 1000);
    assert!(cube.voxels().iter().all(|m| *m == Material::Aluminum));
    let prism = parts.get(&handles[1]).unwrap();
    assert_eq!((prism.width(), prism.height(), prism.depth()), (2, 1, 3));
    assert_eq!(prism.voxels().len(), 6);
    assert_eq!(parts.ref_count(handles[1].id()), 2);
}

#[test]
fn network_repr_gives_handles() {
    let mut parts = Parts::new();
    let predefined = parts.add_static(cube(1, Material::Aluminum));
    let a = parts.handle_from_network_repr(&PartNetworkRepr::Predefined(predefined.id()));
    assert_eq!(a.id(), predefined.id());
    assert_eq!(parts.ref_count(predefined.id()), 3);
    let b = parts.handle_from_network_repr(&PartNetworkRepr::Child(cube(2, Material::Empty)));
    assert_eq!(b.id(), PartId::from(1));
    assert_eq!(parts.get(&b).unwrap().width(), 2);
    assert_eq!(parts.ref_count(b.id()), 1);
}

#[test]
fn part_voxel_layout() {
    let mut part = Part::new(2, 3, 4, vec![Material::Empty; 24], None);
    assert_eq!(part.voxel_to_index(1, 2, 3), 2 * 3 * 3 + 2 * 2 + 1);
    assert_eq!(part.size(), 24);
    assert!(part.voxel_is_in_part(VoxelPos::new(1, 2, 3)));
    assert!(!part.voxel_is_in_part(VoxelPos::new(2, 0, 0)));
    assert!(part.is_empty());
    part.set(VoxelPos::new(1, 0, 1), Material::Aluminum);
    assert_eq!(part.get_index(7), Material::Aluminum);
    assert_eq!(part.get(VoxelPos::new(1, 0, 1)), Material::Aluminum);
    assert_eq!(part.get(VoxelPos::new(0, 0, 1)), Material::Empty);
    assert!(!part.is_empty());
    part.set_voxels(&[Material::Aluminum; 3]);
    assert_eq!(part.voxels().len(), 3);
    let child = part.clone_as_child_of(PartId::from(8));
    assert_eq!(child.parent_part_id(), Some(PartId::from(8)));
    assert_eq!(part.parent_part_id(), None);
}

#[test]
fn dropping_an_added_and_a_static_part_frees_only_the_added() {
    let mut parts = Parts::new();
    let h = parts.add(cube(1, Material::Aluminum));
    let s = parts.add_static(cube(1, Material::Aluminum));
    let (h_id, s_id) = (h.id(), s.id());
    drop(h);
    drop(s);
    assert_eq!(free_parts(&mut parts).0, vec![h_id]);
    assert!(parts.get_part_from_id(h_id).is_none());
    assert!(parts.get_part_from_id(s_id).is_some());
    assert_eq!(parts.ref_count(s_id), 1);
}
