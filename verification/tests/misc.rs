use wilds::assets::{append_key, GltfFormat, TerrainFormat};
use wilds::engine::{app_event_wait, yield_now, AppPoll, AppWait, YieldPoll};
use wilds::physics::BodyType;
use wilds::skeleton::{Bone, Skeleton};

#[test]
fn yield_now_is_pending_once() {
    let mut f = yield_now();
    assert_eq!(f.poll(), YieldPoll::PendingWake);
    assert_eq!(f.poll(), YieldPoll::Ready);
    assert_eq!(f.poll(), YieldPoll::Ready);
}

#[test]
fn body_type_collision_groups() {
    let g = BodyType::Dynamic.collision_groups();
    assert_eq!(g.membership, vec![2]);
    assert_eq!(g.whitelist, vec![0, 1, 2]);
    let g = BodyType::Static.collision_groups();
    assert_eq!(g.membership, vec![0]);
    assert_eq!(g.whitelist, vec![2]);
    let g = BodyType::Kinematic.collision_groups();
    assert_eq!(g.membership, vec![1]);
    assert_eq!(g.whitelist, vec![2]);
}

#[test]
fn terrain_buffer_usage() {
    let u = TerrainFormat { raster: true, blas: false }.buffer_usage();
    assert!(u.vertex && u.index && !u.storage && !u.device_address && !u.acceleration_structure_build_input);
    let u = TerrainFormat { raster: false, blas: true }.buffer_usage();
    assert!(!u.vertex && !u.index && u.storage && u.device_address && u.acceleration_structure_build_input);
}

#[test]
fn gltf_formats() {
    let f = GltfFormat::for_raster();
    assert!(f.mesh_indices_usage.index && !f.mesh_indices_usage.vertex);
    assert!(f.mesh_vertices_usage.vertex && !f.mesh_vertices_usage.index);
    let f = GltfFormat::for_raytracing();
    assert!(f.mesh_indices_usage.storage && f.mesh_indices_usage.device_address);
    assert_eq!(f.mesh_indices_usage, f.mesh_vertices_usage);
}

#[test]
fn append_key_keeps_urls_and_joins_paths() {
    assert_eq!(append_key("models/scene.gltf", "https://example.com/a.bin"), "https://example.com/a.bin");
    let joined = append_key("models/scene.gltf", "buffer.bin");
    assert_eq!(joined, std::path::Path::new("models").join("buffer.bin").to_str().unwrap());
    assert_eq!(append_key("", "buffer.bin"), "buffer.bin");
}

#[test]
fn skeleton_bones() {
    let s = Skeleton::new(vec![Bone::new(None), Bone::new(Some(0))]);
    assert_eq!(s.bones().len(), 2);
    assert_eq!(s.bones()[1].parent(), Some(0));
    assert_eq!(s.bones()[0].parent(), None);
}

#[test]
fn app_event_wait_decisions() {
    assert_eq!(app_event_wait(AppPoll::Ready(7u32), true), AppWait::Finished(7));
    assert_eq!(app_event_wait(AppPoll::Ready(7u32), false), AppWait::Finished(7));
    assert_eq!(app_event_wait(AppPoll::<u32>::Pending, true), AppWait::WaitsForEvent);
    assert_eq!(app_event_wait(AppPoll::<u32>::Pending, false), AppWait::Pending);
}

#[test]
fn skeleton_try_new_checks_the_tree() {
    assert!(Skeleton::try_new(vec![Bone::new(None), Bone::new(Some(0)), Bone::new(Some(1))]).is_some());
    assert!(Skeleton::try_new(vec![Bone::new(Some(1)), Bone::new(None)]).is_some());
    assert!(Skeleton::try_new(vec![Bone::new(Some(0))]).is_none());
    assert!(Skeleton::try_new(vec![Bone::new(Some(1)), Bone::new(Some(0))]).is_none());
    assert!(Skeleton::try_new(vec![Bone::new(None), Bone::new(Some(5))]).is_none());
    assert!(Skeleton::try_new(Vec::new()).is_some());
}
