use animation_graph_editor::actions::PushQueue;
use animation_graph_editor::key_map::KeyMap;
use animation_graph_editor::ragdoll::{
    ends_with, make_mirror_side_label, make_original_side_label, recompute_ragdoll_symmetry,
    strip_suffix_or_keep, toggled_limit, unused_id, Body, BodyMapping, BodyWeight, BoneMapping, BoneWeight, Collider,
    Joint, Ragdoll, RagdollBoneMap, RecomputeMappingOffsets, SymmetryAssets, SymmetrySuffixes,
};
use animation_graph_editor::saving::{AssetType, DirtyAssets, UntypedAssetId};

fn s(x: &str) -> String {
    x.to_string()
}

fn suffixes() -> SymmetrySuffixes {
    SymmetrySuffixes { original: s("_L"), mirror: s("_R") }
}

fn body(id: u128, label: &str, sym: bool, from: Option<u128>, colliders: Vec<u128>, x: f32) -> Body<f32> {
    Body { id, label: s(label), use_symmetry: sym, created_from: from, colliders, props: x }
}

fn sample() -> (Ragdoll<f32, i32, f32>, RagdollBoneMap<u8, f32>) {
    let mut bodies = KeyMap::new();
    bodies.insert(1, body(1, "arm", true, None, vec![10], 2.0));
    bodies.insert(2, body(2, "torso", false, None, vec![], 0.0));
    // a mirror image whose original no longer exists
    bodies.insert(3, body(3, "ghost_R", false, Some(99), vec![30], -1.0));
    let mut colliders = KeyMap::new();
    colliders.insert(10, Collider { id: 10, label: s("capsule"), created_from: None, props: 7 });
    colliders.insert(30, Collider { id: 30, label: s("old"), created_from: Some(98), props: 1 });
    let mut joints = KeyMap::new();
    joints.insert(
        20,
        Joint { id: 20, label: s("shoulder_L"), use_symmetry: true, created_from: None, body1: 2, body2: 1, props: 0.5 },
    );
    let ragdoll = Ragdoll { bodies, colliders, joints, suffixes: suffixes() };

    let mut bodies_from_bones = KeyMap::new();
    bodies_from_bones.insert(
        1,
        BodyMapping { body_id: 1, bone: BoneWeight { bone: s("root/arm.L"), rest: 4u8 }, created_from: None },
    );
    let mut bones_from_bodies = KeyMap::new();
    bones_from_bodies.insert(
        s("root/arm.L"),
        BoneMapping { bone_id: s("root/arm.L"), bodies: vec![BodyWeight { body: 1, rest: 0.25 }], created_from: None },
    );
    (ragdoll, RagdollBoneMap { bodies_from_bones, bones_from_bodies })
}

fn flip(p: &String) -> String {
    p.replace(".L", ".R")
}

fn ragdoll_id() -> UntypedAssetId {
    UntypedAssetId { asset_type: AssetType::Ragdoll, index: 5 }
}

fn bone_map_id() -> UntypedAssetId {
    UntypedAssetId { asset_type: AssetType::RagdollBoneMap, index: 6 }
}

/// Runs the rule on `r` and `m`, with handles 50 and 60 for the two assets.
fn run<F: Fn(&f32) -> f32, G: Fn(&f32) -> f32, V: Fn(&f32) -> f32>(
    r: &mut Ragdoll<f32, i32, f32>,
    m: &mut RagdollBoneMap<u8, f32>,
    fb: F,
    fj: G,
    w: V,
) -> (DirtyAssets<u32>, PushQueue<RecomputeMappingOffsets<u32>>) {
    let mut dirty = DirtyAssets::new();
    let mut queue = PushQueue(Vec::new());
    let assets = SymmetryAssets { ragdoll_id: ragdoll_id(), ragdoll: 50u32, bone_map_id: bone_map_id(), bone_map: 60u32 };
    recompute_ragdoll_symmetry(r, m, assets, &mut dirty, &mut queue, &fb, &fj, &flip, &w);
    (dirty, queue)
}

#[test]
fn suffix_helpers() {
    assert!(ends_with(&s("arm_L"), &s("_L")));
    assert!(!ends_with(&s("arm"), &s("_L")));
    assert!(!ends_with(&s("L"), &s("_L")));
    assert_eq!(strip_suffix_or_keep(&s("arm_L"), &s("_L")), "arm");
    assert_eq!(strip_suffix_or_keep(&s("arm"), &s("_L")), "arm");
    assert_eq!(make_original_side_label(&s("arm"), &suffixes()), "arm_L");
    assert_eq!(make_original_side_label(&s("arm_L"), &suffixes()), "arm_L");
    assert_eq!(make_mirror_side_label(&s("arm_L"), &suffixes()), "arm_R");
    assert_eq!(make_mirror_side_label(&s("arm"), &suffixes()), "arm_R");
    assert_eq!(make_mirror_side_label(&s("bras_gauche"), &SymmetrySuffixes { original: s("_gauche"), mirror: s("_droit") }), "bras_droit");
}

#[test]
fn symmetric_body_gets_mirror_image() {
    let (mut r, mut m) = sample();
    run(&mut r, &mut m, |x: &f32| -*x, |x: &f32| -*x, |w: &f32| *w);
    let arm = r.bodies.get(&1).unwrap();
    assert_eq!(arm.label, "arm_L");
    let mirrors: Vec<&Body<f32>> =
        r.bodies.entries.iter().map(|e| &e.1).filter(|b| b.created_from == Some(1)).collect();
    assert_eq!(mirrors.len(), 1);
    let mirror = mirrors[0];
    assert_eq!(mirror.label, "arm_R");
    assert!(!mirror.use_symmetry);
    assert_eq!(mirror.props, -2.0);
    assert_eq!(mirror.colliders.len(), 1);
    let mc = r.colliders.get(&mirror.colliders[0]).unwrap();
    assert_eq!(mc.created_from, Some(10));
    assert_eq!(mc.label, "capsule");
    assert_eq!(mc.props, 7);
    // the mirrored body follows the flipped bone
    let mapping = m.bodies_from_bones.get(&mirror.id).unwrap();
    assert_eq!(mapping.bone.bone, "root/arm.R");
    assert_eq!(mapping.bone.rest, 4);
    assert_eq!(mapping.created_from, Some(1));
}

#[test]
fn stale_mirror_removed_with_its_colliders() {
    let (mut r, mut m) = sample();
    run(&mut r, &mut m, |x: &f32| -*x, |x: &f32| -*x, |w: &f32| *w);
    assert!(r.bodies.get(&3).is_none());
    assert!(r.colliders.get(&30).is_none());
    assert!(r.bodies.get(&2).is_some());
    assert!(r.colliders.get(&10).is_some());
}

#[test]
fn symmetric_joint_joins_mirrored_bodies() {
    let (mut r, mut m) = sample();
    run(&mut r, &mut m, |x: &f32| -*x, |x: &f32| 1.0 - *x, |w: &f32| *w);
    let mirror_arm = r.bodies.entries.iter().find(|e| e.1.created_from == Some(1)).unwrap().0;
    let mj: Vec<&Joint<f32>> = r.joints.entries.iter().map(|e| &e.1).filter(|j| j.created_from == Some(20)).collect();
    assert_eq!(mj.len(), 1);
    assert_eq!(mj[0].label, "shoulder_R");
    assert_eq!(mj[0].body1, 2);
    assert_eq!(mj[0].body2, mirror_arm);
    assert_eq!(mj[0].props, 0.5);
    assert_eq!(r.joints.get(&20).unwrap().label, "shoulder_L");
}

#[test]
fn bone_mapping_mirrored_onto_flipped_bone() {
    let (mut r, mut m) = sample();
    run(&mut r, &mut m, |x: &f32| -*x, |x: &f32| -*x, |w: &f32| *w * 2.0);
    let mirror_arm = r.bodies.entries.iter().find(|e| e.1.created_from == Some(1)).unwrap().0;
    let bm = m.bones_from_bodies.get(&s("root/arm.R")).unwrap();
    assert_eq!(bm.bone_id, "root/arm.R");
    assert_eq!(bm.created_from, Some(s("root/arm.L")));
    assert_eq!(bm.bodies.len(), 1);
    assert_eq!(bm.bodies[0].body, mirror_arm);
    assert_eq!(bm.bodies[0].rest, 0.5);
}

#[test]
fn second_run_reuses_mirror_images() {
    let (mut r, mut m) = sample();
    run(&mut r, &mut m, |x: &f32| -*x, |x: &f32| -*x, |w: &f32| *w);
    let n_bodies = r.bodies.entries.len();
    let n_colliders = r.colliders.entries.len();
    let n_joints = r.joints.entries.len();
    let mirror_arm = r.bodies.entries.iter().find(|e| e.1.created_from == Some(1)).unwrap().0;
    run(&mut r, &mut m, |x: &f32| -*x, |x: &f32| -*x, |w: &f32| *w);
    assert_eq!(r.bodies.entries.len(), n_bodies);
    assert_eq!(r.colliders.entries.len(), n_colliders);
    assert_eq!(r.joints.entries.len(), n_joints);
    assert_eq!(r.bodies.entries.iter().find(|e| e.1.created_from == Some(1)).unwrap().0, mirror_arm);
    assert_eq!(r.bodies.get(&1).unwrap().label, "arm_L");
}

#[test]
fn second_run_keeps_every_key_and_label() {
    let (mut r, mut m) = sample();
    run(&mut r, &mut m, |x: &f32| -*x, |x: &f32| -*x, |w: &f32| *w);
    let snapshot = |r: &Ragdoll<f32, i32, f32>, m: &RagdollBoneMap<u8, f32>| {
        let mut bodies: Vec<(u128, String)> = r.bodies.entries.iter().map(|e| (e.0, e.1.label.clone())).collect();
        let mut colliders: Vec<(u128, String)> = r.colliders.entries.iter().map(|e| (e.0, e.1.label.clone())).collect();
        let mut joints: Vec<(u128, String)> = r.joints.entries.iter().map(|e| (e.0, e.1.label.clone())).collect();
        let mut body_mappings: Vec<u128> = m.bodies_from_bones.entries.iter().map(|e| e.0).collect();
        let mut bone_mappings: Vec<String> = m.bones_from_bodies.entries.iter().map(|e| e.0.clone()).collect();
        bodies.sort();
        colliders.sort();
        joints.sort();
        body_mappings.sort();
        bone_mappings.sort();
        (bodies, colliders, joints, body_mappings, bone_mappings)
    };
    let first = snapshot(&r, &m);
    assert_eq!(first.0.len(), 3);
    assert_eq!(first.3.len(), 2);
    assert_eq!(first.4, vec![s("root/arm.L"), s("root/arm.R")]);
    run(&mut r, &mut m, |x: &f32| -*x, |x: &f32| -*x, |w: &f32| *w);
    assert_eq!(snapshot(&r, &m), first);
}

#[test]
fn turning_symmetry_off_removes_mirror_images() {
    let (mut r, mut m) = sample();
    run(&mut r, &mut m, |x: &f32| -*x, |x: &f32| -*x, |w: &f32| *w);
    let mut arm = r.bodies.remove(&1).unwrap();
    arm.use_symmetry = false;
    r.bodies.insert(1, arm);
    run(&mut r, &mut m, |x: &f32| -*x, |x: &f32| -*x, |w: &f32| *w);
    assert!(r.bodies.entries.iter().all(|e| e.1.created_from != Some(1)));
    assert!(m.bodies_from_bones.entries.iter().all(|e| e.1.created_from != Some(1)));
}

#[test]
fn original_mapping_on_a_flipped_bone_is_overwritten_by_the_earlier_one() {
    let (mut r, mut m) = sample();
    m.bones_from_bodies.insert(
        s("root/arm.R"),
        BoneMapping { bone_id: s("root/arm.R"), bodies: vec![BodyWeight { body: 2, rest: 1.0 }], created_from: None },
    );
    run(&mut r, &mut m, |x: &f32| -*x, |x: &f32| -*x, |w: &f32| *w);
    // the mapping stored first keeps its place and is mirrored over the other
    let left = m.bones_from_bodies.get(&s("root/arm.L")).unwrap();
    assert_eq!(left.created_from, None);
    assert_eq!(left.bodies[0].body, 1);
    let right = m.bones_from_bodies.get(&s("root/arm.R")).unwrap();
    assert_eq!(right.created_from, Some(s("root/arm.L")));
    assert_eq!(right.bodies.len(), 1);
    assert_eq!(right.bodies[0].rest, 0.25);
}

#[test]
fn mapping_on_a_bone_that_flips_to_itself_gets_no_mirror() {
    let (mut r, mut m) = sample();
    m.bones_from_bodies.insert(
        s("root/spine"),
        BoneMapping { bone_id: s("root/spine"), bodies: vec![BodyWeight { body: 2, rest: 1.0 }], created_from: None },
    );
    run(&mut r, &mut m, |x: &f32| -*x, |x: &f32| -*x, |w: &f32| *w);
    let spine = m.bones_from_bodies.get(&s("root/spine")).unwrap();
    assert_eq!(spine.created_from, None);
    assert_eq!(m.bones_from_bodies.entries.iter().filter(|e| e.1.created_from == Some(s("root/spine"))).count(), 0);
}

#[test]
fn limit_checkbox() {
    assert_eq!(toggled_limit(Some(1.5f32), false, 0.0), None);
    assert_eq!(toggled_limit(None, true, 0.25f32), Some(0.25));
    assert_eq!(toggled_limit(Some(1.5f32), true, 0.25), Some(1.5));
    assert_eq!(toggled_limit(None::<f32>, false, 0.25), None);
}

#[test]
fn rule_marks_both_assets_and_queues_offsets() {
    let (mut r, mut m) = sample();
    let (dirty, queue) = run(&mut r, &mut m, |x: &f32| -*x, |x: &f32| -*x, |w: &f32| *w);
    assert_eq!(dirty.assets.len(), 2);
    assert!(dirty.assets.iter().any(|e| e.0 == ragdoll_id() && e.1 == 50));
    assert!(dirty.assets.iter().any(|e| e.0 == bone_map_id() && e.1 == 60));
    assert_eq!(queue.0.len(), 1);
    assert_eq!(queue.0[0].ragdoll_bone_map, 60);
}

#[test]
fn drawn_id_kept_unless_taken() {
    let mut m: KeyMap<u128, ()> = KeyMap::new();
    m.insert(0, ());
    m.insert(1, ());
    m.insert(3, ());
    m.insert(77, ());
    assert_eq!(unused_id(12345, &m), 12345);
    assert_eq!(unused_id(77, &m), 2);
    assert_eq!(unused_id(0, &m), 2);
    let e: KeyMap<u128, ()> = KeyMap::new();
    assert_eq!(unused_id(9, &e), 9);
}

#[test]
fn source_body_listing_a_mirror_collider_is_mirrored() {
    let (mut r, mut m) = sample();
    // body 2 becomes symmetric and lists collider 30, a mirror image of 98
    r.bodies.remove(&3);
    let mut torso = r.bodies.remove(&2).unwrap();
    torso.use_symmetry = true;
    torso.colliders = vec![30];
    r.bodies.insert(2, torso);
    run(&mut r, &mut m, |x: &f32| -*x, |x: &f32| -*x, |w: &f32| *w);
    let mirror = r.bodies.entries.iter().find(|e| e.1.created_from == Some(2)).unwrap().1.clone();
    assert_eq!(mirror.label, "torso_R");
    assert_eq!(mirror.colliders.len(), 1);
    let mc = r.colliders.get(&mirror.colliders[0]).unwrap();
    assert_eq!(mc.created_from, Some(30));
    assert_eq!(mc.label, "old");
}
