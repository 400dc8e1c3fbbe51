use bevy_rl::articulation::{articulation_root_name, PoseEditTarget};
use bevy_rl::{CreatureSkeleton, JointKindTag, JointLink};

fn joint(name: &str, parent: &str, child: &str, kind: JointKindTag) -> JointLink {
    JointLink { name: name.to_string(), body_a: parent.to_string(), body_b: child.to_string(), kind }
}

/// Torso, head and four two-segment legs, as the dog quadruped is authored.
fn dog_skeleton() -> CreatureSkeleton {
    let mut bodies = vec!["torso".to_string(), "head".to_string()];
    let mut joints = vec![joint("neck", "torso", "head", JointKindTag::Spherical)];
    for leg in ["fl", "fr", "bl", "br"] {
        bodies.push(format!("{leg}_upper"));
        bodies.push(format!("{leg}_lower"));
        joints.push(joint(&format!("{leg}_hip"), "torso", &format!("{leg}_upper"), JointKindTag::Revolute));
        joints.push(joint(
            &format!("{leg}_knee"),
            &format!("{leg}_upper"),
            &format!("{leg}_lower"),
            JointKindTag::Revolute,
        ));
    }
    CreatureSkeleton { bodies, joints }
}

fn position(order: &[usize], joint: usize) -> usize {
    order.iter().position(|&j| j == joint).unwrap()
}

#[test]
fn root_is_first_body_that_no_joint_places() {
    let skeleton = dog_skeleton();
    assert_eq!(skeleton.articulation_root_index(), Some(0));
    assert_eq!(articulation_root_name(&skeleton), Some("torso"));
}

#[test]
fn root_skips_bodies_placed_by_joints() {
    let skeleton = CreatureSkeleton {
        bodies: vec!["hand".to_string(), "arm".to_string()],
        joints: vec![joint("wrist", "arm", "hand", JointKindTag::Spherical)],
    };
    assert_eq!(skeleton.articulation_root_index(), Some(1));
    assert_eq!(articulation_root_name(&skeleton), Some("arm"));
}

#[test]
fn cyclic_skeleton_has_no_root() {
    let skeleton = CreatureSkeleton {
        bodies: vec!["a".to_string(), "b".to_string()],
        joints: vec![joint("ab", "a", "b", JointKindTag::Revolute), joint("ba", "b", "a", JointKindTag::Revolute)],
    };
    assert_eq!(skeleton.articulation_root_index(), None);
    assert_eq!(articulation_root_name(&skeleton), None);
    assert!(skeleton.joint_topology_order().is_empty());
}

#[test]
fn child_names_are_joint_children() {
    let skeleton = dog_skeleton();
    assert!(skeleton.is_child_name(&"head".to_string()));
    assert!(skeleton.is_child_name(&"bl_lower".to_string()));
    assert!(!skeleton.is_child_name(&"torso".to_string()));
    assert!(!skeleton.is_child_name(&"tail".to_string()));
}

#[test]
fn topology_order_lists_every_joint_once_after_its_parent() {
    let skeleton = dog_skeleton();
    let order = skeleton.joint_topology_order();
    assert_eq!(order.len(), skeleton.joints.len());
    let mut sorted = order.clone();
    sorted.sort();
    assert_eq!(sorted, (0..skeleton.joints.len()).collect::<Vec<_>>());
    for leg in 0..4 {
        let hip = 1 + 2 * leg;
        let knee = hip + 1;
        assert!(position(&order, hip) < position(&order, knee));
    }
}

#[test]
fn topology_order_walks_depth_first_from_the_root() {
    let skeleton = dog_skeleton();
    let order = skeleton.joint_topology_order();
    // The torso's joints are taken in authoring order; the last child reached is expanded first.
    assert_eq!(order, vec![0, 1, 3, 5, 7, 8, 6, 4, 2]);
}

#[test]
fn topology_order_handles_joints_authored_before_their_parent() {
    let skeleton = CreatureSkeleton {
        bodies: vec!["base".to_string(), "mid".to_string(), "tip".to_string()],
        joints: vec![joint("outer", "mid", "tip", JointKindTag::Revolute), joint("inner", "base", "mid", JointKindTag::Revolute)],
    };
    assert_eq!(skeleton.joint_topology_order(), vec![1, 0]);
}

#[test]
fn topology_order_skips_joints_unreachable_from_a_root() {
    let skeleton = CreatureSkeleton {
        bodies: vec!["base".to_string(), "arm".to_string()],
        joints: vec![
            joint("shoulder", "base", "arm", JointKindTag::Revolute),
            joint("loose", "ghost", "ghost_child", JointKindTag::Fixed),
        ],
    };
    assert_eq!(skeleton.joint_topology_order(), vec![0]);
}

#[test]
fn revolute_spawned_joints_get_consecutive_action_slots() {
    let skeleton = dog_skeleton();
    let spawned = vec![true; skeleton.joints.len()];
    let slots = skeleton.revolute_action_slots(&spawned);
    assert_eq!(slots, vec![None, Some(0), Some(1), Some(2), Some(3), Some(4), Some(5), Some(6), Some(7)]);
}

#[test]
fn missing_joints_get_no_action_slot() {
    let skeleton = dog_skeleton();
    let mut spawned = vec![true; skeleton.joints.len()];
    spawned[2] = false;
    let slots = skeleton.revolute_action_slots(&spawned);
    assert_eq!(slots, vec![None, Some(0), None, Some(1), Some(2), Some(3), Some(4), Some(5), Some(6)]);
}

#[test]
fn pose_edit_of_root_updates_root_pose() {
    assert_eq!(dog_skeleton().pose_edit_target("torso"), PoseEditTarget::Root);
}

#[test]
fn pose_edit_of_child_names_its_joint_and_body() {
    assert_eq!(
        dog_skeleton().pose_edit_target("fr_lower"),
        PoseEditTarget::Child { joint_index: 4, body_index: Some(5) }
    );
}

#[test]
fn pose_edit_of_child_without_body_entry() {
    let skeleton = CreatureSkeleton {
        bodies: vec!["base".to_string()],
        joints: vec![joint("shoulder", "base", "arm", JointKindTag::Revolute)],
    };
    assert_eq!(skeleton.pose_edit_target("arm"), PoseEditTarget::Child { joint_index: 0, body_index: None });
}

#[test]
fn pose_edit_of_unknown_body_changes_nothing() {
    assert_eq!(dog_skeleton().pose_edit_target("tail"), PoseEditTarget::Unchanged);
    let empty = CreatureSkeleton { bodies: vec![], joints: vec![] };
    assert_eq!(empty.pose_edit_target("torso"), PoseEditTarget::Unchanged);
}
