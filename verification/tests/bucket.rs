use lapiz::brush::{BasicStabilizer, BrushEffectSlot};
use lapiz::bucket::{
    close_gap_jump_schedule, feather_jump_schedule, jump_schedule, next_power_of_two,
    BucketAntialiasApproach,
};

fn jumps(v: Vec<lapiz::bucket::JumpParams>) -> Vec<u32> {
    v.into_iter().map(|j| j.jump).collect()
}

#[test]
fn jump_schedule_halves_to_one() {
    assert_eq!(jumps(jump_schedule(8)), vec![8, 4, 2, 1]);
    assert_eq!(jumps(jump_schedule(0)), vec![1]);
    assert_eq!(jumps(jump_schedule(6)), vec![6, 3, 1]);
}

#[test]
fn gap_and_feather_schedules() {
    assert!(close_gap_jump_schedule(0).is_none());
    assert_eq!(jumps(close_gap_jump_schedule(5).unwrap()), vec![8, 4, 2, 1]);
    assert_eq!(jumps(close_gap_jump_schedule(1).unwrap()), vec![1]);
    assert!(feather_jump_schedule(BucketAntialiasApproach::Fxaa).is_none());
    assert!(feather_jump_schedule(BucketAntialiasApproach::Feather(0)).is_none());
    assert_eq!(
        jumps(feather_jump_schedule(BucketAntialiasApproach::Feather(3)).unwrap()),
        vec![4, 2, 1]
    );
    assert_eq!(BucketAntialiasApproach::Feather(3).feather_radius(), 3);
    assert_eq!(BucketAntialiasApproach::Disabled.feather_radius(), 0);
}

#[test]
fn next_power_of_two_matches_std() {
    for n in [0u32, 1, 2, 3, 5, 64, 65, 1000, 0x4000_0001, 0x8000_0000] {
        assert_eq!(next_power_of_two(n), n.next_power_of_two());
    }
}

#[test]
fn brush_slots_and_basic_stabilizer() {
    assert_eq!(
        BrushEffectSlot::all(),
        vec![BrushEffectSlot::Spacing, BrushEffectSlot::Main, BrushEffectSlot::Postprocess]
    );
    assert_eq!(BrushEffectSlot::Main.label_key(), "main_effect");
    assert_eq!(BasicStabilizer.stabilize(&vec![1, 2, 3]), Some(3));
    assert_eq!(BasicStabilizer.stabilize::<i32>(&vec![]), None);
    assert_eq!(BasicStabilizer.convergence_steps(), 1);
}
