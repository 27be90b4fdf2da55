use invaders::animation::{animate_frame, AnimationFrames};
use invaders::bolt::move_bolt;
use invaders::formation::{alien_formation, formation_slot, spawn_alien};
use invaders::march::{march_with_rolls, move_alien_classic, leaves_formation, ClassicMarch, MarchDir};
use invaders::player::{fires_bolt, steer};

#[test]
fn march_vec3_follows_direction() {
    assert_eq!(ClassicMarch { direction: MarchDir::Left }.vec3(), (-1, 0, 0));
    assert_eq!(ClassicMarch { direction: MarchDir::Right }.vec3(), (1, 0, 0));
}

#[test]
fn march_turns_at_right_side_mid_pass() {
    let mut m = ClassicMarch { direction: MarchDir::Right };
    let mut xs = vec![10i64, 800, 5];
    let leave = march_with_rolls(&mut m, &mut xs, &vec![2, 3, 10000]);
    // the first alien moves before the second one turns the formation
    assert_eq!(xs, vec![11, 799, 4]);
    assert_eq!(m.direction, MarchDir::Left);
    assert_eq!(leave, vec![true, false, false]);
}

#[test]
fn march_turns_at_left_side() {
    let mut m = ClassicMarch { direction: MarchDir::Left };
    let mut xs = vec![-800i64, -3];
    march_with_rolls(&mut m, &mut xs, &vec![0, 0]);
    assert_eq!(xs, vec![-799, -2]);
    assert_eq!(m.direction, MarchDir::Right);
}

#[test]
fn march_beyond_sides_and_extremes() {
    let mut m = ClassicMarch { direction: MarchDir::Right };
    let mut xs = vec![i64::MAX, i64::MIN];
    march_with_rolls(&mut m, &mut xs, &vec![1, 1]);
    assert_eq!(xs, vec![i64::MAX - 1, i64::MIN + 1]);
    assert_eq!(m.direction, MarchDir::Right);
}

#[test]
fn march_empty_formation_keeps_direction() {
    let mut m = ClassicMarch { direction: MarchDir::Left };
    let mut xs: Vec<i64> = vec![];
    let leave = march_with_rolls(&mut m, &mut xs, &vec![]);
    assert!(leave.is_empty());
    assert_eq!(m.direction, MarchDir::Left);
}

#[test]
fn march_stays_in_window_over_many_frames() {
    let mut m = ClassicMarch { direction: MarchDir::Right };
    let mut xs = vec![-800i64, 0, 790, 800];
    for _ in 0..5000 {
        move_alien_classic(&mut m, &mut xs);
        assert!(xs.iter().all(|x| -800 <= *x && *x <= 800));
    }
}

#[test]
fn move_alien_classic_moves_every_alien_one_unit() {
    let mut m = ClassicMarch { direction: MarchDir::Right };
    let mut xs = vec![0i64, 100, -100];
    let (leave, rolls) = move_alien_classic(&mut m, &mut xs);
    assert_eq!(xs, vec![1, 101, -99]);
    assert_eq!(leave.len(), 3);
    assert_eq!(rolls.len(), 3);
    for i in 0..3 {
        assert!(0 <= rolls[i] && rolls[i] <= 10000);
        assert_eq!(leave[i], rolls[i] == 2);
    }
}

#[test]
fn only_roll_two_leaves() {
    assert!(leaves_formation(2));
    assert!(!leaves_formation(1));
    assert!(!leaves_formation(3));
    assert!(!leaves_formation(10000));
}

#[test]
fn animation_waits_for_the_timer() {
    let a = AnimationFrames { frames: 4, start_index: 0, repeat: false };
    let s = animate_frame(&a, 3, false);
    assert_eq!(s.index, 3);
    assert!(!s.despawn);
}

#[test]
fn explosion_despawns_on_last_image() {
    let a = AnimationFrames { frames: 4, start_index: 0, repeat: false };
    let s = animate_frame(&a, 2, true);
    assert_eq!(s.index, 3);
    assert!(!s.despawn);
    let s = animate_frame(&a, 3, true);
    assert_eq!(s.index, 0);
    assert!(s.despawn);
}

#[test]
fn repeating_cycle_wraps_around() {
    let a = AnimationFrames { frames: 2, start_index: 2, repeat: true };
    let s = animate_frame(&a, 2, true);
    assert_eq!(s.index, 3);
    let s = animate_frame(&a, 3, true);
    assert_eq!(s.index, 2);
    assert!(!s.despawn);
}

#[test]
fn cycle_returns_after_frames_ticks() {
    let a = AnimationFrames { frames: 5, start_index: 0, repeat: true };
    let mut index = 3usize;
    for _ in 0..5 {
        index = animate_frame(&a, index, true).index;
        assert!(index < 5);
    }
    assert_eq!(index, 3);
}

#[test]
fn formation_has_the_grid() {
    let v = alien_formation();
    assert_eq!(v.len(), 100);
    assert_eq!(v[0], formation_slot(0, 0));
    assert_eq!((v[0].x, v[0].y, v[0].start_index, v[0].frames), (-500, 400, 2, 2));
    assert_eq!((v[1].x, v[1].y, v[1].start_index), (-450, 400, 0));
    assert_eq!((v[20].x, v[20].y, v[20].start_index), (-500, 350, 0));
    assert_eq!((v[99].row, v[99].column), (4, 19));
    assert_eq!((v[99].x, v[99].y, v[99].start_index), (450, 200, 0));
}

#[test]
fn formation_places_distinct_and_inside() {
    let v = alien_formation();
    for i in 0..v.len() {
        assert!(-750 <= v[i].x && v[i].x <= 750 && -400 <= v[i].y && v[i].y <= 400);
        for j in 0..v.len() {
            if i != j {
                assert!(v[i].x != v[j].x || v[i].y != v[j].y);
            }
        }
    }
}

#[test]
fn spawned_alien_scale_in_range() {
    let slot = formation_slot(2, 7);
    for _ in 0..200 {
        let a = spawn_alien(slot);
        assert_eq!(a.slot, slot);
        assert!(2 <= a.scale && a.scale <= 4);
        assert_eq!(a.index, slot.start_index as usize);
    }
}

#[test]
fn steering_from_keys() {
    assert_eq!(steer(false, false), 0);
    assert_eq!(steer(true, false), -1);
    assert_eq!(steer(false, true), 1);
    assert_eq!(steer(true, true), 0);
}

#[test]
fn firing_needs_no_bolt_in_flight() {
    assert!(fires_bolt(false, true));
    assert!(!fires_bolt(true, true));
    assert!(!fires_bolt(false, false));
}

#[test]
fn bolt_pass_stops_at_first_escaped() {
    let p = move_bolt(true, &vec![false, true, true]);
    assert_eq!(p.moved, 1);
    assert_eq!(p.despawn, Some(1));
    assert!(!p.bolt_exists);
    let p = move_bolt(true, &vec![false, false]);
    assert_eq!(p.moved, 2);
    assert_eq!(p.despawn, None);
    assert!(p.bolt_exists);
    let p = move_bolt(false, &vec![]);
    assert_eq!((p.moved, p.despawn, p.bolt_exists), (0, None, false));
}

#[test]
fn explosion_despawned_on_fourth_finish() {
    let a = AnimationFrames { frames: 4, start_index: 0, repeat: false };
    let mut index = 0usize;
    let mut shown = vec![index];
    for tick in 1..=4 {
        // ticks between finishes change nothing
        let idle = animate_frame(&a, index, false);
        assert_eq!((idle.index, idle.despawn), (index, false));
        let s = animate_frame(&a, index, true);
        assert_eq!(s.despawn, tick == 4);
        index = s.index;
        shown.push(index);
    }
    assert_eq!(shown, vec![0, 1, 2, 3, 0]);
}

#[test]
fn first_image_is_cycle_start() {
    assert_eq!(formation_slot(0, 0).first_image(), 2);
    assert_eq!(formation_slot(0, 1).first_image(), 0);
    assert_eq!(spawn_alien(formation_slot(0, 1)).index, 0);
    assert_eq!(spawn_alien(formation_slot(3, 5)).index, 2);
}
