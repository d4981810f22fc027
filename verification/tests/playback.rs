use std::time::Duration;

use bevy_mod_aseprite::{
    refresh_animations, update_animations, AnimationDirection, AsepriteAnimation, AsepriteInfo,
    AsepriteTag, PlaybackDiagnostic, SpriteData, Tag,
};

fn tag(name: &str, start: u16, end: u16, direction: AnimationDirection) -> Tag {
    Tag { name: name.to_string(), start, end, direction, repeat: None }
}

fn info(durations: Vec<u16>, tags: Vec<Tag>) -> AsepriteInfo {
    AsepriteInfo::new(SpriteData {
        dimensions: (4, 4),
        frame_durations: durations,
        tags,
        slices: Vec::new(),
        palette: None,
        transparent_palette: 0,
    })
    .unwrap()
}

fn frames_after_steps(info: &AsepriteInfo, anim: &mut AsepriteAnimation, steps: usize) -> Vec<usize> {
    let mut seen = vec![anim.current_frame()];
    for _ in 0..steps {
        assert!(anim.is_valid_for(info));
        anim.next_frame(info);
        seen.push(anim.current_frame());
    }
    seen
}

#[test]
fn ping_pong_visits_each_endpoint_once() {
    let info = info(vec![100; 6], vec![tag("bounce", 2, 5, AnimationDirection::PingPong)]);
    let mut anim = AsepriteAnimation::new(&info, Some(AsepriteTag::from("bounce")));
    assert_eq!(
        frames_after_steps(&info, &mut anim, 9),
        vec![2, 3, 4, 5, 4, 3, 2, 3, 4, 5]
    );
}

#[test]
fn reverse_wraps_to_the_end() {
    let info = info(vec![100; 4], vec![tag("back", 0, 3, AnimationDirection::Reverse)]);
    let mut anim = AsepriteAnimation::new(&info, Some(AsepriteTag::from("back")));
    assert_eq!(frames_after_steps(&info, &mut anim, 4), vec![3, 2, 1, 0, 3]);
}

#[test]
fn no_tag_loops_over_all_frames() {
    let info = info(vec![100; 6], Vec::new());
    let mut anim = AsepriteAnimation::new(&info, None);
    assert_eq!(frames_after_steps(&info, &mut anim, 7), vec![0, 1, 2, 3, 4, 5, 0, 1]);
}

#[test]
fn large_dt_skips_frames_and_keeps_the_rest() {
    let info = info(vec![100; 5], vec![tag("walk", 0, 4, AnimationDirection::Forward)]);
    let mut anim = AsepriteAnimation::new(&info, Some(AsepriteTag::from("walk")));
    anim.set_current_frame(&info, 2);
    assert!(anim.update(&info, Duration::from_millis(350)));
    assert_eq!(anim.current_frame(), 0);
    assert_eq!(anim.time_elapsed(), Duration::from_millis(50));
}

type Snapshot = (Option<String>, usize, Duration, bool, bool);

fn snapshot(anim: &AsepriteAnimation) -> Snapshot {
    (
        anim.tag().map(|t| t.to_string()),
        anim.current_frame(),
        anim.time_elapsed(),
        anim.is_forward(),
        anim.is_playing(),
    )
}

fn start(info: &AsepriteInfo, tag: &str) -> AsepriteAnimation {
    AsepriteAnimation::new(info, Some(AsepriteTag::from(tag)))
}

fn sheet() -> AsepriteInfo {
    info(
        vec![100, 50, 200, 10, 70, 30, 120, 90],
        vec![
            tag("forward", 1, 4, AnimationDirection::Forward),
            tag("reverse", 2, 6, AnimationDirection::Reverse),
            tag("pingpong", 2, 5, AnimationDirection::PingPong),
            tag("gnopgnip", 3, 7, AnimationDirection::PingPongReverse),
            tag("unknown", 4, 6, AnimationDirection::Unknown(7)),
            tag("one", 5, 5, AnimationDirection::PingPong),
        ],
    )
}

#[test]
fn animations_start_at_the_entry_of_their_tag() {
    let info = sheet();
    let none = AsepriteAnimation::new(&info, None);
    assert_eq!(snapshot(&none), (None, 0, Duration::ZERO, true, true));
    let at = |name: &str| {
        let a = start(&info, name);
        assert!(a.is_valid_for(&info));
        assert_eq!(a.tag(), Some(name));
        assert_eq!(a.time_elapsed(), Duration::ZERO);
        assert!(a.is_playing());
        (a.current_frame(), a.is_forward())
    };
    assert_eq!(at("forward"), (1, true));
    assert_eq!(at("reverse"), (6, false));
    assert_eq!(at("pingpong"), (2, true));
    assert_eq!(at("gnopgnip"), (7, false));
    assert_eq!(at("unknown"), (4, true));
    assert_eq!(at("one"), (5, true));
}

#[test]
fn default_animation_runs_over_all_frames() {
    let info = sheet();
    let anim = AsepriteAnimation::default();
    assert_eq!(snapshot(&anim), snapshot(&AsepriteAnimation::new(&info, None)));
    assert!(anim.is_valid_for(&info));
}

#[test]
fn forward_wraps_to_the_start() {
    let info = sheet();
    let mut anim = start(&info, "forward");
    assert_eq!(frames_after_steps(&info, &mut anim, 6), vec![1, 2, 3, 4, 1, 2, 3]);
}

#[test]
fn ping_pong_reverse_starts_downwards() {
    let info = sheet();
    let mut anim = start(&info, "gnopgnip");
    assert_eq!(
        frames_after_steps(&info, &mut anim, 10),
        vec![7, 6, 5, 4, 3, 4, 5, 6, 7, 6, 5]
    );
}

#[test]
fn ping_pong_turns_on_arrival_at_an_endpoint() {
    let info = sheet();
    let mut anim = start(&info, "pingpong");
    let mut flags = vec![anim.is_forward()];
    for _ in 0..6 {
        anim.next_frame(&info);
        flags.push(anim.is_forward());
    }
    // frames 2, 3, 4, 5, 4, 3, 2
    assert_eq!(flags, vec![true, true, true, false, false, false, true]);
}

#[test]
fn ping_pong_of_two_frames_alternates() {
    let info = info(vec![10; 3], vec![tag("two", 1, 2, AnimationDirection::PingPong)]);
    let mut anim = start(&info, "two");
    assert_eq!(frames_after_steps(&info, &mut anim, 5), vec![1, 2, 1, 2, 1, 2]);
}

#[test]
fn tag_of_one_frame_stays_on_it() {
    let info = sheet();
    let mut anim = start(&info, "one");
    assert_eq!(frames_after_steps(&info, &mut anim, 3), vec![5, 5, 5, 5]);
    assert!(anim.update(&info, Duration::from_millis(65)));
    assert_eq!(anim.current_frame(), 5);
    assert_eq!(anim.time_elapsed(), Duration::from_millis(5));
}

#[test]
fn unknown_direction_keeps_the_frame() {
    let info = sheet();
    let mut anim = start(&info, "unknown");
    assert_eq!(anim.diagnostic(&info), Some(PlaybackDiagnostic::UnknownDirection(7)));
    assert_eq!(frames_after_steps(&info, &mut anim, 3), vec![4, 4, 4, 4]);
    // frame 4 is shown for 70 ms: three steps, and 20 ms into the fourth round
    assert!(anim.update(&info, Duration::from_millis(230)));
    assert_eq!(anim.current_frame(), 4);
    assert_eq!(anim.time_elapsed(), Duration::from_millis(20));
}

#[test]
fn unknown_tag_falls_back_to_all_frames() {
    let info = sheet();
    let mut anim = start(&info, "missing");
    assert_eq!(anim.tag(), Some("missing"));
    assert_eq!(anim.diagnostic(&info), Some(PlaybackDiagnostic::UnknownTag));
    assert!(anim.is_valid_for(&info));
    assert_eq!(
        frames_after_steps(&info, &mut anim, 9),
        vec![0, 1, 2, 3, 4, 5, 6, 7, 0, 1]
    );
    assert_eq!(anim.current_tag_frame(&info), 0);
    assert_eq!(anim.remaining_tag_frames(&info), None);
    assert_eq!(start(&info, "forward").diagnostic(&info), None);
    assert_eq!(AsepriteAnimation::new(&info, None).diagnostic(&info), None);
}

#[test]
fn of_tags_with_one_name_the_last_counts() {
    let info = info(
        vec![10; 6],
        vec![
            tag("twice", 0, 1, AnimationDirection::Forward),
            tag("other", 2, 3, AnimationDirection::Forward),
            tag("twice", 4, 5, AnimationDirection::Reverse),
        ],
    );
    let found = info.tag(&"twice".to_string()).unwrap();
    assert_eq!((found.start, found.end), (4, 5));
    let anim = start(&info, "twice");
    assert_eq!(anim.current_frame(), 5);
}

#[test]
fn update_adds_time_until_the_frame_is_over() {
    let info = sheet();
    let mut anim = start(&info, "forward");
    // frame 1 is shown for 50 ms
    assert!(!anim.update(&info, Duration::from_millis(20)));
    assert_eq!((anim.current_frame(), anim.time_elapsed()), (1, Duration::from_millis(20)));
    assert!(!anim.update(&info, Duration::ZERO));
    assert!(!anim.update(&info, Duration::from_nanos(29_999_999)));
    assert_eq!((anim.current_frame(), anim.time_elapsed()), (1, Duration::from_nanos(49_999_999)));
    // the last nanosecond: exactly on the boundary
    assert!(anim.update(&info, Duration::from_nanos(1)));
    assert_eq!((anim.current_frame(), anim.time_elapsed()), (2, Duration::ZERO));
}

#[test]
fn update_by_a_whole_frame_from_its_start_makes_one_step() {
    let info = sheet();
    let mut anim = start(&info, "forward");
    assert!(anim.update(&info, Duration::from_millis(50)));
    assert_eq!((anim.current_frame(), anim.time_elapsed()), (2, Duration::ZERO));
}

#[test]
fn update_crosses_frames_of_different_length() {
    let info = sheet();
    let mut anim = start(&info, "forward");
    // 50 + 200 + 10 + 70 = 330 ms for one round of frames 1 to 4
    assert!(anim.update(&info, Duration::from_millis(50 + 200 + 5)));
    assert_eq!((anim.current_frame(), anim.time_elapsed()), (3, Duration::from_millis(5)));
    assert!(anim.update(&info, Duration::from_millis(330 * 3)));
    assert_eq!((anim.current_frame(), anim.time_elapsed()), (3, Duration::from_millis(5)));
    assert!(anim.update(&info, Duration::from_millis(5 + 70 + 49)));
    assert_eq!((anim.current_frame(), anim.time_elapsed()), (1, Duration::from_millis(49)));
}

#[test]
fn one_large_update_equals_many_small_ones() {
    let info = info(vec![100; 5], vec![tag("walk", 0, 4, AnimationDirection::Forward)]);
    let mut once = start(&info, "walk");
    once.set_current_frame(&info, 2);
    let mut many = start(&info, "walk");
    many.set_current_frame(&info, 2);
    assert!(once.update(&info, Duration::from_millis(300)));
    for _ in 0..3 {
        assert!(many.update(&info, Duration::from_millis(100)));
    }
    assert_eq!(snapshot(&once), snapshot(&many));
    assert_eq!(once.current_frame(), 0);
}

#[test]
fn updates_add_up_in_every_direction() {
    let info = sheet();
    let deltas: [u64; 9] = [0, 7, 33, 50, 1, 199, 640, 12, 1000];
    for name in ["forward", "reverse", "pingpong", "gnopgnip", "unknown", "one", "missing"] {
        let mut by_steps = start(&info, name);
        let mut at_once = start(&info, name);
        for d in deltas {
            by_steps.update(&info, Duration::from_millis(d));
        }
        at_once.update(&info, Duration::from_millis(deltas.iter().sum()));
        assert_eq!(snapshot(&by_steps), snapshot(&at_once), "{}", name);
    }
}

#[test]
fn frame_stays_within_the_tag() {
    let info = sheet();
    let ranges = [
        ("forward", 1, 4),
        ("reverse", 2, 6),
        ("pingpong", 2, 5),
        ("gnopgnip", 3, 7),
        ("unknown", 4, 6),
        ("one", 5, 5),
        ("missing", 0, 7),
    ];
    for (name, lo, hi) in ranges {
        let mut anim = start(&info, name);
        for i in 0..200u64 {
            anim.update(&info, Duration::from_millis(i * 7 % 260));
            assert!(anim.is_valid_for(&info));
            assert!(lo <= anim.current_frame() && anim.current_frame() <= hi, "{}", name);
            assert!(anim.time_elapsed() < anim.current_frame_duration(&info));
        }
    }
}

#[test]
fn advance_counts_nanoseconds() {
    let info = sheet();
    let mut anim = start(&info, "reverse");
    // frame 6 is shown for 120 ms, frame 5 for 30 ms
    assert!(!anim.advance(&info, 119_999_999));
    assert!(anim.advance(&info, 30_000_001));
    assert_eq!((anim.current_frame(), anim.time_elapsed()), (4, Duration::ZERO));
    assert!(!anim.advance(&info, 0));
}

#[test]
fn paused_animation_does_not_move() {
    let info = sheet();
    let mut anim = start(&info, "forward");
    anim.update(&info, Duration::from_millis(20));
    anim.pause();
    assert!(anim.is_paused());
    assert!(!anim.is_playing());
    let before = snapshot(&anim);
    assert!(!anim.update(&info, Duration::from_millis(5000)));
    assert_eq!(snapshot(&anim).1, before.1);
    assert_eq!(snapshot(&anim).2, before.2);
    anim.play();
    assert!(anim.is_playing());
    assert!(anim.update(&info, Duration::from_millis(30)));
    assert_eq!(anim.current_frame(), 2);
}

#[test]
fn toggle_switches_between_playing_and_paused() {
    let info = sheet();
    let mut anim = start(&info, "pingpong");
    anim.update(&info, Duration::from_millis(250));
    let before = snapshot(&anim);
    anim.toggle();
    assert_eq!(snapshot(&anim), (before.0.clone(), before.1, before.2, before.3, false));
    anim.toggle();
    assert_eq!(snapshot(&anim), before);
}

#[test]
fn set_tag_is_a_fresh_start() {
    let info = sheet();
    let mut anim = start(&info, "forward");
    anim.update(&info, Duration::from_millis(123));
    anim.pause();
    anim.set_tag(&info, Some(AsepriteTag::from("reverse")));
    assert_eq!(snapshot(&anim), snapshot(&start(&info, "reverse")));
    anim.set_tag(&info, None);
    assert_eq!(snapshot(&anim), snapshot(&AsepriteAnimation::new(&info, None)));
}

#[test]
fn tag_switch_round_trip_leaves_nothing_behind() {
    let info = sheet();
    let mut anim = start(&info, "unknown");
    anim.update(&info, Duration::from_millis(777));
    anim.set_tag(&info, Some(AsepriteTag::from("pingpong")));
    anim.update(&info, Duration::from_millis(333));
    anim.set_tag(&info, Some(AsepriteTag::from("gnopgnip")));
    anim.update(&info, Duration::from_millis(55));
    anim.pause();
    anim.set_tag(&info, Some(AsepriteTag::from("pingpong")));
    assert_eq!(snapshot(&anim), snapshot(&start(&info, "pingpong")));
    assert_eq!(
        snapshot(&anim),
        (Some("pingpong".to_string()), 2, Duration::ZERO, true, true)
    );
}

#[test]
fn set_current_frame_clamps_into_the_tag() {
    let info = sheet();
    let mut anim = start(&info, "reverse");
    anim.update(&info, Duration::from_millis(10));
    anim.set_current_frame(&info, 4);
    assert_eq!((anim.current_frame(), anim.time_elapsed()), (4, Duration::from_millis(10)));
    anim.set_current_frame(&info, 0);
    assert_eq!(anim.current_frame(), 2);
    anim.set_current_frame(&info, 7);
    assert_eq!(anim.current_frame(), 6);
    anim.set_current_frame(&info, usize::MAX);
    assert_eq!(anim.current_frame(), 6);
    assert!(anim.is_valid_for(&info));
    let mut all = AsepriteAnimation::new(&info, None);
    all.set_current_frame(&info, 8);
    assert_eq!(all.current_frame(), 7);
    all.set_current_frame(&info, 3);
    assert_eq!(all.current_frame(), 3);
}

#[test]
fn tag_relative_frames() {
    let info = sheet();
    let mut anim = start(&info, "reverse");
    assert_eq!(anim.current_tag_frame(&info), 4);
    assert_eq!(anim.remaining_tag_frames(&info), Some(0));
    anim.set_current_tag_frame(&info, 1);
    assert_eq!(anim.current_frame(), 3);
    assert_eq!(anim.current_tag_frame(&info), 1);
    assert_eq!(anim.remaining_tag_frames(&info), Some(3));
    anim.set_current_tag_frame(&info, 0);
    assert_eq!(anim.current_frame(), 2);
    anim.set_current_tag_frame(&info, 5);
    assert_eq!(anim.current_frame(), 6);
    anim.set_current_tag_frame(&info, usize::MAX);
    assert_eq!(anim.current_frame(), 6);

    let mut all = AsepriteAnimation::new(&info, None);
    all.set_current_frame(&info, 5);
    all.update(&info, Duration::from_millis(3));
    let before = snapshot(&all);
    all.set_current_tag_frame(&info, 1);
    assert_eq!(snapshot(&all), before);
    assert_eq!(all.current_tag_frame(&info), 0);
    assert_eq!(all.remaining_tag_frames(&info), None);
}

#[test]
fn frame_finished_looks_ahead_without_moving() {
    let info = sheet();
    let mut anim = start(&info, "forward");
    assert_eq!(anim.current_frame_duration(&info), Duration::from_millis(50));
    anim.update(&info, Duration::from_millis(20));
    assert!(!anim.frame_finished(&info, Duration::from_nanos(29_999_999)));
    assert!(anim.frame_finished(&info, Duration::from_millis(30)));
    assert!(anim.frame_finished(&info, Duration::from_secs(3600)));
    assert!(!anim.frame_finished(&info, Duration::ZERO));
    anim.pause();
    assert!(anim.frame_finished(&info, Duration::from_millis(30)));
    assert_eq!((anim.current_frame(), anim.time_elapsed()), (1, Duration::from_millis(20)));
}

#[test]
fn a_state_of_one_sprite_may_not_fit_another() {
    let long = sheet();
    let short = info(vec![10; 2], Vec::new());
    let mut anim = AsepriteAnimation::new(&long, None);
    anim.set_current_frame(&long, 5);
    assert!(anim.is_valid_for(&long));
    assert!(!anim.is_valid_for(&short));
    let mut slow = AsepriteAnimation::new(&long, None);
    slow.update(&long, Duration::from_millis(99));
    assert!(slow.is_valid_for(&short));
    assert!(slow.update(&short, Duration::ZERO));
    assert_eq!((slow.current_frame(), slow.time_elapsed()), (1, Duration::from_millis(9)));
}

#[test]
fn setting_the_frame_changes_nothing_else() {
    let info = sheet();
    let mut anim = start(&info, "gnopgnip");
    anim.update(&info, Duration::from_millis(95));
    anim.pause();
    let before = snapshot(&anim);
    assert_eq!(before, (Some("gnopgnip".to_string()), 6, Duration::from_millis(5), false, false));
    anim.set_current_frame(&info, 4);
    assert_eq!(snapshot(&anim), (before.0.clone(), 4, before.2, before.3, before.4));
    anim.set_current_tag_frame(&info, 2);
    assert_eq!(snapshot(&anim), (before.0.clone(), 5, before.2, before.3, before.4));
    anim.set_current_tag_frame(&info, 9);
    assert_eq!(snapshot(&anim), (before.0.clone(), 7, before.2, before.3, before.4));
    anim.set_current_frame(&info, 0);
    assert_eq!(snapshot(&anim), (before.0, 3, before.2, before.3, before.4));
}

#[test]
fn time_spent_before_the_frame_was_set_counts_for_the_new_frame() {
    let info = sheet();
    let mut anim = start(&info, "forward");
    anim.update(&info, Duration::from_millis(40));
    anim.set_current_frame(&info, 3);
    assert_eq!((anim.current_frame(), anim.time_elapsed()), (3, Duration::from_millis(40)));
    assert!(anim.is_valid_for(&info));
    assert!(anim.frame_finished(&info, Duration::ZERO));

    let mut at_once = start(&info, "forward");
    at_once.update(&info, Duration::from_millis(40));
    at_once.set_current_frame(&info, 3);
    assert!(at_once.update(&info, Duration::from_millis(75)));
    assert_eq!(
        (at_once.current_frame(), at_once.time_elapsed()),
        (1, Duration::from_millis(35))
    );

    assert!(anim.update(&info, Duration::ZERO));
    assert_eq!((anim.current_frame(), anim.time_elapsed()), (4, Duration::from_millis(30)));
    assert!(!anim.update(&info, Duration::from_millis(5)));
    assert!(anim.update(&info, Duration::from_millis(70)));
    assert_eq!(snapshot(&anim), snapshot(&at_once));
}

#[test]
fn a_paused_animation_keeps_a_frame_whose_time_has_run_out() {
    let info = sheet();
    let mut anim = start(&info, "forward");
    anim.update(&info, Duration::from_millis(40));
    anim.set_current_tag_frame(&info, 2);
    anim.pause();
    assert!(!anim.update(&info, Duration::from_secs(1)));
    assert_eq!((anim.current_frame(), anim.time_elapsed()), (3, Duration::from_millis(40)));
    anim.play();
    assert!(anim.advance(&info, u128::MAX));
    assert!(anim.is_valid_for(&info));
}

#[test]
fn a_tick_shows_the_new_frame() {
    let info = sheet();
    let mut anim = start(&info, "forward");
    let mut index = 99;
    update_animations(Duration::from_millis(49), &info, &mut anim, &mut index);
    assert_eq!(index, 99);
    update_animations(Duration::from_millis(1), &info, &mut anim, &mut index);
    assert_eq!(index, 2);
    anim.set_current_frame(&info, 4);
    assert_eq!(index, 2);
    refresh_animations(&anim, &mut index);
    assert_eq!(index, 4);
}

#[test]
fn tags_convert_from_text() {
    let tag = AsepriteTag::new("walk");
    assert_eq!(tag.as_str(), "walk");
    assert_eq!(&*tag, "walk");
    assert_eq!(AsepriteTag::from("walk"), tag);
    assert_eq!(AsepriteTag::from("walk".to_string()), tag);
    assert_eq!(tag.clone().into_string(), "walk");
    assert_eq!(AsepriteTag::default().as_str(), "");
}

#[test]
fn the_longest_time_is_not_walked_frame_by_frame() {
    let info = sheet();
    // the time of one round of each animation, in milliseconds
    let rounds: [(&str, u128); 7] = [
        ("forward", 50 + 200 + 10 + 70),
        ("reverse", 200 + 10 + 70 + 30 + 120),
        ("pingpong", 200 + 10 + 70 + 30 + 70 + 10),
        ("gnopgnip", 90 + 120 + 30 + 70 + 10 + 70 + 30 + 120),
        ("unknown", 70),
        ("one", 30),
        ("missing", 100 + 50 + 200 + 10 + 70 + 30 + 120 + 90),
    ];
    let longest = Duration::MAX.as_nanos();
    for (name, round) in rounds {
        let mut far = start(&info, name);
        assert!(far.update(&info, Duration::MAX));
        let mut near = start(&info, name);
        near.advance(&info, longest % (round * 1_000_000));
        assert_eq!(snapshot(&far), snapshot(&near), "{}", name);
        assert!(far.is_valid_for(&info));

        let mut off = start(&info, name);
        off.set_current_frame(&info, 5);
        off.advance(&info, 7_000_000);
        off.advance(&info, u128::MAX);
        assert!(off.is_valid_for(&info));
    }
}

#[test]
fn whole_rounds_lead_back_to_the_same_state() {
    let info = sheet();
    let mut anim = start(&info, "pingpong");
    anim.update(&info, Duration::from_millis(215));
    let before = snapshot(&anim);
    assert_eq!((before.1, before.2, before.3), (4, Duration::from_millis(5), true));
    // one round of frames 2, 3, 4, 5, 4, 3 takes 390 ms
    assert!(anim.update(&info, Duration::from_millis(390 * 1000)));
    assert_eq!(snapshot(&anim), before);
}

fn bounce(lo: usize, hi: usize, k: usize) -> usize {
    let width = hi - lo;
    let m = k % (2 * width);
    if m <= width {
        lo + m
    } else {
        lo + 2 * width - m
    }
}

#[test]
fn ping_pong_stands_where_the_walk_up_and_down_stands() {
    let info = sheet();
    let mut up = start(&info, "pingpong");
    let mut down = start(&info, "gnopgnip");
    for k in 0..40 {
        assert_eq!(up.current_frame(), bounce(2, 5, k));
        assert_eq!(up.is_forward(), k % 6 < 3);
        assert_eq!(down.current_frame(), bounce(3, 7, 4 + k));
        assert_eq!(down.is_forward(), (4 + k) % 8 < 4);
        up.next_frame(&info);
        down.next_frame(&info);
    }
    assert_eq!(bounce(2, 5, 0), 2);
    assert_eq!(bounce(2, 5, 3), 5);
    assert_eq!(bounce(2, 5, 4), 4);
    assert_eq!(bounce(2, 5, 6), 2);
}

#[test]
fn one_update_over_equal_frames_equals_as_many_updates_of_a_frame() {
    let info = info(
        vec![100; 6],
        vec![
            tag("forward", 0, 4, AnimationDirection::Forward),
            tag("reverse", 1, 5, AnimationDirection::Reverse),
            tag("pingpong", 1, 4, AnimationDirection::PingPong),
            tag("gnopgnip", 0, 5, AnimationDirection::PingPongReverse),
            tag("unknown", 2, 3, AnimationDirection::Unknown(9)),
        ],
    );
    for name in ["forward", "reverse", "pingpong", "gnopgnip", "unknown", "none"] {
        for n in [0u64, 1, 2, 3, 7, 50] {
            for r in [0u64, 1, 50, 99] {
                let mut at_once = start(&info, name);
                let mut one_by_one = start(&info, name);
                let stepped = at_once.update(&info, Duration::from_millis(100 * n + r));
                for _ in 0..n {
                    assert!(one_by_one.update(&info, Duration::from_millis(100)));
                }
                assert_eq!(stepped, n >= 1);
                assert_eq!(at_once.time_elapsed(), Duration::from_millis(r));
                assert_eq!(at_once.current_frame(), one_by_one.current_frame());
                assert_eq!(at_once.is_forward(), one_by_one.is_forward());
                assert_eq!(one_by_one.time_elapsed(), Duration::ZERO);
            }
        }
    }
}
