use gizmo::{normalize_frame_size, AnimationState, ErrorKind, Frame, FrameRenderer, GizmoError};

#[test]
fn test_frame_creation() {
    let data = vec![vec![true, false, true], vec![false, true, false]];

    let frame = Frame::from_array(data).unwrap();
    assert_eq!(frame.width, 3);
    assert_eq!(frame.height, 2);
    assert_eq!(frame.get_pixel(0, 0).unwrap(), true);
    assert_eq!(frame.get_pixel(1, 1).unwrap(), true);
    assert_eq!(frame.get_pixel(0, 1).unwrap(), false);
}

#[test]
fn test_count_neighbors() {
    let data = vec![
        vec![true, false, true],
        vec![false, true, false],
        vec![true, false, true],
    ];

    let frame = Frame::from_array(data).unwrap();

    // Center cell should have 4 neighbors
    assert_eq!(frame.count_neighbors(1, 1), 4);

    // Corner cell should have 1 neighbor
    assert_eq!(frame.count_neighbors(0, 0), 1);
}

#[test]
fn test_frame_rotation() {
    let data = vec![vec![true, false], vec![false, false]];

    let frame = Frame::from_array(data).unwrap();
    let rotated = frame.rotate_90();

    assert_eq!(rotated.width, 2);
    assert_eq!(rotated.height, 2);
    assert_eq!(rotated.get_pixel(0, 0).unwrap(), false);
    assert_eq!(rotated.get_pixel(0, 1).unwrap(), true);
}

fn frame(rows: &[&str]) -> Frame {
    let data: Vec<Vec<bool>> = rows
        .iter()
        .map(|r| r.chars().map(|c| c == '#').collect())
        .collect();
    Frame::from_array(data).unwrap()
}

#[test]
fn from_array_rejects_empty_input() {
    let e = Frame::from_array(vec![]).unwrap_err();
    assert!(matches!(e, GizmoError::InvalidFrameSize(_)));
    assert_eq!(e.error_kind(), ErrorKind::InvalidFrameSize);
    assert_eq!(e.to_text(), "Invalid frame size: Frame cannot be empty");
}

#[test]
fn from_array_rejects_ragged_rows_and_names_the_first() {
    let e = Frame::from_array(vec![
        vec![true, false, true],
        vec![true, false],
        vec![true],
    ])
    .unwrap_err();
    match e {
        GizmoError::InvalidFrameSize(msg) => {
            assert_eq!(msg, "Row 1 has length 2 but expected 3")
        }
        other => panic!("unexpected error {:?}", other),
    }
}

#[test]
fn from_array_accepts_rows_of_length_zero() {
    let f = Frame::from_array(vec![vec![], vec![]]).unwrap();
    assert_eq!(f.width, 0);
    assert_eq!(f.height, 2);
}

#[test]
fn from_array_keeps_the_rows() {
    let data = vec![vec![false, true], vec![true, true], vec![false, false]];
    let f = Frame::from_array(data.clone()).unwrap();
    assert_eq!(f.pixels, data);
    assert_eq!(f.get_data(), &data);
}

#[test]
fn new_frames_are_blank() {
    let f = Frame::new(3, 2);
    assert_eq!(f.width, 3);
    assert_eq!(f.height, 2);
    assert_eq!(f.pixels, vec![vec![false; 3]; 2]);
    assert_eq!(Frame::new_blank(3, 2), f);
    let empty = Frame::new(4, 0);
    assert_eq!(empty.width, 4);
    assert_eq!(empty.height, 0);
    assert!(empty.pixels.is_empty());
}

#[test]
fn get_pixel_out_of_range_is_an_index_error() {
    let f = frame(&["#.", ".#"]);
    let e = f.get_pixel(2, 0).unwrap_err();
    match e {
        GizmoError::IndexError(msg) => {
            assert_eq!(msg, "Pixel (2, 0) is out of bounds for 2x2 frame")
        }
        other => panic!("unexpected error {:?}", other),
    }
    assert!(matches!(f.get_pixel(0, 2), Err(GizmoError::IndexError(_))));
    assert!(matches!(
        f.get_pixel(usize::MAX, usize::MAX),
        Err(GizmoError::IndexError(_))
    ));
}

#[test]
fn set_pixel_changes_one_pixel_only() {
    let mut f = frame(&["...", "...", "..."]);
    f.set_pixel(1, 2, true).unwrap();
    assert_eq!(f, frame(&["...", "..#", "..."]));
    f.set_pixel(1, 2, false).unwrap();
    assert_eq!(f, frame(&["...", "...", "..."]));
}

#[test]
fn set_pixel_out_of_range_changes_nothing() {
    let mut f = frame(&["#.", ".#"]);
    let before = f.clone();
    assert!(matches!(f.set_pixel(0, 2, true), Err(GizmoError::IndexError(_))));
    assert!(matches!(f.set_pixel(2, 0, true), Err(GizmoError::IndexError(_))));
    assert_eq!(f, before);
}

#[test]
fn interior_cell_of_an_all_on_grid_has_eight_neighbors() {
    let f = frame(&["####", "####", "####"]);
    assert_eq!(f.count_neighbors(1, 1), 8);
    assert_eq!(f.count_neighbors(1, 2), 8);
}

#[test]
fn corner_cells_have_at_most_three_neighbors() {
    let f = frame(&["###", "###", "###"]);
    assert_eq!(f.count_neighbors(0, 0), 3);
    assert_eq!(f.count_neighbors(0, 2), 3);
    assert_eq!(f.count_neighbors(2, 0), 3);
    assert_eq!(f.count_neighbors(2, 2), 3);
    assert_eq!(f.count_neighbors(0, 1), 5);
}

#[test]
fn neighbors_do_not_wrap_around_the_edges() {
    let f = frame(&["#..#", "....", "#..#"]);
    assert_eq!(f.count_neighbors(0, 0), 0);
    assert_eq!(f.count_neighbors(1, 0), 2);
    assert_eq!(f.count_neighbors(0, 3), 0);
}

#[test]
fn neighbors_of_a_position_outside_the_frame() {
    let f = frame(&["##", "##"]);
    assert_eq!(f.count_neighbors(2, 2), 1);
    assert_eq!(f.count_neighbors(2, 0), 2);
    assert_eq!(f.count_neighbors(5, 5), 0);
    assert_eq!(f.count_neighbors(usize::MAX, usize::MAX), 0);
}

#[test]
fn the_counted_cell_itself_does_not_count() {
    let f = frame(&["...", ".#.", "..."]);
    assert_eq!(f.count_neighbors(1, 1), 0);
    assert_eq!(f.count_neighbors(0, 0), 1);
}

#[test]
fn flip_inverts_every_pixel() {
    let mut f = frame(&["#..", ".##"]);
    f.flip();
    assert_eq!(f, frame(&[".##", "#.."]));
    f.flip();
    assert_eq!(f, frame(&["#..", ".##"]));
}

#[test]
fn rotate_turns_clockwise_and_swaps_the_sides() {
    let f = frame(&["#..", "..."]);
    let r = f.rotate_90();
    assert_eq!(r.width, 2);
    assert_eq!(r.height, 3);
    assert_eq!(r, frame(&[".#", "..", ".."]));
    let f = frame(&["##.", "..#"]);
    assert_eq!(f.rotate_90(), frame(&[".#", ".#", "#."]));
}

#[test]
fn four_rotations_give_the_frame_back() {
    for f in [
        frame(&["#..", ".#.", "##."]),
        frame(&["#.#.#"]),
        frame(&["#", ".", "#"]),
        Frame::new(3, 0),
        Frame::new(0, 2),
    ] {
        let back = f.rotate_90().rotate_90().rotate_90().rotate_90();
        assert_eq!(back, f);
    }
}

#[test]
fn place_sprite_only_turns_pixels_on() {
    let mut dest = frame(&["#...", "....", "...#"]);
    let sprite = frame(&["#.", ".#"]);
    dest.place_sprite(&sprite, 1, 1);
    assert_eq!(dest, frame(&["#...", ".#..", "..##"]));
    let off = frame(&["..", ".."]);
    dest.place_sprite(&off, 0, 0);
    assert_eq!(dest, frame(&["#...", ".#..", "..##"]));
}

#[test]
fn place_sprite_clips_at_every_edge() {
    let sprite = frame(&["##", "##"]);
    let mut dest = Frame::new(3, 3);
    dest.place_sprite(&sprite, -1, -1);
    assert_eq!(dest, frame(&["#..", "...", "..."]));
    let mut dest = Frame::new(3, 3);
    dest.place_sprite(&sprite, 2, 2);
    assert_eq!(dest, frame(&["...", "...", "..#"]));
    let mut dest = Frame::new(3, 3);
    dest.place_sprite(&sprite, 3, 0);
    assert_eq!(dest, Frame::new(3, 3));
    let mut dest = Frame::new(3, 3);
    dest.place_sprite(&sprite, i32::MIN, i32::MAX);
    assert_eq!(dest, Frame::new(3, 3));
    let mut dest = Frame::new(3, 3);
    dest.place_sprite(&sprite, i32::MAX, i32::MIN);
    assert_eq!(dest, Frame::new(3, 3));
}

#[test]
fn place_sprite_takes_x_as_column_and_y_as_row() {
    let sprite = frame(&["#"]);
    let mut dest = Frame::new(3, 2);
    dest.place_sprite(&sprite, 2, 1);
    assert_eq!(dest, frame(&["...", "..#"]));
}

#[test]
fn duplicate_and_same_as_agree_with_equality() {
    let f = frame(&["#.", ".#"]);
    let g = f.duplicate();
    assert_eq!(f, g);
    assert!(f.same_as(&g));
    assert!(!f.same_as(&frame(&["#.", ".."])));
    assert!(!f.same_as(&frame(&["#.", ".#", ".."])));
    assert!(!Frame::new(2, 0).same_as(&Frame::new(3, 0)));
}

#[test]
fn render_ascii_uses_hash_and_dot() {
    let r = FrameRenderer::new(128, 128);
    assert_eq!(r.width, 128);
    assert_eq!(r.height, 128);
    assert_eq!(r.render_ascii(&frame(&["#.", ".#"])), "#.\n.#\n");
    assert_eq!(r.render_ascii(&Frame::new(2, 0)), "");
}

#[test]
fn render_frame_uses_block_and_space() {
    let r = FrameRenderer::new(2, 2);
    assert_eq!(r.render_frame(&frame(&["#.", ".#"])), "\u{2588} \n \u{2588}\n");
}

#[test]
fn normalize_leaves_a_fitting_frame_alone() {
    let mut f = frame(&["#.", ".#"]);
    normalize_frame_size(&mut f, 2, 2);
    assert_eq!(f, frame(&["#.", ".#"]));
}

#[test]
fn normalize_centers_in_a_larger_target() {
    let mut f = frame(&["##", "##"]);
    normalize_frame_size(&mut f, 6, 4);
    assert_eq!(f, frame(&["......", "..##..", "..##..", "......"]));
    let mut f = frame(&["#"]);
    normalize_frame_size(&mut f, 4, 4);
    assert_eq!(f, frame(&["....", ".#..", "....", "...."]));
}

#[test]
fn normalize_cuts_off_at_the_right_and_bottom() {
    let mut f = frame(&["#..#", ".##.", "#..#"]);
    normalize_frame_size(&mut f, 2, 2);
    assert_eq!(f, frame(&["#.", ".#"]));
    let mut f = frame(&["#.#"]);
    normalize_frame_size(&mut f, 2, 3);
    assert_eq!(f, frame(&["..", "#.", ".."]));
}

#[test]
fn animation_starts_at_the_first_frame() {
    let a = AnimationState::new(vec![Frame::new(1, 1), Frame::new(2, 2)], true, 100);
    assert_eq!(a.current_frame, 0);
    assert_eq!(a.last_frame_time, 0);
    assert_eq!(a.frame_duration, 100);
    assert!(a.loop_animation);
    assert_eq!(a.frames.len(), 2);
}

#[test]
fn animation_advances_when_the_duration_has_passed() {
    let frames = vec![Frame::new(1, 1), Frame::new(2, 2), Frame::new(3, 3)];
    let mut a = AnimationState::new(frames.clone(), true, 100);
    assert_eq!(a.update(99), Some(&frames[0]));
    assert_eq!(a.current_frame, 0);
    assert_eq!(a.last_frame_time, 0);
    assert_eq!(a.update(100), Some(&frames[1]));
    assert_eq!(a.last_frame_time, 100);
    assert_eq!(a.update(150), Some(&frames[1]));
    assert_eq!(a.update(200), Some(&frames[2]));
    assert_eq!(a.update(300), Some(&frames[0]));
    assert_eq!(a.current_frame, 0);
}

#[test]
fn animation_without_loop_rests_on_the_last_frame() {
    let frames = vec![Frame::new(1, 1), Frame::new(2, 2)];
    let mut a = AnimationState::new(frames.clone(), false, 10);
    assert!(!a.is_finished());
    assert_eq!(a.update(10), Some(&frames[1]));
    assert!(a.is_finished());
    assert_eq!(a.update(20), Some(&frames[1]));
    assert_eq!(a.current_frame, 1);
    assert!(a.is_finished());
    a.reset();
    assert_eq!(a.current_frame, 0);
    assert_eq!(a.last_frame_time, 0);
    assert!(!a.is_finished());
}

#[test]
fn animation_without_frames_shows_nothing() {
    let mut a = AnimationState::new(vec![], true, 10);
    assert_eq!(a.update(1000), None);
    assert_eq!(a.current_frame, 0);
    assert_eq!(a.last_frame_time, 0);
    assert!(!a.is_finished());
    let b = AnimationState::new(vec![], false, 10);
    assert!(b.is_finished());
}

#[test]
fn animation_ignores_a_time_before_the_last_change() {
    let frames = vec![Frame::new(1, 1), Frame::new(2, 2)];
    let mut a = AnimationState::new(frames.clone(), true, 10);
    assert_eq!(a.update(50), Some(&frames[1]));
    assert_eq!(a.update(40), Some(&frames[1]));
    assert_eq!(a.last_frame_time, 50);
}

#[test]
fn a_looping_animation_is_never_finished() {
    let mut a = AnimationState::new(vec![Frame::new(1, 1)], true, 1);
    a.update(5);
    assert!(!a.is_finished());
}

#[test]
fn the_default_picture_is_a_face() {
    let f = gizmo::create_default_smiley();
    assert_eq!(f.width, 128);
    assert_eq!(f.height, 128);
    let mut expected = vec![vec![false; 128]; 128];
    for x in 50..=58 {
        for y in 50..=58 {
            expected[y][x] = true;
        }
    }
    for x in 70..=78 {
        for y in 50..=58 {
            expected[y][x] = true;
        }
    }
    for x in 55..=73 {
        expected[75][x] = true;
        expected[80][x] = true;
    }
    expected[76][55] = true;
    expected[77][56] = true;
    expected[78][57] = true;
    expected[79][58] = true;

    expected[76][73] = true;
    expected[77][72] = true;
    expected[78][71] = true;
    expected[79][70] = true;
    assert_eq!(f.pixels, expected);
}
