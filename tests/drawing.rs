use touchpad_draw::canvas::{draw_line, AppState, BLACK, WHITE};
use touchpad_draw::event::Event;
use touchpad_draw::line::line_pixels;
use touchpad_draw::mode::Mode;

fn painted(state: &AppState) -> Vec<(u32, u32)> {
    let mut v = Vec::new();
    for y in 0..state.h {
        for x in 0..state.w {
            if state.pixel(x, y) != WHITE {
                v.push((x, y));
            }
        }
    }
    v
}

#[test]
fn pencil_joins_successive_touches() {
    let m = Mode::Pencil { prev: None };
    let (m, line) = m.transition(Event::Touch(5, 5), 11, 11);
    assert_eq!(line, None);
    assert_eq!(m, Mode::Pencil { prev: Some((5, 5)) });
    let (m, line) = m.transition(Event::Touch(10, 5), 11, 11);
    assert_eq!(line, Some(((5, 5), (10, 5))));
    assert_eq!(m, Mode::Pencil { prev: Some((10, 5)) });
}

#[test]
fn pencil_draws_on_canvas() {
    let mut state = AppState::new(11, 11);
    let m = Mode::Pencil { prev: None };
    let m = m.handle_input(&mut state, Event::Touch(5, 5));
    assert!(painted(&state).is_empty());
    let m = m.handle_input(&mut state, Event::Touch(10, 5));
    assert_eq!(m, Mode::Pencil { prev: Some((10, 5)) });
    assert_eq!(painted(&state), vec![(5, 5), (6, 5), (7, 5), (8, 5), (9, 5), (10, 5)]);
    assert_eq!(state.pixel(7, 5), BLACK);
}

#[test]
fn pencil_resets_on_lift_and_out_of_bounds() {
    let m = Mode::Pencil { prev: Some((1, 1)) };
    assert_eq!(m.transition(Event::FingerLifted, 4, 4), (Mode::Pencil { prev: None }, None));
    assert_eq!(m.transition(Event::Touch(4, 0), 4, 4), (Mode::Pencil { prev: None }, None));
    assert_eq!(m.transition(Event::Touch(0, 9), 4, 4), (Mode::Pencil { prev: None }, None));
}

#[test]
fn straight_line_waits_for_lift() {
    let m = Mode::Line { start: None, lifted: false };
    let (m, l1) = m.transition(Event::Touch(0, 0), 8, 8);
    assert_eq!(m, Mode::Line { start: Some((0, 0)), lifted: false });
    let (m, l2) = m.transition(Event::Touch(2, 3), 8, 8);
    assert_eq!(m, Mode::Line { start: Some((0, 0)), lifted: false });
    let (m, l3) = m.transition(Event::FingerLifted, 8, 8);
    assert_eq!(m, Mode::Line { start: Some((0, 0)), lifted: true });
    let (m, l4) = m.transition(Event::Touch(4, 4), 8, 8);
    assert_eq!(m, Mode::Line { start: None, lifted: false });
    assert_eq!((l1, l2, l3), (None, None, None));
    assert_eq!(l4, Some(((0, 0), (4, 4))));
}

#[test]
fn straight_line_draws_once() {
    let mut state = AppState::new(8, 8);
    let mut m = Mode::Line { start: None, lifted: false };
    m = m.handle_input(&mut state, Event::Touch(0, 0));
    m = m.handle_input(&mut state, Event::Touch(6, 6));
    assert!(painted(&state).is_empty());
    m = m.handle_input(&mut state, Event::FingerLifted);
    m = m.handle_input(&mut state, Event::Touch(4, 4));
    assert_eq!(m, Mode::Line { start: None, lifted: false });
    assert_eq!(painted(&state), vec![(0, 0), (1, 0), (2, 1), (3, 2), (4, 3)]);
}

#[test]
fn selection_ignores_gestures() {
    let mut state = AppState::new(4, 4);
    let m = Mode::Selection.handle_input(&mut state, Event::Touch(1, 1));
    assert_eq!(m, Mode::Selection);
    assert_eq!(Mode::Selection.transition(Event::FingerLifted, 4, 4), (Mode::Selection, None));
    assert!(painted(&state).is_empty());
}

#[test]
fn vertical_line_paints_each_row_once() {
    assert_eq!(line_pixels((3, 3), (3, 7)), vec![(3, 3), (3, 4), (3, 5), (3, 6), (3, 7)]);
    assert_eq!(line_pixels((2, 4), (2, 1)), vec![(2, 4), (2, 3), (2, 2), (2, 1)]);
    assert_eq!(line_pixels((6, 6), (6, 6)), vec![(6, 6)]);
}

#[test]
fn diagonal_line_is_monotonic_without_gaps() {
    let p = line_pixels((0, 0), (3, 3));
    assert_eq!(p, vec![(0, 0), (1, 0), (1, 0), (2, 1), (2, 1), (3, 2), (3, 2)]);
    for w in p.windows(2) {
        assert!(w[1].0 >= w[0].0 && w[1].0 - w[0].0 <= 1);
        assert!(w[1].1 >= w[0].1 && w[1].1 - w[0].1 <= 1);
    }
}

#[test]
fn other_lines() {
    assert_eq!(line_pixels((2, 1), (5, 1)), vec![(2, 1), (3, 1), (4, 1), (5, 1)]);
    assert_eq!(line_pixels((0, 0), (4, 1)), vec![(0, 0), (1, 0), (2, 0), (2, 0), (3, 1), (4, 1)]);
    assert_eq!(
        line_pixels((4, 4), (0, 0)),
        vec![(4, 4), (3, 4), (3, 4), (2, 3), (2, 3), (1, 2), (1, 2), (0, 1), (0, 1)]
    );
    assert_eq!(
        line_pixels((0, 0), (1, 5)),
        vec![(0, 0), (1, 0), (1, 0), (1, 1), (1, 2), (1, 3), (1, 4)]
    );
}

#[test]
fn drawing_twice_paints_the_same_pixels() {
    let mut state = AppState::new(9, 9);
    assert_eq!(line_pixels((1, 2), (7, 5)), line_pixels((1, 2), (7, 5)));
    draw_line(&mut state, (1, 2), (7, 5));
    let once = state.rgb_bytes();
    draw_line(&mut state, (1, 2), (7, 5));
    assert_eq!(state.rgb_bytes(), once);
}

#[test]
fn canvas_starts_white_and_takes_colour() {
    let mut state = AppState::new(4, 3);
    assert_eq!(state.pixel(3, 2), WHITE);
    let bytes = state.rgb_bytes();
    assert_eq!(bytes.len(), 36);
    assert!(bytes.iter().all(|b| *b == 255));
    state.draw_color = (255, 0, 0);
    draw_line(&mut state, (3, 2), (3, 2));
    assert_eq!(state.pixel(3, 2), (255, 0, 0));
    let bytes = state.rgb_bytes();
    assert_eq!(&bytes[33..36], &[255, 0, 0]);
    assert_eq!(&bytes[30..33], &[255, 255, 255]);
}
