//! The drawing modes and how gestures move between them.
use vstd::prelude::*;
use crate::canvas::{AppState, draw_line, paint};
use crate::event::Event;
use crate::line::line_pixels_spec;

verus! {

/// The drawing mode. `Pencil` joins successive touches; `Line` takes an
/// anchor, waits for the finger to lift, and draws to the next touch;
/// `Selection` ignores gestures.
#[derive(Debug, Clone, Copy, PartialEq, Eq)]
pub enum Mode {
    Pencil { prev: Option<(u32, u32)> },
    Line { start: Option<(u32, u32)>, lifted: bool },
    Selection,
}

pub open spec fn inside(p: (u32, u32), w: u32, h: u32) -> bool {
    p.0 < w && p.1 < h
}

/// A line between two points.
pub type Segment = ((u32, u32), (u32, u32));

impl Mode {
    /// Every held point lies on a `w` by `h` canvas, and a line mode that has
    /// seen the finger lift holds an anchor.
    pub open spec fn wf(self, w: u32, h: u32) -> bool {
        match self {
            Mode::Pencil { prev } => prev is Some ==> inside(prev->Some_0, w, h),
            Mode::Line { start, lifted } => match start {
                Some(p) => inside(p, w, h),
                None => !lifted,
            },
            Mode::Selection => true,
        }
    }

    /// The mode that follows a gesture on a `w` by `h` canvas, and the line
    /// that the gesture draws, if any.
    pub open spec fn next(self, ev: Event, w: u32, h: u32) -> (Mode, Option<Segment>) {
        match self {
            Mode::Pencil { prev } => match ev {
                Event::Touch(x, y) => if inside((x, y), w, h) {
                    (
                        Mode::Pencil { prev: Some((x, y)) },
                        match prev {
                            Some(p) => Some((p, (x, y))),
                            None => None,
                        },
                    )
                } else {
                    (Mode::Pencil { prev: None }, None)
                },
                Event::FingerLifted => (Mode::Pencil { prev: None }, None),
            },
            Mode::Line { start: None, lifted: _ } => match ev {
                Event::Touch(x, y) => if inside((x, y), w, h) {
                    (Mode::Line { start: Some((x, y)), lifted: false }, None)
                } else {
                    (self, None)
                },
                Event::FingerLifted => (self, None),
            },
            Mode::Line { start: Some(p), lifted: false } => match ev {
                Event::FingerLifted => (Mode::Line { start: Some(p), lifted: true }, None),
                Event::Touch(_, _) => (self, None),
            },
            Mode::Line { start: Some(p), lifted: true } => match ev {
                Event::Touch(x, y) => if inside((x, y), w, h) {
                    (Mode::Line { start: None, lifted: false }, Some((p, (x, y))))
                } else {
                    (self, None)
                },
                Event::FingerLifted => (self, None),
            },
            Mode::Selection => (Mode::Selection, None),
        }
    }

    /// The mode that follows `ev` on a `w` by `h` canvas, and the line to
    /// draw for it, if any.
    pub fn transition(self, ev: Event, w: u32, h: u32) -> (r: (Mode, Option<Segment>))
        requires
            self.wf(w, h),
        ensures
            r == self.next(ev, w, h),
            r.0.wf(w, h),
            r.1 matches Some(s) ==> inside(s.0, w, h) && inside(s.1, w, h),
    {
        match self {
            Mode::Pencil { prev } => match ev {
                Event::Touch(x, y) => {
                    if x < w && y < h {
                        let line = match prev {
                            Some(p) => Some((p, (x, y))),
                            None => None,
                        };
                        (Mode::Pencil { prev: Some((x, y)) }, line)
                    } else {
                        (Mode::Pencil { prev: None }, None)
                    }
                },
                Event::FingerLifted => (Mode::Pencil { prev: None }, None),
            },
            Mode::Line { start: None, lifted: _ } => match ev {
                Event::Touch(x, y) => {
                    if x < w && y < h {
                        (Mode::Line { start: Some((x, y)), lifted: false }, None)
                    } else {
                        (self, None)
                    }
                },
                Event::FingerLifted => (self, None),
            },
            Mode::Line { start: Some(p), lifted: false } => match ev {
                Event::FingerLifted => (Mode::Line { start: Some(p), lifted: true }, None),
                Event::Touch(_, _) => (self, None),
            },
            Mode::Line { start: Some(p), lifted: true } => match ev {
                Event::Touch(x, y) => {
                    if x < w && y < h {
                        (Mode::Line { start: None, lifted: false }, Some((p, (x, y))))
                    } else {
                        (self, None)
                    }
                },
                Event::FingerLifted => (self, None),
            },
            Mode::Selection => (Mode::Selection, None),
        }
    }

    /// Applies a gesture: draws the line that it calls for, if any, and
    /// returns the next mode.
    pub fn handle_input(self, state: &mut AppState, ev: Event) -> (r: Mode)
        requires
            old(state).wf(),
            self.wf(old(state).w, old(state).h),
        ensures
            r == self.next(ev, old(state).w, old(state).h).0,
            r.wf(old(state).w, old(state).h),
            final(state).wf(),
            final(state).w == old(state).w,
            final(state).h == old(state).h,
            final(state).draw_color == old(state).draw_color,
            final(state).pixels() == match self.next(ev, old(state).w, old(state).h).1 {
                Some(s) => paint(old(state).pixels(), line_pixels_spec(s.0, s.1), old(state).draw_color),
                None => old(state).pixels(),
            },
    {
        let (next, line) = self.transition(ev, state.w, state.h);
        if let Some((a, b)) = line {
            draw_line(state, a, b);
        }
        next
    }
}

/// A line mode that holds an anchor and has not yet seen the finger lift
/// ignores every touch: it keeps its anchor and draws nothing.
pub proof fn lemma_touch_before_lift_ignored(p: (u32, u32), x: u32, y: u32, w: u32, h: u32)
    ensures
        (Mode::Line { start: Some(p), lifted: false }).next(Event::Touch(x, y), w, h) == (
            Mode::Line { start: Some(p), lifted: false },
            None::<Segment>,
        ),
{
}

} // verus!
