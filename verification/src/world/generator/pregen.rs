//! The order in which the chunks around a centre are made ahead of time.

use vstd::prelude::*;

verus! {

/// Walks the chunks around a centre, ring by ring.
#[derive(Debug, Clone, Copy, PartialEq, Eq)]
pub struct Pregenerator {
    pub center_x: i32,
    pub center_z: i32,
    pub radius: i32,
    pub current_r: i32,
    pub current_step: i32,
    pub is_finished: bool,
}

/// Where a pregenerator stands once it has found that it is done.
pub open spec fn finished(state: Pregenerator) -> Pregenerator {
    Pregenerator { is_finished: true, ..state }
}

/// What asking a pregenerator for its next chunk gives: the pregenerator
/// afterwards, and the chunk, if there is one left.
///
/// The first chunk is the centre. After it the pregenerator counts the
/// steps of each ring, eight times the ring's number of them, and gives
/// for each step the chunk at that place of the square around the centre,
/// row by row. It is done when the rings or the square are used up.
pub open spec fn pregen_next(state: Pregenerator) -> (Pregenerator, Option<(int, int)>) {
    if state.current_r > state.radius {
        (finished(state), None)
    } else if state.current_r == 0 {
        (
            Pregenerator { current_r: 1, ..state },
            Some((state.center_x as int, state.center_z as int)),
        )
    } else {
        let wrapped = state.current_step >= 8 * state.current_r;
        let ring = if wrapped {
            state.current_r + 1
        } else {
            state.current_r as int
        };
        let step = if wrapped {
            0
        } else {
            state.current_step as int
        };
        let moved = Pregenerator { current_r: ring as i32, current_step: step as i32, ..state };
        let width = state.radius * 2 + 1;
        if ring > state.radius || step >= width * width {
            (finished(moved), None)
        } else {
            (
                Pregenerator { current_step: (step + 1) as i32, ..moved },
                Some(
                    (
                        state.center_x + step % width - state.radius,
                        state.center_z + step / width - state.radius,
                    ),
                ),
            )
        }
    }
}

impl Pregenerator {
    /// A pregenerator around the chunk 0, 0 that has given no chunk yet.
    pub fn new(radius: i32) -> (pregenerator: Pregenerator)
        ensures
            pregenerator == (Pregenerator {
                center_x: 0,
                center_z: 0,
                radius,
                current_r: 0,
                current_step: 0,
                is_finished: false,
            }),
            8 * (radius + 1) <= i32::MAX ==> pregenerator.in_range(),
    {
        Pregenerator {
            center_x: 0,
            center_z: 0,
            radius,
            current_r: 0,
            current_step: 0,
            is_finished: false,
        }
    }

    /// Whether every chunk the pregenerator can give has coordinates that
    /// are 32-bit numbers, and its counters are where its own steps leave
    /// them.
    pub open spec fn in_range(&self) -> bool {
        &&& 0 <= self.current_r
        &&& 0 <= self.current_step
        &&& self.radius >= 0 ==> {
            &&& self.current_r <= self.radius + 1
            &&& self.current_step <= 8 * (self.radius + 1)
            &&& 8 * (self.radius + 1) <= i32::MAX
            &&& i32::MIN <= self.center_x - self.radius
            &&& self.center_x + self.radius <= i32::MAX
            &&& i32::MIN <= self.center_z - self.radius
            &&& self.center_z + self.radius <= i32::MAX
        }
    }

    /// The next chunk to make, if the pregenerator is not done.
    pub fn next_chunk(&mut self) -> (chunk: Option<(i32, i32)>)
        requires
            old(self).in_range(),
        ensures
            *final(self) == pregen_next(*old(self)).0,
            match pregen_next(*old(self)).1 {
                Some((x, z)) => chunk == Some((x as i32, z as i32)) && i32::MIN <= x <= i32::MAX
                    && i32::MIN <= z <= i32::MAX,
                None => chunk is None,
            },
            final(self).in_range(),
    {
        if self.current_r > self.radius {
            self.is_finished = true;
            return None;
        }
        if self.current_r == 0 {
            self.current_r += 1;
            return Some((self.center_x, self.center_z));
        }
        let perimeter: i64 = 8 * self.current_r as i64;
        if self.current_step as i64 >= perimeter {
            self.current_step = 0;
            self.current_r += 1;
            if self.current_r > self.radius {
                self.is_finished = true;
                return None;
            }
        }
        let width: i64 = self.radius as i64 * 2 + 1;
        assert(0 < width * width <= 0x1_0000_0000 * 0x1_0000_0000) by (nonlinear_arith)
            requires
                0 < width <= 0x1_0000_0000,
        ;
        let area: i128 = width as i128 * width as i128;
        if self.current_step as i128 >= area {
            self.is_finished = true;
            return None;
        }
        let step: i64 = self.current_step as i64;
        let x: i64 = step % width - self.radius as i64;
        let z: i64 = step / width - self.radius as i64;
        assert(step / width < width) by (nonlinear_arith)
            requires
                0 <= step < width * width,
                0 < width,
        ;
        self.current_step += 1;
        Some(((self.center_x as i64 + x) as i32, (self.center_z as i64 + z) as i32))
    }
}

} // verus!
