//! Per-viewer map-editing state: walls, decay, placed lights, debounce.
//!
//! An interactive front end edits the decay field by toggling wall cells
//! under the cursor and placing lights.  That state is explicit here, one
//! value per viewer — including the tracked "last toggled cell" that
//! debounces wall toggling while a button is held — never process-wide
//! mutable state.  The invariant ties the decay buffer to the wall mask:
//! a wall cell carries the wall decay, every other cell the base decay.

use vstd::prelude::*;
use crate::engine::{LightSource, Sweeping, lemma_light_index_in_range};
use crate::lights::{combine_lights, spec_combine_lights};

verus! {

/// Editable map state for one viewer.
pub struct MapEditor {
    pub width: usize,
    pub height: usize,
    /// Flat row-major decay buffer handed to the engine.
    pub decay: Vec<u64>,
    /// Which cells are walls.
    pub walls: Vec<bool>,
    /// Decay of a non-wall cell, in fixed-point units.
    pub base_decay: u64,
    /// Decay of a wall cell, in fixed-point units.
    pub wall_decay: u64,
    /// The cell last toggled while the button has been held, for debounce.
    pub last_toggled: Option<(usize, usize)>,
    /// Lights placed on the map.
    pub lights: Vec<LightSource>,
}

impl MapEditor {
    /// The editor's invariant: buffers match the grid shape, the decay
    /// buffer agrees with the wall mask everywhere, and every placed light
    /// lies inside the grid.
    pub open spec fn wf(&self) -> bool {
        &&& self.decay@.len() == self.width * self.height
        &&& self.walls@.len() == self.width * self.height
        &&& forall|i: int|
            0 <= i < self.decay@.len() ==> self.decay@[i] == (if self.walls@[i] {
                self.wall_decay
            } else {
                self.base_decay
            })
        &&& forall|i: int|
            0 <= i < self.lights@.len() ==> (#[trigger] self.lights@[i]).x < self.width
                && self.lights@[i].y < self.height
    }

    /// A wall-free map of the given shape.
    pub fn new(width: usize, height: usize, base_decay: u64, wall_decay: u64) -> (r: MapEditor)
        requires
            width * height <= usize::MAX,
        ensures
            r.wf(),
            r.width == width,
            r.height == height,
            r.base_decay == base_decay,
            r.wall_decay == wall_decay,
            r.last_toggled is None,
            r.lights@.len() == 0,
            forall|i: int| 0 <= i < r.walls@.len() ==> !r.walls@[i],
    {
        let n: usize = width * height;
        let mut decay: Vec<u64> = Vec::new();
        let mut walls: Vec<bool> = Vec::new();
        while decay.len() < n
            invariant
                decay@.len() == walls@.len() <= n,
                forall|i: int| 0 <= i < decay@.len() ==> decay@[i] == base_decay,
                forall|i: int| 0 <= i < walls@.len() ==> !walls@[i],
            decreases n - decay@.len(),
        {
            decay.push(base_decay);
            walls.push(false);
        }
        MapEditor {
            width,
            height,
            decay,
            walls,
            base_decay,
            wall_decay,
            last_toggled: None,
            lights: Vec::new(),
        }
    }

    /// Flips the wall at one cell and keeps the decay buffer consistent.
    pub fn toggle_wall(&mut self, x: usize, y: usize)
        requires
            old(self).wf(),
            x < old(self).width,
            y < old(self).height,
        ensures
            final(self).wf(),
            final(self).walls@[y * final(self).width + x] == !old(self).walls@[y * old(self).width + x],
            forall|i: int|
                0 <= i < old(self).walls@.len() && i != y * old(self).width + x ==> final(self).walls@[i] == old(self).walls@[i],
            final(self).width == old(self).width,
            final(self).height == old(self).height,
            final(self).base_decay == old(self).base_decay,
            final(self).wall_decay == old(self).wall_decay,
            final(self).last_toggled == old(self).last_toggled,
            final(self).lights == old(self).lights,
    {
        let _n: usize = self.decay.len();
        proof {
            lemma_light_index_in_range(
                self.width as int,
                self.height as int,
                x as int,
                y as int,
            );
        }
        let idx: usize = y * self.width + x;
        let now_wall: bool = !self.walls[idx];
        self.walls.set(idx, now_wall);
        let d: u64 = if now_wall {
            self.wall_decay
        } else {
            self.base_decay
        };
        self.decay.set(idx, d);
    }

    /// A press at a cell: toggles the wall there unless that cell was the
    /// last one toggled during this hold, and records it.  Repeated events
    /// over one cell while the button is held toggle it only once.
    pub fn cursor_pressed(&mut self, x: usize, y: usize)
        requires
            old(self).wf(),
            x < old(self).width,
            y < old(self).height,
        ensures
            final(self).wf(),
            final(self).last_toggled == Some((x, y)),
            old(self).last_toggled == Some((x, y)) ==> final(self).walls == old(self).walls
                && final(self).decay == old(self).decay,
            old(self).last_toggled != Some((x, y)) ==> final(self).walls@[y * old(self).width + x]
                == !old(self).walls@[y * old(self).width + x],
            final(self).width == old(self).width,
            final(self).height == old(self).height,
            final(self).lights == old(self).lights,
    {
        let already = match self.last_toggled {
            Some((lx, ly)) => lx == x && ly == y,
            None => false,
        };
        if !already {
            self.toggle_wall(x, y);
            self.last_toggled = Some((x, y));
        }
    }

    /// A release of the button: the next press toggles again wherever it
    /// lands.
    pub fn cursor_released(&mut self)
        requires
            old(self).wf(),
        ensures
            final(self).wf(),
            final(self).last_toggled is None,
            final(self).walls == old(self).walls,
            final(self).decay == old(self).decay,
            final(self).width == old(self).width,
            final(self).height == old(self).height,
            final(self).lights == old(self).lights,
    {
        self.last_toggled = None;
    }

    /// Removes every wall; the whole buffer returns to the base decay.
    pub fn clear_walls(&mut self)
        requires
            old(self).wf(),
        ensures
            final(self).wf(),
            forall|i: int| 0 <= i < final(self).walls@.len() ==> !final(self).walls@[i],
            forall|i: int| 0 <= i < final(self).decay@.len() ==> final(self).decay@[i] == final(self).base_decay,
            final(self).width == old(self).width,
            final(self).height == old(self).height,
            final(self).base_decay == old(self).base_decay,
            final(self).wall_decay == old(self).wall_decay,
            final(self).lights == old(self).lights,
    {
        let n: usize = self.walls.len();
        let mut i: usize = 0;
        while i < n
            invariant
                n == old(self).walls@.len(),
                self.walls@.len() == n,
                self.decay@.len() == n,
                0 <= i <= n,
                forall|j: int| 0 <= j < i ==> !self.walls@[j],
                forall|j: int| 0 <= j < i ==> self.decay@[j] == self.base_decay,
                self.width == old(self).width,
                self.height == old(self).height,
                self.base_decay == old(self).base_decay,
                self.wall_decay == old(self).wall_decay,
                self.last_toggled == old(self).last_toggled,
                self.lights == old(self).lights,
            decreases n - i,
        {
            self.walls.set(i, false);
            let d: u64 = self.base_decay;
            self.decay.set(i, d);
            i = i + 1;
        }
    }

    /// Changes the decay of open cells, preserving walls.
    pub fn set_base_decay(&mut self, base_decay: u64)
        requires
            old(self).wf(),
        ensures
            final(self).wf(),
            final(self).base_decay == base_decay,
            final(self).walls == old(self).walls,
            final(self).width == old(self).width,
            final(self).height == old(self).height,
            final(self).wall_decay == old(self).wall_decay,
            final(self).lights == old(self).lights,
    {
        self.base_decay = base_decay;
        let n: usize = self.walls.len();
        let mut i: usize = 0;
        while i < n
            invariant
                n == self.walls@.len(),
                self.decay@.len() == n,
                self.base_decay == base_decay,
                0 <= i <= n,
                forall|j: int|
                    0 <= j < i ==> self.decay@[j] == (if self.walls@[j] {
                        self.wall_decay
                    } else {
                        self.base_decay
                    }),
                forall|j: int|
                    i <= j < n ==> self.decay@[j] == (if self.walls@[j] {
                        old(self).wall_decay
                    } else {
                        old(self).base_decay
                    }),
                self.walls == old(self).walls,
                self.width == old(self).width,
                self.height == old(self).height,
                self.wall_decay == old(self).wall_decay,
                self.last_toggled == old(self).last_toggled,
                self.lights == old(self).lights,
            decreases n - i,
        {
            if !self.walls[i] {
                self.decay.set(i, base_decay);
            } else {
                let d: u64 = self.wall_decay;
                self.decay.set(i, d);
            }
            i = i + 1;
        }
    }

    /// Places a full-intensity light at a cell, unless the cell is a wall.
    /// Returns whether the light was placed.
    pub fn place_light(&mut self, x: usize, y: usize) -> (placed: bool)
        requires
            old(self).wf(),
            x < old(self).width,
            y < old(self).height,
        ensures
            final(self).wf(),
            placed == !old(self).walls@[y * old(self).width + x],
            placed ==> final(self).lights@ == old(self).lights@.push(
                LightSource { x, y, intensity: crate::fixed::SCALE },
            ),
            !placed ==> final(self).lights == old(self).lights,
            final(self).walls == old(self).walls,
            final(self).decay == old(self).decay,
            final(self).width == old(self).width,
            final(self).height == old(self).height,
    {
        let _n: usize = self.decay.len();
        proof {
            lemma_light_index_in_range(
                self.width as int,
                self.height as int,
                x as int,
                y as int,
            );
        }
        let idx: usize = y * self.width + x;
        if !self.walls[idx] {
            self.lights.push(LightSource::new(x, y));
            true
        } else {
            false
        }
    }

    /// Removes every placed light.
    pub fn clear_lights(&mut self)
        requires
            old(self).wf(),
        ensures
            final(self).wf(),
            final(self).lights@.len() == 0,
            final(self).walls == old(self).walls,
            final(self).decay == old(self).decay,
            final(self).width == old(self).width,
            final(self).height == old(self).height,
    {
        self.lights = Vec::new();
    }

    /// The combined attenuation grid of all placed lights over the current
    /// decay field.
    pub fn lighting(&self, config: &Sweeping) -> (r: Vec<u64>)
        requires
            self.wf(),
        ensures
            r@ == spec_combine_lights(
                self.decay@,
                self.width as int,
                self.height as int,
                self.lights@,
                config.diagonal_decay_mult,
            ),
    {
        let result = combine_lights(&self.decay, self.width, self.height, &self.lights, config);
        match result {
            Ok(grid) => grid,
            // Unreachable: the invariant keeps every light in bounds and
            // the buffers shaped, so the checked entry cannot refuse.
            Err(_) => Vec::new(),
        }
    }
}

} // verus!
