//! Four decaying scent fields over the world's cells.
use vstd::prelude::*;

use crate::{cell_index, in_bounds, index_of, lemma_cell_index, CELLS};

verus! {

/// The kinds of scent an ant can lay or follow.
#[derive(Debug, Clone, Copy, PartialEq, Eq, Structural)]
pub enum PheromoneType {
    /// Draws diggers.
    Dig,
    /// Draws foragers toward leaves.
    Forage,
    /// Marks the way back to the nest.
    Home,
    /// Keeps ants away.
    Avoid,
}

impl Default for PheromoneType {
    fn default() -> (r: PheromoneType)
        ensures
            r == PheromoneType::Dig,
    {
        PheromoneType::Dig
    }
}

impl PheromoneType {
    /// The display name of the scent.
    pub fn name(&self) -> (r: &'static str)
        ensures
            *self == PheromoneType::Dig ==> r@ == "Dig"@,
            *self == PheromoneType::Forage ==> r@ == "Forage"@,
            *self == PheromoneType::Home ==> r@ == "Home"@,
            *self == PheromoneType::Avoid ==> r@ == "Avoid"@,
    {
        match self {
            PheromoneType::Dig => "Dig",
            PheromoneType::Forage => "Forage",
            PheromoneType::Home => "Home",
            PheromoneType::Avoid => "Avoid",
        }
    }

    /// The kind that follows this one in the cycle Dig, Forage, Home, Avoid.
    pub fn next(&self) -> (r: PheromoneType)
        ensures
            r == match *self {
                PheromoneType::Dig => PheromoneType::Forage,
                PheromoneType::Forage => PheromoneType::Home,
                PheromoneType::Home => PheromoneType::Avoid,
                PheromoneType::Avoid => PheromoneType::Dig,
            },
    {
        match self {
            PheromoneType::Dig => PheromoneType::Forage,
            PheromoneType::Forage => PheromoneType::Home,
            PheromoneType::Home => PheromoneType::Avoid,
            PheromoneType::Avoid => PheromoneType::Dig,
        }
    }
}

/// The scent kind that a viewer places.
#[derive(Debug, Clone, Copy, PartialEq, Eq, Structural)]
pub struct SelectedPheromoneType(pub PheromoneType);

impl SelectedPheromoneType {
    /// Moves the selection on to the next kind.
    pub fn cycle(&mut self)
        ensures
            final(self).0 == match old(self).0 {
                PheromoneType::Dig => PheromoneType::Forage,
                PheromoneType::Forage => PheromoneType::Home,
                PheromoneType::Home => PheromoneType::Avoid,
                PheromoneType::Avoid => PheromoneType::Dig,
            },
    {
        self.0 = self.0.next();
    }
}

/// Full strength of a scent, in ten-thousandths.
pub const SCENT_ONE: u32 = 10000;

/// How much every scent fades in one tick.
pub const DECAY_RATE: u32 = 5;

/// `v` held to the range of a scent.
pub open spec fn clamp_scent(v: int) -> u32 {
    if v < 0 {
        0
    } else if v > SCENT_ONE {
        SCENT_ONE
    } else {
        v as u32
    }
}

/// `v` after fading by `rate`, held at zero.
pub open spec fn faded(v: u32, rate: u32) -> u32 {
    if v > rate {
        (v - rate) as u32
    } else {
        0
    }
}

/// One field per scent kind, each a strength in ten-thousandths per cell,
/// stored layer by layer like the tile grid.
pub struct PheromoneGrids {
    pub dig: Vec<u32>,
    pub forage: Vec<u32>,
    pub home: Vec<u32>,
    pub avoid: Vec<u32>,
}

/// Every cell of `s` holds a strength in `[0, SCENT_ONE]`, one per cell.
pub open spec fn field_wf(s: Seq<u32>) -> bool {
    s.len() == CELLS && forall|i: int| 0 <= i < s.len() ==> #[trigger] s[i] <= SCENT_ONE
}

/// A field of `CELLS` zeros.
fn empty_field() -> (r: Vec<u32>)
    ensures
        r@.len() == CELLS,
        forall|i: int| 0 <= i < CELLS ==> #[trigger] r@[i] == 0,
{
    let mut v: Vec<u32> = Vec::new();
    let mut i: usize = 0;
    while i < CELLS
        invariant
            i <= CELLS,
            v@.len() == i,
            forall|j: int| 0 <= j < i ==> #[trigger] v@[j] == 0,
        decreases CELLS - i,
    {
        v.push(0);
        i = i + 1;
    }
    v
}

/// Fades every cell of a field by `rate`.
fn decay_field(v: &mut Vec<u32>, rate: u32)
    requires
        field_wf(old(v)@),
    ensures
        field_wf(final(v)@),
        forall|i: int| 0 <= i < CELLS ==> #[trigger] final(v)@[i] == faded(old(v)@[i], rate),
{
    let ghost start = v@;
    let mut i: usize = 0;
    while i < CELLS
        invariant
            i <= CELLS,
            v@.len() == CELLS,
            start.len() == CELLS,
            forall|j: int| 0 <= j < i ==> #[trigger] v@[j] == faded(start[j], rate),
            forall|j: int| i <= j < CELLS ==> #[trigger] v@[j] == start[j],
            forall|j: int| 0 <= j < CELLS ==> #[trigger] start[j] <= SCENT_ONE,
        decreases CELLS - i,
    {
        let cur = v[i];
        if cur > 0 {
            let next = if cur > rate { cur - rate } else { 0 };
            v.set(i, next);
        }
        i = i + 1;
    }
}

impl Default for PheromoneGrids {
    fn default() -> (r: PheromoneGrids)
        ensures
            r.wf(),
            forall|k: PheromoneType, i: int| 0 <= i < CELLS ==> #[trigger] r.field(k)[i] == 0,
    {
        PheromoneGrids::new()
    }
}

impl PheromoneGrids {
    /// The field of kind `k`.
    pub open spec fn field(&self, k: PheromoneType) -> Seq<u32> {
        match k {
            PheromoneType::Dig => self.dig@,
            PheromoneType::Forage => self.forage@,
            PheromoneType::Home => self.home@,
            PheromoneType::Avoid => self.avoid@,
        }
    }

    /// Strength of scent `k` at (x, y, z).
    pub open spec fn level(&self, k: PheromoneType, x: int, y: int, z: int) -> u32 {
        self.field(k)[cell_index(x, y, z)]
    }

    /// Each field covers every cell with a strength in `[0, SCENT_ONE]`.
    pub open spec fn wf(&self) -> bool {
        &&& field_wf(self.dig@)
        &&& field_wf(self.forage@)
        &&& field_wf(self.home@)
        &&& field_wf(self.avoid@)
    }

    /// Fields without any scent.
    pub fn new() -> (r: PheromoneGrids)
        ensures
            r.wf(),
            forall|k: PheromoneType, i: int| 0 <= i < CELLS ==> #[trigger] r.field(k)[i] == 0,
    {
        PheromoneGrids {
            dig: empty_field(),
            forage: empty_field(),
            home: empty_field(),
            avoid: empty_field(),
        }
    }

    /// Strength of scent `ptype` at (x, y, z).
    pub fn get(&self, ptype: PheromoneType, x: usize, y: usize, z: usize) -> (r: u32)
        requires
            self.wf(),
            in_bounds(x as int, y as int, z as int),
        ensures
            r == self.level(ptype, x as int, y as int, z as int),
            r <= SCENT_ONE,
    {
        let i = index_of(x, y, z);
        match ptype {
            PheromoneType::Dig => self.dig[i],
            PheromoneType::Forage => self.forage[i],
            PheromoneType::Home => self.home[i],
            PheromoneType::Avoid => self.avoid[i],
        }
    }

    /// Sets scent `ptype` at (x, y, z) to `value` held to `[0, SCENT_ONE]`;
    /// nothing else changes.
    pub fn set(&mut self, ptype: PheromoneType, x: usize, y: usize, z: usize, value: i64)
        requires
            old(self).wf(),
            in_bounds(x as int, y as int, z as int),
        ensures
            final(self).wf(),
            final(self).field(ptype) == old(self).field(ptype).update(
                cell_index(x as int, y as int, z as int),
                clamp_scent(value as int),
            ),
            forall|k: PheromoneType| k != ptype ==> #[trigger] final(self).field(k) == old(
                self,
            ).field(k),
    {
        let i = index_of(x, y, z);
        let v: u32 = if value < 0 {
            0
        } else if value > SCENT_ONE as i64 {
            SCENT_ONE
        } else {
            value as u32
        };
        match ptype {
            PheromoneType::Dig => self.dig.set(i, v),
            PheromoneType::Forage => self.forage.set(i, v),
            PheromoneType::Home => self.home.set(i, v),
            PheromoneType::Avoid => self.avoid.set(i, v),
        }
    }

    /// Adds `amount` to scent `ptype` at (x, y, z), holding the result to
    /// `[0, SCENT_ONE]`; nothing else changes.
    pub fn add(&mut self, ptype: PheromoneType, x: usize, y: usize, z: usize, amount: i32)
        requires
            old(self).wf(),
            in_bounds(x as int, y as int, z as int),
        ensures
            final(self).wf(),
            final(self).field(ptype) == old(self).field(ptype).update(
                cell_index(x as int, y as int, z as int),
                clamp_scent(old(self).level(ptype, x as int, y as int, z as int) + amount),
            ),
            forall|k: PheromoneType| k != ptype ==> #[trigger] final(self).field(k) == old(
                self,
            ).field(k),
    {
        let current = self.get(ptype, x, y, z);
        self.set(ptype, x, y, z, current as i64 + amount as i64);
    }

    /// Adds `amount` of scent `ptype` at (x, y, z) if that cell lies in the
    /// world, and does nothing otherwise.
    pub fn deposit(&mut self, ptype: PheromoneType, x: i64, y: i64, z: i64, amount: i32)
        requires
            old(self).wf(),
        ensures
            final(self).wf(),
            in_bounds(x as int, y as int, z as int) ==> final(self).field(ptype) == old(
                self,
            ).field(ptype).update(
                cell_index(x as int, y as int, z as int),
                clamp_scent(old(self).level(ptype, x as int, y as int, z as int) + amount),
            ),
            !in_bounds(x as int, y as int, z as int) ==> *final(self) == *old(self),
            forall|k: PheromoneType| k != ptype ==> #[trigger] final(self).field(k) == old(
                self,
            ).field(k),
    {
        if 0 <= x && x < 64 && 0 <= y && y < 64 && 0 <= z && z < 64 {
            self.add(ptype, x as usize, y as usize, z as usize, amount);
        }
    }

    /// Fades every cell of every field by `rate`, never below zero.
    pub fn decay_all(&mut self, rate: u32)
        requires
            old(self).wf(),
        ensures
            final(self).wf(),
            forall|k: PheromoneType, i: int|
                0 <= i < CELLS ==> #[trigger] final(self).field(k)[i] == faded(
                    old(self).field(k)[i],
                    rate,
                ),
    {
        decay_field(&mut self.dig, rate);
        decay_field(&mut self.forage, rate);
        decay_field(&mut self.home, rate);
        decay_field(&mut self.avoid, rate);
    }

    /// The strongest of the four scents at (x, y, z).
    pub fn strongest(&self, x: usize, y: usize, z: usize) -> (r: u32)
        requires
            self.wf(),
            in_bounds(x as int, y as int, z as int),
        ensures
            forall|k: PheromoneType| #[trigger] self.level(k, x as int, y as int, z as int) <= r,
            exists|k: PheromoneType| #[trigger] self.level(k, x as int, y as int, z as int) == r,
    {
        let d = self.get(PheromoneType::Dig, x, y, z);
        let f = self.get(PheromoneType::Forage, x, y, z);
        let h = self.get(PheromoneType::Home, x, y, z);
        let a = self.get(PheromoneType::Avoid, x, y, z);
        let m1 = if d >= f { d } else { f };
        let m2 = if h >= a { h } else { a };
        let r = if m1 >= m2 { m1 } else { m2 };
        proof {
            if r == d {
                assert(self.level(PheromoneType::Dig, x as int, y as int, z as int) == r);
            } else if r == f {
                assert(self.level(PheromoneType::Forage, x as int, y as int, z as int) == r);
            } else if r == h {
                assert(self.level(PheromoneType::Home, x as int, y as int, z as int) == r);
            } else {
                assert(self.level(PheromoneType::Avoid, x as int, y as int, z as int) == r);
            }
        }
        r
    }
}

/// Every scent strength lies in `[0, SCENT_ONE]`, and stays there through
/// setting, adding and fading.
pub proof fn lemma_scent_in_range(g: PheromoneGrids, k: PheromoneType, x: int, y: int, z: int)
    requires
        g.wf(),
        in_bounds(x, y, z),
    ensures
        0 <= g.level(k, x, y, z) <= SCENT_ONE,
{
    lemma_cell_index(x, y, z);
}

} // verus!
