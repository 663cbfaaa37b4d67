use vstd::prelude::*;
use crate::disturbance::{DisturbanceError, checked_cell, in_grid};
use crate::grid::Cell;

verus! {

/// One of the two height buffers that the wave step alternates between.
#[derive(Clone, Copy, Debug, PartialEq, Eq, Structural)]
pub enum HeightBuffer {
    First,
    Second,
}

impl HeightBuffer {
    /// The buffer that is not `self`.
    pub open spec fn other_spec(self) -> HeightBuffer {
        match self {
            HeightBuffer::First => HeightBuffer::Second,
            HeightBuffer::Second => HeightBuffer::First,
        }
    }

    /// The buffer that is not `self`.
    pub fn other(self) -> (r: HeightBuffer)
        ensures
            r == self.other_spec(),
            r != self,
    {
        match self {
            HeightBuffer::First => HeightBuffer::Second,
            HeightBuffer::Second => HeightBuffer::First,
        }
    }
}

/// A GPU dispatch, in the order it must be submitted.
#[derive(Clone, Copy, Debug, PartialEq, Eq, Structural)]
pub enum Command {
    /// Write the disturbance depression into `target` at `cell`.
    Bend { target: HeightBuffer, cell: Cell },
    /// Compute the next heights from `read` (current) and `write` (previous),
    /// storing them into `write`.
    Step { read: HeightBuffer, write: HeightBuffer },
    /// Regenerate the normal map from the heights in `source`.
    RebuildNormals { source: HeightBuffer },
}

/// The bend command for `cell` into buffer `b`.
pub open spec fn bend_spec(b: HeightBuffer, cell: Cell) -> Command {
    Command::Bend { target: b, cell }
}

/// The commands of one tick, starting with `current` as the readable buffer:
/// every disturbance in order, then the wave step, then the normal rebuild
/// from the freshly written buffer.
pub open spec fn tick_spec(current: HeightBuffer, disturbances: Seq<Cell>) -> Seq<Command> {
    disturbances.map_values(|c: Cell| bend_spec(current, c)) + seq![
        Command::Step { read: current, write: current.other_spec() },
        Command::RebuildNormals { source: current.other_spec() },
    ]
}

/// Host-side state of the water simulation: which height buffer holds the
/// current state. The heights themselves live on the GPU; this object decides
/// which buffer each dispatch reads and writes.
pub struct WaterSimulation {
    current: HeightBuffer,
}

impl WaterSimulation {
    /// The buffer that holds the current heights.
    pub closed spec fn current_spec(&self) -> HeightBuffer {
        self.current
    }

    /// A simulation whose current heights are in the first buffer.
    pub fn new() -> (r: WaterSimulation)
        ensures
            r.current_spec() == HeightBuffer::First,
    {
        WaterSimulation { current: HeightBuffer::First }
    }

    /// The buffer that holds the current heights.
    pub fn current_buffer(&self) -> (r: HeightBuffer)
        ensures
            r == self.current_spec(),
    {
        self.current
    }

    /// The disturbance at `(x, y)`, written into the current buffer; rejected
    /// when the cell lies outside the grid.
    pub fn bend(&self, x: i64, y: i64) -> (r: Result<Command, DisturbanceError>)
        ensures
            r is Ok <==> in_grid(x as int, y as int),
            r is Ok ==> r->Ok_0 == bend_spec(self.current_spec(), Cell { x: x as u32, y: y as u32 }),
            r is Err ==> r->Err_0 == DisturbanceError::OutOfGrid,
    {
        match checked_cell(x, y) {
            Ok(cell) => Ok(Command::Bend { target: self.current, cell }),
            Err(e) => Err(e),
        }
    }

    /// Advances one step: the new heights are computed from the current
    /// buffer into the other one, which then becomes current. The step never
    /// reads and writes the same buffer.
    pub fn step(&mut self) -> (r: Command)
        ensures
            r == (Command::Step {
                read: old(self).current_spec(),
                write: old(self).current_spec().other_spec(),
            }),
            final(self).current_spec() == old(self).current_spec().other_spec(),
    {
        let read = self.current;
        let write = read.other();
        self.current = write;
        Command::Step { read, write }
    }

    /// Regenerates the normal map from the current heights.
    pub fn rebuild_normals(&self) -> (r: Command)
        ensures
            r == (Command::RebuildNormals { source: self.current_spec() }),
    {
        Command::RebuildNormals { source: self.current }
    }

    /// The commands of one tick, in submission order: each disturbance, then
    /// the step, then the normal rebuild.
    pub fn tick(&mut self, disturbances: &Vec<Cell>) -> (r: Vec<Command>)
        requires
            forall|i: int| 0 <= i < disturbances.len() ==> (#[trigger] disturbances[i]).wf(),
        ensures
            r@ == tick_spec(old(self).current_spec(), disturbances@),
            final(self).current_spec() == old(self).current_spec().other_spec(),
    {
        let mut r: Vec<Command> = Vec::new();
        let mut i: usize = 0;
        while i < disturbances.len()
            invariant
                i <= disturbances.len(),
                r@ == disturbances@.take(i as int).map_values(
                    |c: Cell| bend_spec(self.current_spec(), c),
                ),
            decreases disturbances.len() - i,
        {
            r.push(Command::Bend { target: self.current, cell: disturbances[i] });
            proof {
                assert(disturbances@.take(i + 1) =~= disturbances@.take(i as int).push(
                    disturbances@[i as int],
                ));
                assert(r@ =~= disturbances@.take(i + 1).map_values(
                    |c: Cell| bend_spec(self.current_spec(), c),
                ));
            }
            i = i + 1;
        }
        assert(disturbances@.take(disturbances.len() as int) =~= disturbances@);
        let ghost start = self.current_spec();
        let s = self.step();
        r.push(s);
        let n = self.rebuild_normals();
        r.push(n);
        assert(r@ =~= tick_spec(start, disturbances@));
        r
    }
}

/// Two steps bring the current heights back to the buffer they started in.
pub proof fn lemma_two_steps_return(b: HeightBuffer)
    ensures
        b.other_spec().other_spec() == b,
        b.other_spec() != b,
{
}

/// Within one tick every disturbance is written into the buffer that the step
/// then reads, the step writes the other buffer, and the normals are rebuilt
/// from the buffer the step wrote.
pub proof fn lemma_tick_ordering(current: HeightBuffer, disturbances: Seq<Cell>)
    ensures
        ({
            let t = tick_spec(current, disturbances);
            let n = disturbances.len() as int;
            &&& t.len() == n + 2
            &&& forall|i: int|
                0 <= i < n ==> #[trigger] t[i] == bend_spec(current, disturbances[i])
            &&& t[n] == (Command::Step { read: current, write: current.other_spec() })
            &&& t[n + 1] == (Command::RebuildNormals { source: current.other_spec() })
            &&& current != current.other_spec()
        }),
{
}

} // verus!
