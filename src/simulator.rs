//! Backends that stand in for a bus, for work without hardware: an emitter
//! that plays a schedule table, and a passive stub.
use vstd::prelude::*;
use crate::frame::{Frame, FrameModel, opt_view};
use crate::ldf::{FrameDesc, LDF, LdfModel, frame_named, table_named};
use crate::masterslave::{BackendError, FrameReader, Master, Slave};

verus! {

/// What the emitter has: the schedule, the table it plays, the slot it is in
/// and the milliseconds spent in that slot.
pub ghost struct SimState {
    pub ldf: LdfModel,
    pub table_name: Seq<char>,
    pub index: nat,
    pub elapsed: nat,
}

/// The bytes `0, 1, ..., n - 1`.
pub open spec fn filler(n: nat) -> Seq<u8> {
    Seq::new(n, |i: int| i as u8)
}

/// The frame emitted for a descriptor: filler where the master owns it, else
/// empty, since a slave's data is never made up.
pub open spec fn emitted(m: LdfModel, d: FrameDesc) -> FrameModel {
    FrameModel {
        id: d.id,
        msg: if d.owner == m.master {
            filler(d.size as nat)
        } else {
            Seq::empty()
        },
    }
}

/// One poll of the emitter. A slot whose time has not begun emits its frame;
/// the time then grows by the base tick, and once it reaches the slot's delay
/// the next slot (cyclically) begins. Without the table, with an empty one, or
/// where the slot names no known frame, nothing happens.
pub open spec fn sim_step(s: SimState) -> (SimState, Option<FrameModel>) {
    match table_named(s.ldf, s.table_name) {
        Some(t) => if s.index < t.items.len() {
            let item = t.items[s.index as int];
            match frame_named(s.ldf, item.name) {
                Some(d) => {
                    let e = s.elapsed + s.ldf.base_tick_ms;
                    let next = if e * 1000 >= item.delay_us {
                        SimState { index: ((s.index + 1) % t.items.len()) as nat, elapsed: 0, ..s }
                    } else {
                        SimState { elapsed: e as nat, ..s }
                    };
                    (
                        next,
                        if s.elapsed == 0 {
                            Some(emitted(s.ldf, d))
                        } else {
                            None
                        },
                    )
                },
                None => (s, None),
            }
        } else {
            (s, None)
        },
        None => (s, None),
    }
}

/// The slot index lies inside the table being played, where there is one.
pub open spec fn sim_wf(s: SimState) -> bool {
    match table_named(s.ldf, s.table_name) {
        Some(t) => t.items.len() > 0 ==> s.index < t.items.len(),
        None => true,
    }
}

/// Playing a table whose slots all name known frames: a frame comes out exactly
/// when the slot's time is zero, and it is the slot's frame; the slot advances,
/// cyclically and with its time back at zero, exactly when the time plus the
/// base tick reaches the slot's delay, and otherwise only the time grows.
pub proof fn lemma_emitter_slots(s: SimState)
    requires
        sim_wf(s),
        table_named(s.ldf, s.table_name) is Some,
        table_named(s.ldf, s.table_name)->Some_0.items.len() > 0,
        forall|k: int|
            0 <= k < table_named(s.ldf, s.table_name)->Some_0.items.len() ==> frame_named(
                s.ldf,
                #[trigger] table_named(s.ldf, s.table_name)->Some_0.items[k].name,
            ) is Some,
    ensures
        ({
            let t = table_named(s.ldf, s.table_name)->Some_0;
            let item = t.items[s.index as int];
            let (next, out) = sim_step(s);
            &&& out is Some <==> s.elapsed == 0
            &&& out is Some ==> out->Some_0.id == frame_named(s.ldf, item.name)->Some_0.id
            &&& (s.elapsed + s.ldf.base_tick_ms) * 1000 >= item.delay_us ==> next.index == ((
            s.index + 1) % t.items.len()) as nat && next.elapsed == 0
            &&& (s.elapsed + s.ldf.base_tick_ms) * 1000 < item.delay_us ==> next.index == s.index
                && next.elapsed == (s.elapsed + s.ldf.base_tick_ms) as nat
            &&& sim_wf(next)
        }),
{
    let t = table_named(s.ldf, s.table_name)->Some_0;
    assert(frame_named(s.ldf, t.items[s.index as int].name) is Some);
}

/// Emits frames as a master following a schedule table would.
pub struct MasterSimulator {
    name: String,
    schedule_table_name: String,
    ldf: LDF,
    table_index: usize,
    elapsed_in_table_index: u32,
}

impl View for MasterSimulator {
    type V = SimState;

    closed spec fn view(&self) -> SimState {
        SimState {
            ldf: self.ldf@,
            table_name: self.schedule_table_name@,
            index: self.table_index as nat,
            elapsed: self.elapsed_in_table_index as nat,
        }
    }
}

impl MasterSimulator {
    /// The name given at construction.
    pub closed spec fn label(&self) -> Seq<char> {
        self.name@
    }

    /// An emitter at the start of the named table.
    pub fn new(name: &str, ldf: LDF, schedule_table_name: &str) -> (r: Result<
        MasterSimulator,
        BackendError,
    >)
        ensures
            match r {
                Ok(s) => s@ == (SimState {
                    ldf: ldf@,
                    table_name: schedule_table_name@,
                    index: 0,
                    elapsed: 0,
                }) && s.label() == name@ && sim_wf(s@),
                Err(_) => false,
            },
    {
        Ok(
            MasterSimulator {
                name: name.to_string(),
                schedule_table_name: schedule_table_name.to_string(),
                ldf,
                table_index: 0,
                elapsed_in_table_index: 0,
            },
        )
    }

    /// The name given at construction.
    pub fn name(&self) -> (r: &str)
        ensures
            r@ == self.label(),
    {
        self.name.as_str()
    }

    /// Updates are accepted and discarded: the emitter plays the schedule alone.
    pub fn update(&mut self, _f: &Frame) -> (r: Result<(), BackendError>)
        ensures
            r is Ok,
            final(self)@ == old(self)@,
            final(self).label() == old(self).label(),
    {
        Ok(())
    }

    /// Polls the emitter once; see [`sim_step`].
    pub fn try_read(&mut self) -> (r: Option<Frame>)
        ensures
            (final(self)@, opt_view(r)) == sim_step(old(self)@),
            final(self).label() == old(self).label(),
            sim_wf(old(self)@) ==> sim_wf(final(self)@),
    {
        let table = match self.ldf.schedule_table(&self.schedule_table_name) {
            Some(t) => t,
            None => return None,
        };
        let n = table.items.len();
        if self.table_index >= n {
            return None;
        }
        let item = &table.items[self.table_index];
        let d = match self.ldf.frame(&item.name) {
            Some(d) => d,
            None => return None,
        };
        let was = self.elapsed_in_table_index;
        let e: u64 = was as u64 + self.ldf.nodes.base_tick_ms as u64;
        if e * 1000 >= item.delay_us as u64 {
            self.table_index = (self.table_index + 1) % n;
            self.elapsed_in_table_index = 0;
        } else {
            self.elapsed_in_table_index = e as u32;
        }
        if was != 0 {
            return None;
        }
        let mut msg: Vec<u8> = Vec::new();
        if d.owner == self.ldf.nodes.master {
            let mut i: u8 = 0;
            while i < d.size
                invariant
                    i <= d.size,
                    msg@ == filler(i as nat),
                decreases d.size - i,
            {
                msg.push(i);
                i += 1;
                assert(msg@ =~= filler(i as nat));
            }
        } else {
            assert(msg@ =~= Seq::<u8>::empty());
        }
        Some(Frame { id: d.id, msg })
    }
}

impl FrameReader for MasterSimulator {
    fn name(&self) -> &str {
        MasterSimulator::name(self)
    }

    fn try_read(&mut self) -> Option<Frame> {
        MasterSimulator::try_read(self)
    }
}

impl Slave for MasterSimulator {
    fn update(&mut self, f: &Frame) -> Result<(), BackendError> {
        MasterSimulator::update(self, f)
    }
}

/// A stub that never emits a frame and accepts every write and request.
pub struct SlaveSimulator {
    name: String,
}

impl SlaveSimulator {
    /// The name given at construction.
    pub closed spec fn label(&self) -> Seq<char> {
        self.name@
    }

    pub fn new(name: &str) -> (r: Result<SlaveSimulator, BackendError>)
        ensures
            match r {
                Ok(s) => s.label() == name@,
                Err(_) => false,
            },
    {
        Ok(SlaveSimulator { name: name.to_string() })
    }

    /// The name given at construction.
    pub fn name(&self) -> (r: &str)
        ensures
            r@ == self.label(),
    {
        self.name.as_str()
    }

    /// Writes are accepted and discarded.
    pub fn write(&mut self, _frame: &Frame) -> (r: Result<(), BackendError>)
        ensures
            r is Ok,
            final(self).label() == old(self).label(),
    {
        Ok(())
    }

    /// Requests are accepted and discarded.
    pub fn request_update(&mut self, _id: u32) -> (r: Result<(), BackendError>)
        ensures
            r is Ok,
            final(self).label() == old(self).label(),
    {
        Ok(())
    }

    /// There is never anything to read.
    pub fn try_read(&mut self) -> (r: Option<Frame>)
        ensures
            r is None,
    {
        None
    }
}

impl FrameReader for SlaveSimulator {
    fn name(&self) -> &str {
        SlaveSimulator::name(self)
    }

    fn try_read(&mut self) -> Option<Frame> {
        SlaveSimulator::try_read(self)
    }
}

impl Master for SlaveSimulator {
    fn write(&mut self, frame: &Frame) -> Result<(), BackendError> {
        SlaveSimulator::write(self, frame)
    }

    fn request_update(&mut self, id: u32) -> Result<(), BackendError> {
        SlaveSimulator::request_update(self, id)
    }
}

} // verus!
