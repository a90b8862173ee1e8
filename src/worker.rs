//! The bridge engine: which backend a configuration asks for, and what the
//! bridge does with each event it is woken by. The waiting itself (the ticker,
//! the network socket, the cancel signal) belongs to the caller, which hands
//! each event here and carries out the outcome.
use vstd::prelude::*;
use crate::frame::{Frame, FrameModel, PacketError, decode, parse_packet};
use crate::masterslave::{BackendError, FrameReader, Master, Slave};
use crate::msg::{Config, HostMode, Plugin};
use crate::noechoslave::NoEchoSlave;
use crate::simulator::{MasterSimulator, SlaveSimulator};

verus! {

/// The backend that a bridge is to be given.
#[derive(Debug)]
pub enum BackendChoice {
    /// Simulated bus on which the local side is a slave: a schedule emitter
    /// plays the master's traffic.
    ScheduleEmitter { name: String, schedule_table_name: String, database: String },
    /// Simulated bus on which the local side is the master: a passive stub,
    /// polled at the schedule file's base tick.
    PassiveStub { name: String, database: String },
    /// Bus adapter used as a slave.
    DriverSlave { name: String, device_id: String, baudrate: u32, base_tick_ms: u32 },
    /// Bus adapter used as the master.
    DriverMaster { name: String, device_id: String, baudrate: u32, base_tick_ms: u32 },
}

/// The backend for a configuration. A simulator's local role picks the
/// emitter or the stub; an adapter is named after the host device unless it
/// has a name of its own.
pub fn select_backend(config: &Config) -> (r: BackendChoice)
    ensures
        match config.plugin {
            Plugin::Simulator(s) => match s.host_mode {
                HostMode::Slave => r matches BackendChoice::ScheduleEmitter {
                    name,
                    schedule_table_name,
                    database,
                } && name@ == s.name@ && schedule_table_name@ == s.schedule_table_name@
                    && database@ == s.database@,
                HostMode::Master => r matches BackendChoice::PassiveStub { name, database }
                    && name@ == s.name@ && database@ == s.database@,
            },
            Plugin::Lin(l) => {
                let want = match l.name {
                    Some(n) => n@,
                    None => config.host_device@,
                };
                match l.host_mode {
                    HostMode::Slave => r matches BackendChoice::DriverSlave {
                        name,
                        device_id,
                        baudrate,
                        base_tick_ms,
                    } && name@ == want && device_id@ == l.device_id@ && baudrate
                        == config.baudrate.0 && base_tick_ms == l.base_tick_ms.0,
                    HostMode::Master => r matches BackendChoice::DriverMaster {
                        name,
                        device_id,
                        baudrate,
                        base_tick_ms,
                    } && name@ == want && device_id@ == l.device_id@ && baudrate
                        == config.baudrate.0 && base_tick_ms == l.base_tick_ms.0,
                }
            },
        },
{
    match &config.plugin {
        Plugin::Simulator(s) => match s.host_mode {
            HostMode::Slave => BackendChoice::ScheduleEmitter {
                name: s.name.clone(),
                schedule_table_name: s.schedule_table_name.clone(),
                database: s.database.clone(),
            },
            HostMode::Master => BackendChoice::PassiveStub {
                name: s.name.clone(),
                database: s.database.clone(),
            },
        },
        Plugin::Lin(l) => {
            let name = match &l.name {
                Some(n) => n.clone(),
                None => config.host_device.clone(),
            };
            match l.host_mode {
                HostMode::Slave => BackendChoice::DriverSlave {
                    name,
                    device_id: l.device_id.clone(),
                    baudrate: config.baudrate.0,
                    base_tick_ms: l.base_tick_ms.0,
                },
                HostMode::Master => BackendChoice::DriverMaster {
                    name,
                    device_id: l.device_id.clone(),
                    baudrate: config.baudrate.0,
                    base_tick_ms: l.base_tick_ms.0,
                },
            }
        },
    }
}

/// The backends a bridge in the slave role can have: an adapter, whose echoes
/// are suppressed, or a schedule emitter.
pub enum SlaveBackend<H: Slave> {
    Driver(NoEchoSlave<H>),
    Simulated(MasterSimulator),
}

impl<H: Slave> FrameReader for SlaveBackend<H> {
    fn name(&self) -> &str {
        match self {
            SlaveBackend::Driver(d) => d.name(),
            SlaveBackend::Simulated(s) => s.name(),
        }
    }

    fn try_read(&mut self) -> Option<Frame> {
        match self {
            SlaveBackend::Driver(d) => NoEchoSlave::try_read(d),
            SlaveBackend::Simulated(s) => MasterSimulator::try_read(s),
        }
    }
}

impl<H: Slave> Slave for SlaveBackend<H> {
    fn update(&mut self, f: &Frame) -> Result<(), BackendError> {
        match self {
            SlaveBackend::Driver(d) => NoEchoSlave::update(d, f),
            SlaveBackend::Simulated(s) => s.update(f),
        }
    }
}

/// The backends a bridge in the master role can have: an adapter or a
/// passive stub.
pub enum MasterBackend<H: Master> {
    Driver(H),
    Simulated(SlaveSimulator),
}

impl<H: Master> FrameReader for MasterBackend<H> {
    fn name(&self) -> &str {
        match self {
            MasterBackend::Driver(d) => d.name(),
            MasterBackend::Simulated(s) => s.name(),
        }
    }

    fn try_read(&mut self) -> Option<Frame> {
        match self {
            MasterBackend::Driver(d) => d.try_read(),
            MasterBackend::Simulated(s) => SlaveSimulator::try_read(s),
        }
    }
}

impl<H: Master> Master for MasterBackend<H> {
    fn write(&mut self, frame: &Frame) -> Result<(), BackendError> {
        match self {
            MasterBackend::Driver(d) => d.write(frame),
            MasterBackend::Simulated(s) => s.write(frame),
        }
    }

    fn request_update(&mut self, id: u32) -> Result<(), BackendError> {
        match self {
            MasterBackend::Driver(d) => d.request_update(id),
            MasterBackend::Simulated(s) => s.request_update(id),
        }
    }
}

/// What wakes a bridge.
#[derive(Debug)]
pub enum Event {
    /// The poll interval has passed.
    Tick,
    /// A frame arrived from the network, with its bytes.
    Inbound(Vec<u8>),
    /// The bridge was asked to stop.
    Cancelled,
    /// Reading from or writing to the network failed.
    TransportFailed,
}

/// Why a bridge ended with an error.
#[derive(Debug, Clone, Copy, PartialEq, Eq, Structural)]
pub enum BridgeError {
    Backend(BackendError),
    Transport,
}

/// What the caller does after an event.
#[derive(Debug)]
pub enum Outcome {
    /// Wait for the next event.
    Continue,
    /// Send this frame to the network, then wait for the next event.
    Transmit(Frame),
    /// End the bridge successfully.
    Stop,
    /// End the bridge with an error.
    Fail(BridgeError),
}

/// What a bridge does with what its backend read on a tick: a frame is sent
/// to the network as it is; nothing read means waiting on.
pub fn tick_outcome(r: Option<Frame>) -> (o: Outcome)
    ensures
        match r {
            Some(f) => o matches Outcome::Transmit(g) && g@ == f@,
            None => o is Continue,
        },
{
    match r {
        Some(f) => Outcome::Transmit(f),
        None => Outcome::Continue,
    }
}

/// What a master-role bridge does after writing a frame on the bus: a failed
/// write ends it with the backend's error.
pub fn write_outcome(r: Result<(), BackendError>) -> (o: Outcome)
    ensures
        match r {
            Ok(()) => o is Continue,
            Err(e) => o == Outcome::Fail(BridgeError::Backend(e)),
        },
{
    match r {
        Ok(()) => Outcome::Continue,
        Err(e) => Outcome::Fail(BridgeError::Backend(e)),
    }
}

/// What a master-role bridge does with an inbound frame.
#[derive(Debug)]
pub enum MasterAction {
    /// Undecodable: dropped, and the bridge goes on.
    Drop(PacketError),
    /// An empty frame asks the frame's owner for its payload.
    RequestUpdate(u32),
    /// A frame with payload is written on the bus.
    Write(Frame),
}

pub ghost enum MasterActionModel {
    Drop(PacketError),
    RequestUpdate(u32),
    Write(FrameModel),
}

/// The action for inbound bytes `b` in the master role.
pub open spec fn master_action(b: Seq<u8>) -> MasterActionModel {
    match decode(b) {
        Err(e) => MasterActionModel::Drop(e),
        Ok(f) => if f.msg.len() == 0 {
            MasterActionModel::RequestUpdate(f.id)
        } else {
            MasterActionModel::Write(f)
        },
    }
}

pub open spec fn action_view(a: MasterAction) -> MasterActionModel {
    match a {
        MasterAction::Drop(e) => MasterActionModel::Drop(e),
        MasterAction::RequestUpdate(id) => MasterActionModel::RequestUpdate(id),
        MasterAction::Write(f) => MasterActionModel::Write(f@),
    }
}

/// Decides what a master-role bridge does with inbound bytes.
pub fn dispatch_master(bytes: &[u8]) -> (r: MasterAction)
    ensures
        action_view(r) == master_action(bytes@),
{
    match parse_packet(bytes) {
        Err(e) => MasterAction::Drop(e),
        Ok(p) => {
            if p.frame.msg.len() == 0 {
                MasterAction::RequestUpdate(p.frame.id)
            } else {
                MasterAction::Write(p.frame)
            }
        },
    }
}

/// Handles one event in the master role. Only a failed write on the bus or a
/// failed network ends the bridge with an error; a refused request for an
/// update and an undecodable inbound frame are passed over. A tick hands the
/// backend's read to [`tick_outcome`], a write's result goes to
/// [`write_outcome`].
pub fn master_event<M: Master>(master: &mut M, ev: Event) -> (r: Outcome)
    ensures
        match ev {
            Event::Tick => r is Continue || r is Transmit,
            Event::Inbound(b) => match master_action(b@) {
                MasterActionModel::Write(_) => r is Continue || r matches Outcome::Fail(
                    BridgeError::Backend(_),
                ),
                _ => r is Continue,
            },
            Event::Cancelled => r is Stop,
            Event::TransportFailed => r == Outcome::Fail(BridgeError::Transport),
        },
{
    match ev {
        Event::Tick => tick_outcome(master.try_read()),
        Event::Inbound(b) => match dispatch_master(b.as_slice()) {
            MasterAction::Drop(_) => Outcome::Continue,
            MasterAction::RequestUpdate(id) => {
                let _ = master.request_update(id);
                Outcome::Continue
            },
            MasterAction::Write(f) => write_outcome(master.write(&f)),
        },
        Event::Cancelled => Outcome::Stop,
        Event::TransportFailed => Outcome::Fail(BridgeError::Transport),
    }
}

/// Handles one event in the slave role. Every decodable inbound frame becomes
/// an update of the backend, whose failure is passed over; only a failed
/// network ends the bridge with an error.
pub fn slave_event<S: Slave>(slave: &mut S, ev: Event) -> (r: Outcome)
    ensures
        match ev {
            Event::Tick => r is Continue || r is Transmit,
            Event::Inbound(_) => r is Continue,
            Event::Cancelled => r is Stop,
            Event::TransportFailed => r == Outcome::Fail(BridgeError::Transport),
        },
{
    match ev {
        Event::Tick => tick_outcome(slave.try_read()),
        Event::Inbound(b) => {
            match parse_packet(b.as_slice()) {
                Ok(p) => {
                    let _ = slave.update(&p.frame);
                },
                Err(_) => {},
            }
            Outcome::Continue
        },
        Event::Cancelled => Outcome::Stop,
        Event::TransportFailed => Outcome::Fail(BridgeError::Transport),
    }
}

/// An undecodable inbound frame never ends a bridge, in either role: the
/// bridge waits for the next event.
pub proof fn lemma_malformed_frame_kept_alive(b: Seq<u8>)
    requires
        decode(b) is Err,
    ensures
        master_action(b) is Drop,
{
}

} // verus!
