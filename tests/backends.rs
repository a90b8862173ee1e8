use linbridge::frame::Frame;
use linbridge::ldf::parse_lines;
use linbridge::masterslave::{BackendError, FrameReader, Master, Slave};
use linbridge::noechoslave::NoEchoSlave;
use linbridge::simulator::{MasterSimulator, SlaveSimulator};

/// A slave backend that reads back whatever it is told to.
struct Loopback {
    pending: Vec<Frame>,
    updates: Vec<u32>,
}

impl FrameReader for Loopback {
    fn name(&self) -> &str {
        "loopback"
    }

    fn try_read(&mut self) -> Option<Frame> {
        if self.pending.is_empty() {
            None
        } else {
            Some(self.pending.remove(0))
        }
    }
}

impl Slave for Loopback {
    fn update(&mut self, f: &Frame) -> Result<(), BackendError> {
        self.updates.push(f.id);
        Ok(())
    }
}

fn frame(id: u32, msg: &[u8]) -> Frame {
    Frame { id, msg: msg.to_vec() }
}

#[test]
fn echo_of_updated_id_is_blanked() {
    let mut s = NoEchoSlave::new(Loopback {
        pending: vec![frame(0x10, &[1, 2]), frame(0x20, &[3]), frame(0x10, &[4])],
        updates: vec![],
    });
    assert_eq!(FrameReader::name(&s), "loopback");
    s.update(&frame(0x10, &[1, 2])).unwrap();
    assert_eq!(s.try_read(), Some(frame(0x10, &[])));
    assert_eq!(s.try_read(), Some(frame(0x20, &[3])));
    Slave::update(&mut s, &frame(0x10, &[9])).unwrap();
    assert_eq!(FrameReader::try_read(&mut s), Some(frame(0x10, &[])));
    assert_eq!(s.try_read(), None);
}

#[test]
fn frames_pass_unchanged_before_any_update() {
    let mut s = NoEchoSlave::new(Loopback { pending: vec![frame(5, &[1, 2, 3])], updates: vec![] });
    assert_eq!(FrameReader::try_read(&mut s), Some(frame(5, &[1, 2, 3])));
}

#[test]
fn filter_echo_only_touches_updated_ids() {
    let mut s = NoEchoSlave::new(Loopback { pending: vec![], updates: vec![] });
    s.update(&frame(1, &[])).unwrap();
    assert_eq!(s.filter_echo(frame(2, &[7, 7])), frame(2, &[7, 7]));
    assert_eq!(s.filter_echo(frame(1, &[7, 7])), frame(1, &[]));
    assert_eq!(s.filter_echo(frame(1, &[8])), frame(1, &[8]));
}

#[test]
fn suppression_ends_after_one_blanked_read() {
    let mut s = NoEchoSlave::new(Loopback {
        pending: vec![frame(0x10, &[1, 2]), frame(0x10, &[5, 6]), frame(0x10, &[7]), frame(0x10, &[8])],
        updates: vec![],
    });
    s.update(&frame(0x10, &[1, 2])).unwrap();
    assert_eq!(s.try_read(), Some(frame(0x10, &[])));
    assert_eq!(s.try_read(), Some(frame(0x10, &[5, 6])));
    s.update(&frame(0x10, &[7])).unwrap();
    assert_eq!(s.try_read(), Some(frame(0x10, &[])));
    assert_eq!(s.try_read(), Some(frame(0x10, &[8])));
    assert_eq!(s.try_read(), None);
    assert_eq!(s.try_read(), None);
}

const SCHEDULE: &str = "Nodes {
  Master: Boss, 5.0 ms ;
}
Frames {
  BossFrame: 0x21, Boss, 3 {
  }
  WorkerFrame: 0x22, Worker, 4 {
  }
}
Schedule_tables {
  Pair {
    BossFrame delay 15.0 ms;
    WorkerFrame delay 10.0 ms;
  }
  Empty {
  }
  Lost {
    Nowhere delay 5.0 ms;
  }
}";

fn emitter(table: &str) -> MasterSimulator {
    let lines: Vec<String> = SCHEDULE.lines().map(|l| l.to_string()).collect();
    let ldf = parse_lines(&lines).unwrap();
    MasterSimulator::new("sim", ldf, table).unwrap()
}

#[test]
fn emitter_follows_slot_delays() {
    let mut sim = emitter("Pair");
    let got: Vec<Option<Frame>> = (0..10).map(|_| sim.try_read()).collect();
    let boss = || Some(frame(0x21, &[0, 1, 2]));
    let worker = || Some(frame(0x22, &[]));
    let want = vec![boss(), None, None, worker(), None, boss(), None, None, worker(), None];
    assert_eq!(got, want);
}

#[test]
fn emitter_without_usable_table_is_silent() {
    for table in ["Empty", "Lost", "Missing"] {
        let mut sim = emitter(table);
        for _ in 0..5 {
            assert_eq!(sim.try_read(), None);
        }
    }
}

#[test]
fn emitter_accepts_updates_and_keeps_its_name() {
    let mut sim = emitter("Pair");
    assert_eq!(FrameReader::name(&sim), "sim");
    assert_eq!(sim.name(), "sim");
    assert!(sim.update(&frame(1, &[])).is_ok());
    assert!(Slave::update(&mut sim, &frame(1, &[1])).is_ok());
}

#[test]
fn stub_never_reads_and_accepts_everything() {
    let mut stub = SlaveSimulator::new("stub").unwrap();
    assert_eq!(FrameReader::name(&stub), "stub");
    assert_eq!(stub.name(), "stub");
    assert!(SlaveSimulator::write(&mut stub, &frame(2, &[])).is_ok());
    assert!(SlaveSimulator::request_update(&mut stub, 2).is_ok());
    assert_eq!(stub.try_read(), None);
    assert!(stub.write(&frame(1, &[1])).is_ok());
    assert!(stub.request_update(1).is_ok());
    assert_eq!(FrameReader::try_read(&mut stub), None);
}
