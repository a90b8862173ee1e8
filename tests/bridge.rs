use linbridge::frame::{encode_packet, Frame};
use linbridge::masterslave::{BackendError, FrameReader, Master, Slave};
use linbridge::msg::{
    default_simulator_name, plugin_kind, BaseTick, Baudrate, Config, ConfigError, HostMode, Lin,
    Plugin, PluginKind, Simulator,
};
use linbridge::server::Registry;
use linbridge::worker::{
    dispatch_master, master_event, select_backend, slave_event, tick_outcome, write_outcome,
    BackendChoice, BridgeError, Event, MasterAction, Outcome,
};

#[derive(Debug, PartialEq)]
enum Call {
    Write(u32, Vec<u8>),
    RequestUpdate(u32),
    Update(u32, Vec<u8>),
}

struct Recorder {
    calls: Vec<Call>,
    reads: Vec<Frame>,
    fail_writes: bool,
}

impl Recorder {
    fn new() -> Self {
        Recorder { calls: vec![], reads: vec![], fail_writes: false }
    }
}

impl FrameReader for Recorder {
    fn name(&self) -> &str {
        "recorder"
    }

    fn try_read(&mut self) -> Option<Frame> {
        self.reads.pop()
    }
}

impl Master for Recorder {
    fn write(&mut self, frame: &Frame) -> Result<(), BackendError> {
        self.calls.push(Call::Write(frame.id, frame.msg.clone()));
        if self.fail_writes {
            Err(BackendError { status: -7 })
        } else {
            Ok(())
        }
    }

    fn request_update(&mut self, id: u32) -> Result<(), BackendError> {
        self.calls.push(Call::RequestUpdate(id));
        Err(BackendError { status: -1 })
    }
}

impl Slave for Recorder {
    fn update(&mut self, f: &Frame) -> Result<(), BackendError> {
        self.calls.push(Call::Update(f.id, f.msg.clone()));
        Err(BackendError { status: -2 })
    }
}

fn lin_master_config() -> Config {
    Config {
        host_device: "v0".to_string(),
        baudrate: Baudrate(19200),
        plugin: Plugin::Lin(Lin {
            driver: "kvaser".to_string(),
            name: None,
            host_mode: HostMode::Master,
            device_id: "1:1".to_string(),
            base_tick_ms: BaseTick(5),
        }),
    }
}

#[test]
fn empty_inbound_frame_requests_update_not_write() {
    let config = lin_master_config();
    match select_backend(&config) {
        BackendChoice::DriverMaster { name, device_id, baudrate, base_tick_ms } => {
            assert_eq!(name, "v0");
            assert_eq!(device_id, "1:1");
            assert_eq!(baudrate, 19200);
            assert_eq!(base_tick_ms, 5);
        }
        other => panic!("unexpected backend {other:?}"),
    }
    let mut m = Recorder::new();
    let out = master_event(&mut m, Event::Inbound(vec![0x31, 0, 0, 0, 0, 0, 0, 0]));
    assert!(matches!(out, Outcome::Continue));
    assert_eq!(m.calls, vec![Call::RequestUpdate(0x31)]);
}

#[test]
fn dispatch_decides_by_payload() {
    assert!(matches!(dispatch_master(&[0x31, 0, 0, 0, 0, 0, 0, 0]), MasterAction::RequestUpdate(0x31)));
    match dispatch_master(&[2, 0, 0, 0, 1, 0, 0, 0, 9, 9]) {
        MasterAction::Write(f) => assert_eq!(f, Frame { id: 2, msg: vec![9] }),
        other => panic!("unexpected {other:?}"),
    }
    assert!(matches!(dispatch_master(&[1, 2, 3]), MasterAction::Drop(_)));
}

#[test]
fn malformed_inbound_frame_keeps_bridge_running() {
    let mut m = Recorder::new();
    assert!(matches!(master_event(&mut m, Event::Inbound(vec![1, 2])), Outcome::Continue));
    assert!(matches!(
        master_event(&mut m, Event::Inbound(vec![1, 0, 0, 0, 9, 0, 0, 0, 1])),
        Outcome::Continue
    ));
    assert!(m.calls.is_empty());
    let good = encode_packet(&Frame { id: 4, msg: vec![1, 2] });
    assert!(matches!(master_event(&mut m, Event::Inbound(good)), Outcome::Continue));
    assert_eq!(m.calls, vec![Call::Write(4, vec![1, 2])]);
    m.reads.push(Frame { id: 8, msg: vec![3] });
    match master_event(&mut m, Event::Tick) {
        Outcome::Transmit(f) => assert_eq!(f, Frame { id: 8, msg: vec![3] }),
        other => panic!("unexpected {other:?}"),
    }

    let mut s = Recorder::new();
    assert!(matches!(slave_event(&mut s, Event::Inbound(vec![])), Outcome::Continue));
    let good = encode_packet(&Frame { id: 5, msg: vec![6] });
    assert!(matches!(slave_event(&mut s, Event::Inbound(good)), Outcome::Continue));
    assert_eq!(s.calls, vec![Call::Update(5, vec![6])]);
}

#[test]
fn failed_write_ends_master_bridge() {
    let mut m = Recorder::new();
    m.fail_writes = true;
    let good = encode_packet(&Frame { id: 4, msg: vec![1] });
    match master_event(&mut m, Event::Inbound(good)) {
        Outcome::Fail(BridgeError::Backend(e)) => assert_eq!(e.status, -7),
        other => panic!("unexpected {other:?}"),
    }
}

#[test]
fn cancel_and_transport_failure_end_bridges() {
    let mut m = Recorder::new();
    assert!(matches!(master_event(&mut m, Event::Cancelled), Outcome::Stop));
    assert!(matches!(
        master_event(&mut m, Event::TransportFailed),
        Outcome::Fail(BridgeError::Transport)
    ));
    assert!(matches!(slave_event(&mut m, Event::Cancelled), Outcome::Stop));
    assert!(matches!(
        slave_event(&mut m, Event::TransportFailed),
        Outcome::Fail(BridgeError::Transport)
    ));
    assert!(matches!(slave_event(&mut m, Event::Tick), Outcome::Continue));
}

#[test]
fn backend_choice_follows_plugin_and_role() {
    let sim = |mode| Config {
        host_device: "v1".to_string(),
        baudrate: Baudrate::default(),
        plugin: Plugin::Simulator(Simulator {
            driver: "simulator".to_string(),
            name: default_simulator_name(),
            host_mode: mode,
            schedule_table_name: "T".to_string(),
            database: "db.ldf".to_string(),
        }),
    };
    match select_backend(&sim(HostMode::Slave)) {
        BackendChoice::ScheduleEmitter { name, schedule_table_name, database } => {
            assert_eq!(name, "simulator");
            assert_eq!(schedule_table_name, "T");
            assert_eq!(database, "db.ldf");
        }
        other => panic!("unexpected {other:?}"),
    }
    match select_backend(&sim(HostMode::Master)) {
        BackendChoice::PassiveStub { name, database } => {
            assert_eq!(name, "simulator");
            assert_eq!(database, "db.ldf");
        }
        other => panic!("unexpected {other:?}"),
    }
    let named = Config {
        host_device: "v2".to_string(),
        baudrate: Baudrate(9600),
        plugin: Plugin::Lin(Lin {
            driver: "kvaser".to_string(),
            name: Some("mine".to_string()),
            host_mode: HostMode::Slave,
            device_id: "7:2".to_string(),
            base_tick_ms: BaseTick::default(),
        }),
    };
    match select_backend(&named) {
        BackendChoice::DriverSlave { name, device_id, baudrate, base_tick_ms } => {
            assert_eq!(name, "mine");
            assert_eq!(device_id, "7:2");
            assert_eq!(baudrate, 9600);
            assert_eq!(base_tick_ms, 5);
        }
        other => panic!("unexpected {other:?}"),
    }
}

#[test]
fn defaults_and_plugin_tags() {
    assert_eq!(Baudrate::default(), Baudrate(19_200));
    assert_eq!(BaseTick::default(), BaseTick(5));
    assert_eq!(default_simulator_name(), "simulator");
    assert_eq!(plugin_kind(None), Ok(PluginKind::Lin));
    assert_eq!(plugin_kind(Some("lin")), Ok(PluginKind::Lin));
    assert_eq!(plugin_kind(Some("simulator")), Ok(PluginKind::Simulator));
    assert_eq!(plugin_kind(Some("can")), Err(ConfigError::UnknownPluginType));
}

#[test]
fn start_then_stop_finds_the_new_bridge() {
    let mut reg: Registry<u32> = Registry::new();
    assert_eq!(reg.start("v0".to_string(), 1), (None, 0));
    assert!(reg.is_running(&"v0".to_string()));
    assert_eq!(reg.stop(&"v0".to_string()), Some(1));
    assert!(!reg.is_running(&"v0".to_string()));
}

#[test]
fn stop_of_unknown_bridge_finds_nothing() {
    let mut reg: Registry<u32> = Registry::new();
    reg.start("a".to_string(), 1);
    assert_eq!(reg.stop(&"b".to_string()), None);
    assert!(reg.is_running(&"a".to_string()));
}

#[test]
fn restart_hands_back_the_previous_handle() {
    let mut reg: Registry<u32> = Registry::new();
    reg.start("a".to_string(), 1);
    reg.start("b".to_string(), 2);
    assert_eq!(reg.start("a".to_string(), 3), (Some(1), 2));
    assert_eq!(reg.stop(&"a".to_string()), Some(3));
    assert_eq!(reg.stop(&"a".to_string()), None);
    assert_eq!(reg.stop(&"b".to_string()), Some(2));
}

#[test]
fn completion_of_replaced_bridge_keeps_its_successor() {
    let mut reg: Registry<u32> = Registry::new();
    let (_, first) = reg.start("a".to_string(), 1);
    let (previous, second) = reg.start("a".to_string(), 2);
    assert_eq!(previous, Some(1));
    assert_ne!(first, second);
    assert_eq!(reg.complete(&"a".to_string(), first), None);
    assert!(reg.is_running(&"a".to_string()));
    assert_eq!(reg.complete(&"a".to_string(), second), Some(2));
    assert!(!reg.is_running(&"a".to_string()));
    assert_eq!(reg.complete(&"b".to_string(), 0), None);
}

#[test]
fn tick_and_write_outcomes() {
    match tick_outcome(Some(Frame { id: 3, msg: vec![1] })) {
        Outcome::Transmit(f) => assert_eq!(f, Frame { id: 3, msg: vec![1] }),
        other => panic!("unexpected {other:?}"),
    }
    assert!(matches!(tick_outcome(None), Outcome::Continue));
    assert!(matches!(write_outcome(Ok(())), Outcome::Continue));
    match write_outcome(Err(BackendError { status: -4 })) {
        Outcome::Fail(BridgeError::Backend(e)) => assert_eq!(e.status, -4),
        other => panic!("unexpected {other:?}"),
    }
}
