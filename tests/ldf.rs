use linbridge::ldf::{parse_lines, Header, LdfError, Nodes, LDF};

const MINI_LDF: &str = "LIN_description_file;
LIN_protocol_version = \"2.1\";
LIN_language_version = \"2.1\";
LIN_speed = 19.2 kbps;

Nodes {
  Master: TheMaster, 5.0 ms, 0.1 ms ;
  Slaves: Slave1, Slave2 ;
}

Signals {
  Slave1Signal: 8, 0, Slave1, TheMaster ;
  MasterSignal: 8, 0, TheMaster, Slave1, Slave2 ;
}

Frames {
  Slave1LinFrame01: 0x31, Slave1, 7 {
    Slave1Signal, 0 ;
  }
  MasterLinFrame01: 0x32, TheMaster, 8 {
    MasterSignal, 0 ;
  }
  Slave2LinFrame02: 0x32, Slave2, 8 {
  }
}

Schedule_tables {
  MiniLinRequestScheduleTable {
    MasterReq delay 15.0 ms;
  }
  MiniLinResponseScheduleTable {
    SlaveResp delay 15.0 ms;
  }
  TheScheduleTable01 {
    Slave1LinFrame01 delay 15.0 ms;
    Slave2LinFrame02 delay 10.0 ms;
    MasterLinFrame01 delay 10.0 ms;
  }
}
";

fn lines_of(text: &str) -> Vec<String> {
    text.lines().map(|l| l.to_string()).collect()
}

fn parse(text: &str) -> Result<LDF, LdfError> {
    parse_lines(&lines_of(text))
}

fn check_frame(ldf: &LDF, name: &str, id: u32, owner: &str, size: u8) {
    let f = ldf.frame(&name.to_string()).expect("frame present");
    assert_eq!(f.name, name);
    assert_eq!(f.id, id);
    assert_eq!(f.owner, owner);
    assert_eq!(f.size, size);
}

fn check_table(ldf: &LDF, name: &str, items: &[(&str, u32)]) {
    let t = ldf.schedule_table(&name.to_string()).expect("table present");
    assert_eq!(t.name, name);
    let got: Vec<(String, u32)> = t.items.iter().map(|i| (i.name.clone(), i.delay_us)).collect();
    let want: Vec<(String, u32)> = items.iter().map(|(n, d)| (n.to_string(), *d)).collect();
    assert_eq!(got, want);
}

#[test]
fn test_should_parse_ldf() {
    let ldf = parse(MINI_LDF).unwrap();
    assert_eq!(ldf.header, Header { baudrate: 19200 });

    assert_eq!(
        ldf.nodes,
        Nodes {
            master: "TheMaster".to_string(),
            base_tick_ms: 5
        }
    );

    assert_eq!(ldf.frames.len(), 3);
    check_frame(&ldf, "Slave1LinFrame01", 49, "Slave1", 7);
    check_frame(&ldf, "MasterLinFrame01", 50, "TheMaster", 8);
    check_frame(&ldf, "Slave2LinFrame02", 50, "Slave2", 8);

    assert_eq!(ldf.schedule_tables.len(), 3);
    check_table(&ldf, "MiniLinRequestScheduleTable", &[("MasterReq", 15_000)]);
    check_table(&ldf, "MiniLinResponseScheduleTable", &[("SlaveResp", 15_000)]);
    check_table(
        &ldf,
        "TheScheduleTable01",
        &[
            ("Slave1LinFrame01", 15_000),
            ("Slave2LinFrame02", 10_000),
            ("MasterLinFrame01", 10_000),
        ],
    );
}

#[test]
fn baudrate_is_rounded_to_bits_per_second() {
    let ldf = parse("LIN_speed = 10.4166 kbps;").unwrap();
    assert_eq!(ldf.header.baudrate, 10417);
    let ldf = parse("LIN_speed = 9.6 kbps;").unwrap();
    assert_eq!(ldf.header.baudrate, 9600);
}

#[test]
fn baudrate_line_needs_its_exact_shape() {
    let ldf = parse("  LIN_speed = 19.2 kbps;\nLIN_speed = 19 kbps;").unwrap();
    assert_eq!(ldf.header.baudrate, 0);
}

#[test]
fn base_tick_keeps_whole_milliseconds() {
    let ldf = parse("Nodes {\n  Master: M1, 7.9 ms ;\n}").unwrap();
    assert_eq!(ldf.nodes.master, "M1");
    assert_eq!(ldf.nodes.base_tick_ms, 7);
}

#[test]
fn base_tick_drops_the_fraction_without_rounding() {
    let ldf = parse("Nodes {\nMaster: M, 4.9995 ms\n}").unwrap();
    assert_eq!(ldf.nodes.base_tick_ms, 4);
    let ldf = parse("Nodes {\nMaster: M, 4.9994 ms\n}").unwrap();
    assert_eq!(ldf.nodes.base_tick_ms, 4);
}

#[test]
fn empty_input_gives_empty_model() {
    let ldf = parse("").unwrap();
    assert_eq!(ldf.header.baudrate, 0);
    assert_eq!(ldf.nodes.master, "");
    assert!(ldf.frames.is_empty());
    assert!(ldf.schedule_tables.is_empty());
}

#[test]
fn same_frame_name_is_replaced() {
    let ldf = parse("Frames {\n  F1: 0x10, M, 2 {\n  F1: 0x11, M, 3 {\n}").unwrap();
    assert_eq!(ldf.frames.len(), 1);
    check_frame(&ldf, "F1", 0x11, "M", 3);
}

#[test]
fn unended_nodes_is_an_error() {
    assert_eq!(parse("Nodes {\n  Master: M, 5.0 ms").err(), Some(LdfError::NodesNotEnded));
}

#[test]
fn unended_frames_is_an_error() {
    assert_eq!(parse("Frames {\n  F: 0x1, M, 1 {\n  }").err(), Some(LdfError::FramesNotEnded));
}

#[test]
fn unended_schedule_tables_is_an_error() {
    assert_eq!(
        parse("Schedule_tables {\n  T {\n    F delay 5.0 ms;\n  }").err(),
        Some(LdfError::ScheduleTablesNotEnded)
    );
}

#[test]
fn unended_schedule_table_is_an_error() {
    assert_eq!(
        parse("Schedule_tables {\n  T {\n    F delay 5.0 ms;").err(),
        Some(LdfError::ScheduleTableNotEnded)
    );
}

#[test]
fn nameless_schedule_table_is_an_error() {
    assert_eq!(
        parse("Schedule_tables {\n  bad-name {\n  }\n}").err(),
        Some(LdfError::ScheduleTableNameMissing)
    );
}

#[test]
fn frame_id_beyond_32_bits_is_an_error() {
    assert_eq!(
        parse("Frames {\n  F: 0x100000000, M, 1 {\n}").err(),
        Some(LdfError::InvalidFrameId)
    );
}

#[test]
fn frame_size_beyond_8_bits_is_an_error() {
    assert_eq!(
        parse("Frames {\n  F: 0x1, M, 256 {\n}").err(),
        Some(LdfError::InvalidFrameSize)
    );
}

#[test]
fn fractional_delay_is_kept_in_microseconds() {
    let ldf = parse("Schedule_tables {\n  T {\n    F delay 2.5 ms;\n  }\n}").unwrap();
    check_table(&ldf, "T", &[("F", 2_500)]);
}
