//! The schedule loader: reads the textual description of a bus (its speed,
//! its master node, its frames and its schedule tables) in one forward pass
//! over the lines.
use vstd::prelude::*;
use crate::text::{
    CharClass, DECIMAL_CAP, chars_of, min_nat, decimal_at, ends_with_char, has_lit, in_class, is_line, lit_at,
    number_value, read_decimal, scan, span, substring, value_in_base,
};

verus! {

/// The bus speed, in bits per second.
#[derive(Debug, PartialEq, Eq)]
pub struct Header {
    pub baudrate: u32,
}

/// The master node and the base tick of its schedule.
#[derive(Debug, PartialEq)]
pub struct Nodes {
    pub master: String,
    pub base_tick_ms: u32,
}

/// A frame descriptor.
#[derive(Debug, PartialEq)]
pub struct Frame {
    pub name: String,
    pub id: u32,
    pub owner: String,
    pub size: u8,
}

/// One slot of a schedule table: the frame sent, and how long the slot lasts
/// in microseconds (thousandths of the milliseconds written).
#[derive(Debug, PartialEq)]
pub struct ScheduleTableItem {
    pub name: String,
    pub delay_us: u32,
}

/// A named schedule table; its slots in file order.
#[derive(Debug, PartialEq)]
pub struct ScheduleTable {
    pub name: String,
    pub items: Vec<ScheduleTableItem>,
}

/// A loaded schedule file. Frames and tables are keyed by name: no two share one.
#[derive(Debug, PartialEq)]
pub struct LDF {
    pub header: Header,
    pub nodes: Nodes,
    pub frames: Vec<Frame>,
    pub schedule_tables: Vec<ScheduleTable>,
}

/// Why a schedule file was refused.
#[derive(Debug, Clone, Copy, PartialEq, Eq, Structural)]
pub enum LdfError {
    NodesNotEnded,
    FramesNotEnded,
    ScheduleTablesNotEnded,
    ScheduleTableNotEnded,
    ScheduleTableNameMissing,
    /// A frame identifier that does not fit 32 bits.
    InvalidFrameId,
    /// A frame size that does not fit 8 bits.
    InvalidFrameSize,
}

pub ghost struct FrameDesc {
    pub name: Seq<char>,
    pub id: u32,
    pub owner: Seq<char>,
    pub size: u8,
}

pub ghost struct ItemModel {
    pub name: Seq<char>,
    pub delay_us: u32,
}

pub ghost struct TableModel {
    pub name: Seq<char>,
    pub items: Seq<ItemModel>,
}

pub ghost struct LdfModel {
    pub baudrate: u32,
    pub master: Seq<char>,
    pub base_tick_ms: u32,
    pub frames: Seq<FrameDesc>,
    pub tables: Seq<TableModel>,
}

impl View for Frame {
    type V = FrameDesc;

    open spec fn view(&self) -> FrameDesc {
        FrameDesc { name: self.name@, id: self.id, owner: self.owner@, size: self.size }
    }
}

impl View for ScheduleTableItem {
    type V = ItemModel;

    open spec fn view(&self) -> ItemModel {
        ItemModel { name: self.name@, delay_us: self.delay_us }
    }
}

impl View for ScheduleTable {
    type V = TableModel;

    open spec fn view(&self) -> TableModel {
        TableModel { name: self.name@, items: self.items@.map_values(|i: ScheduleTableItem| i@) }
    }
}

impl View for LDF {
    type V = LdfModel;

    open spec fn view(&self) -> LdfModel {
        LdfModel {
            baudrate: self.header.baudrate,
            master: self.nodes.master@,
            base_tick_ms: self.nodes.base_tick_ms,
            frames: self.frames@.map_values(|f: Frame| f@),
            tables: self.schedule_tables@.map_values(|t: ScheduleTable| t@),
        }
    }
}

/// `LIN_speed = D.D kbps;` gives the speed in bits per second.
pub open spec fn baudrate_line(l: Seq<char>) -> Option<u32> {
    if lit_at(l, 0, "LIN_speed = "@) {
        match decimal_at(l, "LIN_speed = "@.len() as int) {
            Some((f, v)) => if lit_at(l, f, " kbps;"@) {
                Some(v as u32)
            } else {
                None
            },
            None => None,
        }
    } else {
        None
    }
}

/// `  Master: NAME, D.D ms` gives the master's name and the base tick: the
/// whole milliseconds written, the fraction dropped (at most `u32::MAX`).
pub open spec fn master_line(l: Seq<char>) -> Option<(Seq<char>, u32)> {
    let a = span(l, 0, CharClass::Space);
    let b = a + "Master: "@.len();
    let c = span(l, b, CharClass::Alnum);
    if lit_at(l, a, "Master: "@) && c > b && lit_at(l, c, ", "@) {
        match decimal_at(l, c + ", "@.len()) {
            Some((f, _)) => if lit_at(l, f, " ms"@) {
                let d = c + ", "@.len();
                let whole = l.subrange(d, span(l, d, CharClass::Digit));
                Some((l.subrange(b, c), min_nat(value_in_base(whole, 10), DECIMAL_CAP as nat) as u32))
            } else {
                None
            },
            None => None,
        }
    } else {
        None
    }
}

/// `  NAME: 0xHEX, OWNER, SIZE {` declares a frame. A line of that shape whose
/// identifier or size does not fit its type is an error.
pub open spec fn frame_line(l: Seq<char>) -> Result<Option<FrameDesc>, LdfError> {
    let a = span(l, 0, CharClass::Space);
    let b = span(l, a, CharClass::Alnum);
    let c = span(l, b + 1, CharClass::Space);
    let h0 = c + "0x"@.len();
    let h = span(l, h0, CharClass::Hex);
    let d = span(l, h + 1, CharClass::Space);
    let w = span(l, d, CharClass::Word);
    let e = span(l, w + 1, CharClass::Space);
    let g = span(l, e, CharClass::Digit);
    let k = span(l, g, CharClass::Space);
    if b > a && b < l.len() && l[b] == ':' && c > b + 1 && lit_at(l, c, "0x"@) && h > h0 && h
        < l.len() && l[h] == ',' && d > h + 1 && w > d && w < l.len() && l[w] == ',' && e > w
        + 1 && g > e && k < l.len() && l[k] == '{' {
        let id = value_in_base(l.subrange(h0, h), 16);
        let size = value_in_base(l.subrange(e, g), 10);
        if id > u32::MAX {
            Err(LdfError::InvalidFrameId)
        } else if size > u8::MAX {
            Err(LdfError::InvalidFrameSize)
        } else {
            Ok(
                Some(
                    FrameDesc {
                        name: l.subrange(a, b),
                        id: id as u32,
                        owner: l.subrange(d, w),
                        size: size as u8,
                    },
                ),
            )
        }
    } else {
        Ok(None)
    }
}

/// `  NAME {` opens a schedule table, with exactly one space character before
/// the brace.
pub open spec fn table_name_line(l: Seq<char>) -> Option<Seq<char>> {
    let a = span(l, 0, CharClass::Space);
    let b = span(l, a, CharClass::Alnum);
    if b > a && b + 1 < l.len() && in_class(l[b], CharClass::Space) && l[b + 1] == '{' {
        Some(l.subrange(a, b))
    } else {
        None
    }
}

/// `  NAME delay D.D ms;` is one slot of a schedule table.
pub open spec fn entry_line(l: Seq<char>) -> Option<ItemModel> {
    let a = span(l, 0, CharClass::Space);
    let b = span(l, a, CharClass::Alnum);
    let c = b + 1 + "delay"@.len();
    if b > a && b < l.len() && in_class(l[b], CharClass::Space) && lit_at(l, b + 1, "delay"@)
        && c < l.len() && in_class(l[c], CharClass::Space) {
        match decimal_at(l, c + 1) {
            Some((f, v)) => if lit_at(l, f, " ms;"@) {
                Some(ItemModel { name: l.subrange(a, b), delay_us: v as u32 })
            } else {
                None
            },
            None => None,
        }
    } else {
        None
    }
}

fn read_baudrate_line(l: &Vec<char>) -> (r: Option<u32>)
    ensures
        r == baudrate_line(l@),
{
    if !has_lit(l, 0, "LIN_speed = ") {
        return None;
    }
    match read_decimal(l, "LIN_speed = ".unicode_len()) {
        Some((f, v)) => {
            if has_lit(l, f, " kbps;") {
                Some(v as u32)
            } else {
                None
            }
        },
        None => None,
    }
}

fn read_master_line(line: &str, l: &Vec<char>) -> (r: Option<(String, u32)>)
    requires
        l@ == line@,
    ensures
        match r {
            Some((m, t)) => master_line(l@) == Some((m@, t)),
            None => master_line(l@) is None,
        },
{
    let n = l.len();
    let a = scan(l, 0, CharClass::Space);
    if !has_lit(l, a, "Master: ") {
        return None;
    }
    let b = a + "Master: ".unicode_len();
    let c = scan(l, b, CharClass::Alnum);
    if !(c > b && has_lit(l, c, ", ")) {
        return None;
    }
    let d = c + ", ".unicode_len();
    match read_decimal(l, d) {
        Some((f, _)) => {
            if has_lit(l, f, " ms") {
                let e = scan(l, d, CharClass::Digit);
                let whole = number_value(l, d, e, 10, DECIMAL_CAP);
                Some((substring(line, b, c), whole as u32))
            } else {
                None
            }
        },
        None => None,
    }
}

fn read_frame_line(line: &str, l: &Vec<char>) -> (r: Result<Option<Frame>, LdfError>)
    requires
        l@ == line@,
    ensures
        match r {
            Ok(Some(f)) => frame_line(l@) == Ok::<Option<FrameDesc>, LdfError>(Some(f@)),
            Ok(None) => frame_line(l@) == Ok::<Option<FrameDesc>, LdfError>(None),
            Err(e) => frame_line(l@) == Err::<Option<FrameDesc>, LdfError>(e),
        },
{
    let n = l.len();
    let a = scan(l, 0, CharClass::Space);
    let b = scan(l, a, CharClass::Alnum);
    if !(b > a && b < n && l[b] == ':') {
        return Ok(None);
    }
    let c = scan(l, b + 1, CharClass::Space);
    if !(c > b + 1 && has_lit(l, c, "0x")) {
        return Ok(None);
    }
    let h0 = c + "0x".unicode_len();
    let h = scan(l, h0, CharClass::Hex);
    if !(h > h0 && h < n && l[h] == ',') {
        return Ok(None);
    }
    let d = scan(l, h + 1, CharClass::Space);
    if !(d > h + 1) {
        return Ok(None);
    }
    let w = scan(l, d, CharClass::Word);
    if !(w > d && w < n && l[w] == ',') {
        return Ok(None);
    }
    let e = scan(l, w + 1, CharClass::Space);
    if !(e > w + 1) {
        return Ok(None);
    }
    let g = scan(l, e, CharClass::Digit);
    if !(g > e) {
        return Ok(None);
    }
    let k = scan(l, g, CharClass::Space);
    if !(k < n && l[k] == '{') {
        return Ok(None);
    }
    let id = number_value(l, h0, h, 16, 0x1_0000_0000);
    if id > 0xFFFF_FFFF {
        return Err(LdfError::InvalidFrameId);
    }
    let size = number_value(l, e, g, 10, 256);
    if size > 255 {
        return Err(LdfError::InvalidFrameSize);
    }
    Ok(
        Some(
            Frame {
                name: substring(line, a, b),
                id: id as u32,
                owner: substring(line, d, w),
                size: size as u8,
            },
        ),
    )
}

fn read_table_name_line(line: &str, l: &Vec<char>) -> (r: Option<String>)
    requires
        l@ == line@,
    ensures
        match r {
            Some(s) => table_name_line(l@) == Some(s@),
            None => table_name_line(l@) is None,
        },
{
    let a = scan(l, 0, CharClass::Space);
    let b = scan(l, a, CharClass::Alnum);
    if b > a && b < l.len() && b + 1 < l.len() && crate::text::class_has(l[b], CharClass::Space)
        && l[b + 1] == '{' {
        Some(substring(line, a, b))
    } else {
        None
    }
}

fn read_entry_line(line: &str, l: &Vec<char>) -> (r: Option<ScheduleTableItem>)
    requires
        l@ == line@,
    ensures
        match r {
            Some(it) => entry_line(l@) == Some(it@),
            None => entry_line(l@) is None,
        },
{
    let a = scan(l, 0, CharClass::Space);
    let b = scan(l, a, CharClass::Alnum);
    if !(b > a && b < l.len() && crate::text::class_has(l[b], CharClass::Space) && has_lit(
        l,
        b + 1,
        "delay",
    )) {
        return None;
    }
    let c = b + 1 + "delay".unicode_len();
    if !(c < l.len() && crate::text::class_has(l[c], CharClass::Space)) {
        return None;
    }
    match read_decimal(l, c + 1) {
        Some((f, v)) => {
            if has_lit(l, f, " ms;") {
                Some(ScheduleTableItem { name: substring(line, a, b), delay_us: v as u32 })
            } else {
                None
            }
        },
        None => None,
    }
}

/// The block that the loader is inside of.
#[derive(Clone, Copy, PartialEq, Eq, Structural)]
pub enum Section {
    Top,
    Nodes,
    Frames,
    ScheduleTables,
    ScheduleTable,
}

/// Where the loader stands after some lines: the block it is in, what it has
/// read, and the schedule table it is reading.
pub ghost struct ParseState {
    pub section: Section,
    pub model: LdfModel,
    pub table: TableModel,
}

/// The position of the descriptor named `name`, or -1.
pub open spec fn frame_slot(fs: Seq<FrameDesc>, name: Seq<char>) -> int
    decreases fs.len(),
{
    if fs.len() == 0 {
        -1
    } else if fs.last().name == name {
        fs.len() - 1
    } else {
        frame_slot(fs.drop_last(), name)
    }
}

/// The position of the table named `name`, or -1.
pub open spec fn table_slot(ts: Seq<TableModel>, name: Seq<char>) -> int
    decreases ts.len(),
{
    if ts.len() == 0 {
        -1
    } else if ts.last().name == name {
        ts.len() - 1
    } else {
        table_slot(ts.drop_last(), name)
    }
}

/// Adds a descriptor; one of the same name is replaced.
pub open spec fn insert_frame(fs: Seq<FrameDesc>, f: FrameDesc) -> Seq<FrameDesc> {
    let k = frame_slot(fs, f.name);
    if k >= 0 {
        fs.update(k, f)
    } else {
        fs.push(f)
    }
}

/// Adds a table; one of the same name is replaced.
pub open spec fn insert_table(ts: Seq<TableModel>, t: TableModel) -> Seq<TableModel> {
    let k = table_slot(ts, t.name);
    if k >= 0 {
        ts.update(k, t)
    } else {
        ts.push(t)
    }
}

/// No two frame descriptors share a name, and no two tables do.
pub open spec fn keyed_by_name(m: LdfModel) -> bool {
    &&& forall|i: int, j: int| 0 <= i < j < m.frames.len() ==> m.frames[i].name != m.frames[j].name
    &&& forall|i: int, j: int| 0 <= i < j < m.tables.len() ==> m.tables[i].name != m.tables[j].name
}

proof fn lemma_frame_slot(fs: Seq<FrameDesc>, name: Seq<char>)
    ensures
        -1 <= frame_slot(fs, name) < fs.len(),
        frame_slot(fs, name) >= 0 ==> fs[frame_slot(fs, name)].name == name,
        frame_slot(fs, name) == -1 ==> forall|i: int| 0 <= i < fs.len() ==> fs[i].name != name,
    decreases fs.len(),
{
    if fs.len() > 0 {
        lemma_frame_slot(fs.drop_last(), name);
        assert forall|i: int| 0 <= i < fs.len() - 1 implies fs.drop_last()[i] == fs[i] by {}
    }
}

proof fn lemma_table_slot(ts: Seq<TableModel>, name: Seq<char>)
    ensures
        -1 <= table_slot(ts, name) < ts.len(),
        table_slot(ts, name) >= 0 ==> ts[table_slot(ts, name)].name == name,
        table_slot(ts, name) == -1 ==> forall|i: int| 0 <= i < ts.len() ==> ts[i].name != name,
    decreases ts.len(),
{
    if ts.len() > 0 {
        lemma_table_slot(ts.drop_last(), name);
        assert forall|i: int| 0 <= i < ts.len() - 1 implies ts.drop_last()[i] == ts[i] by {}
    }
}

/// Each line keeps names unique.
proof fn lemma_step_keyed(st: ParseState, l: Seq<char>)
    requires
        keyed_by_name(st.model),
        step(st, l) is Ok,
    ensures
        keyed_by_name(step(st, l)->Ok_0.model),
{
    let m = st.model;
    if st.section == Section::Frames {
        if let Ok(Some(f)) = frame_line(l) {
            lemma_frame_slot(m.frames, f.name);
            let fs2 = insert_frame(m.frames, f);
            assert forall|i: int, j: int| 0 <= i < j < fs2.len() implies fs2[i].name != fs2[j].name by {
                if frame_slot(m.frames, f.name) < 0 {
                    if j == m.frames.len() {
                        assert(fs2[i] == m.frames[i]);
                    }
                }
            }
        }
    }
    if st.section == Section::ScheduleTable && l.len() > 0 && l.last() == '}' {
        lemma_table_slot(m.tables, st.table.name);
        let ts2 = insert_table(m.tables, st.table);
        assert forall|i: int, j: int| 0 <= i < j < ts2.len() implies ts2[i].name != ts2[j].name by {
            if table_slot(m.tables, st.table.name) < 0 {
                if j == m.tables.len() {
                    assert(ts2[i] == m.tables[i]);
                }
            }
        }
    }
}

pub open spec fn initial_state() -> ParseState {
    ParseState {
        section: Section::Top,
        model: LdfModel {
            baudrate: 0,
            master: Seq::empty(),
            base_tick_ms: 0,
            frames: Seq::empty(),
            tables: Seq::empty(),
        },
        table: TableModel { name: Seq::empty(), items: Seq::empty() },
    }
}

/// What one line does to the loader.
pub open spec fn step(st: ParseState, l: Seq<char>) -> Result<ParseState, LdfError> {
    let m = st.model;
    match st.section {
        Section::Top => if l == "Nodes {"@ {
            Ok(
                ParseState {
                    section: Section::Nodes,
                    model: LdfModel { master: Seq::empty(), base_tick_ms: 0, ..m },
                    ..st
                },
            )
        } else if l == "Frames {"@ {
            Ok(
                ParseState {
                    section: Section::Frames,
                    model: LdfModel { frames: Seq::empty(), ..m },
                    ..st
                },
            )
        } else if l == "Schedule_tables {"@ {
            Ok(
                ParseState {
                    section: Section::ScheduleTables,
                    model: LdfModel { tables: Seq::empty(), ..m },
                    ..st
                },
            )
        } else {
            match baudrate_line(l) {
                Some(b) => Ok(ParseState { model: LdfModel { baudrate: b, ..m }, ..st }),
                None => Ok(st),
            }
        },
        Section::Nodes => if l == "}"@ {
            Ok(ParseState { section: Section::Top, ..st })
        } else {
            match master_line(l) {
                Some((name, tick)) => Ok(
                    ParseState { model: LdfModel { master: name, base_tick_ms: tick, ..m }, ..st },
                ),
                None => Ok(st),
            }
        },
        Section::Frames => match frame_line(l) {
            Err(e) => Err(e),
            Ok(Some(f)) => Ok(
                ParseState { model: LdfModel { frames: insert_frame(m.frames, f), ..m }, ..st },
            ),
            Ok(None) => if l == "}"@ {
                Ok(ParseState { section: Section::Top, ..st })
            } else {
                Ok(st)
            },
        },
        Section::ScheduleTables => if l.len() > 0 && l.last() == '{' {
            match table_name_line(l) {
                Some(name) => Ok(
                    ParseState {
                        section: Section::ScheduleTable,
                        table: TableModel { name, items: Seq::empty() },
                        ..st
                    },
                ),
                None => Err(LdfError::ScheduleTableNameMissing),
            }
        } else if l == "}"@ {
            Ok(ParseState { section: Section::Top, ..st })
        } else {
            Ok(st)
        },
        Section::ScheduleTable => if l.len() > 0 && l.last() == '}' {
            Ok(
                ParseState {
                    section: Section::ScheduleTables,
                    model: LdfModel { tables: insert_table(m.tables, st.table), ..m },
                    table: TableModel { name: Seq::empty(), items: Seq::empty() },
                },
            )
        } else {
            match entry_line(l) {
                Some(it) => Ok(
                    ParseState {
                        table: TableModel { items: st.table.items.push(it), ..st.table },
                        ..st
                    },
                ),
                None => Ok(st),
            }
        },
    }
}

/// The loader after the given lines, or the first error.
pub open spec fn run_lines(lines: Seq<Seq<char>>) -> Result<ParseState, LdfError>
    decreases lines.len(),
{
    if lines.len() == 0 {
        Ok(initial_state())
    } else {
        match run_lines(lines.drop_last()) {
            Ok(st) => step(st, lines.last()),
            Err(e) => Err(e),
        }
    }
}

/// The end of the input: every block must have been closed.
pub open spec fn finish(st: ParseState) -> Result<LdfModel, LdfError> {
    match st.section {
        Section::Top => Ok(st.model),
        Section::Nodes => Err(LdfError::NodesNotEnded),
        Section::Frames => Err(LdfError::FramesNotEnded),
        Section::ScheduleTables => Err(LdfError::ScheduleTablesNotEnded),
        Section::ScheduleTable => Err(LdfError::ScheduleTableNotEnded),
    }
}

/// What a schedule file of these lines loads to.
pub open spec fn parse_model(lines: Seq<Seq<char>>) -> Result<LdfModel, LdfError> {
    match run_lines(lines) {
        Ok(st) => finish(st),
        Err(e) => Err(e),
    }
}

pub open spec fn line_views(lines: Seq<String>) -> Seq<Seq<char>> {
    lines.map_values(|l: String| l@)
}

fn find_frame(fs: &Vec<Frame>, name: &String) -> (r: Option<usize>)
    ensures
        match r {
            Some(k) => frame_slot(fs@.map_values(|f: Frame| f@), name@) == k as int && k < fs@.len(),
            None => frame_slot(fs@.map_values(|f: Frame| f@), name@) == -1,
        },
{
    let ghost v = fs@.map_values(|f: Frame| f@);
    let mut j: usize = fs.len();
    assert(v.take(j as int) =~= v);
    while j > 0
        invariant
            j <= fs@.len(),
            v == fs@.map_values(|f: Frame| f@),
            frame_slot(v, name@) == frame_slot(v.take(j as int), name@),
        decreases j,
    {
        assert(v.take(j as int).drop_last() =~= v.take(j - 1));
        if fs[j - 1].name == *name {
            return Some(j - 1);
        }
        j -= 1;
    }
    None
}

fn find_table(ts: &Vec<ScheduleTable>, name: &String) -> (r: Option<usize>)
    ensures
        match r {
            Some(k) => table_slot(ts@.map_values(|t: ScheduleTable| t@), name@) == k as int && k
                < ts@.len(),
            None => table_slot(ts@.map_values(|t: ScheduleTable| t@), name@) == -1,
        },
{
    let ghost v = ts@.map_values(|t: ScheduleTable| t@);
    let mut j: usize = ts.len();
    assert(v.take(j as int) =~= v);
    while j > 0
        invariant
            j <= ts@.len(),
            v == ts@.map_values(|t: ScheduleTable| t@),
            table_slot(v, name@) == table_slot(v.take(j as int), name@),
        decreases j,
    {
        assert(v.take(j as int).drop_last() =~= v.take(j - 1));
        if ts[j - 1].name == *name {
            return Some(j - 1);
        }
        j -= 1;
    }
    None
}

struct Parser {
    section: Section,
    ldf: LDF,
    table: ScheduleTable,
}

impl View for Parser {
    type V = ParseState;

    closed spec fn view(&self) -> ParseState {
        ParseState { section: self.section, model: self.ldf@, table: self.table@ }
    }
}

fn empty_table() -> (r: ScheduleTable)
    ensures
        r@ == (TableModel { name: Seq::empty(), items: Seq::empty() }),
{
    let r = ScheduleTable { name: String::new(), items: Vec::new() };
    assert(r@.items =~= Seq::<ItemModel>::empty());
    r
}

fn add_frame(fs: &mut Vec<Frame>, f: Frame)
    ensures
        final(fs)@.map_values(|x: Frame| x@) == insert_frame(old(fs)@.map_values(|x: Frame| x@), f@),
{
    let ghost v = old(fs)@.map_values(|x: Frame| x@);
    let ghost fv = f@;
    match find_frame(fs, &f.name) {
        Some(k) => {
            fs.set(k, f);
            assert(fs@.map_values(|x: Frame| x@) =~= v.update(k as int, fv));
        },
        None => {
            fs.push(f);
            assert(fs@.map_values(|x: Frame| x@) =~= v.push(fv));
        },
    }
}

fn add_table(ts: &mut Vec<ScheduleTable>, t: ScheduleTable)
    ensures
        final(ts)@.map_values(|x: ScheduleTable| x@) == insert_table(
            old(ts)@.map_values(|x: ScheduleTable| x@),
            t@,
        ),
{
    let ghost v = old(ts)@.map_values(|x: ScheduleTable| x@);
    let ghost tv = t@;
    match find_table(ts, &t.name) {
        Some(k) => {
            ts.set(k, t);
            assert(ts@.map_values(|x: ScheduleTable| x@) =~= v.update(k as int, tv));
        },
        None => {
            ts.push(t);
            assert(ts@.map_values(|x: ScheduleTable| x@) =~= v.push(tv));
        },
    }
}

fn step_line(p: &mut Parser, line: &String) -> (r: Result<(), LdfError>)
    ensures
        match r {
            Ok(()) => step(old(p)@, line@) == Ok::<ParseState, LdfError>(final(p)@),
            Err(e) => step(old(p)@, line@) == Err::<ParseState, LdfError>(e),
        },
{
    let l = chars_of(line.as_str());
    match p.section {
        Section::Top => {
            if is_line(&l, "Nodes {") {
                p.section = Section::Nodes;
                p.ldf.nodes = Nodes { master: String::new(), base_tick_ms: 0 };
            } else if is_line(&l, "Frames {") {
                p.section = Section::Frames;
                p.ldf.frames = Vec::new();
                assert(p.ldf@.frames =~= Seq::<FrameDesc>::empty());
            } else if is_line(&l, "Schedule_tables {") {
                p.section = Section::ScheduleTables;
                p.ldf.schedule_tables = Vec::new();
                assert(p.ldf@.tables =~= Seq::<TableModel>::empty());
            } else if let Some(b) = read_baudrate_line(&l) {
                p.ldf.header.baudrate = b;
            }
            Ok(())
        },
        Section::Nodes => {
            if is_line(&l, "}") {
                p.section = Section::Top;
            } else if let Some((m, t)) = read_master_line(line.as_str(), &l) {
                p.ldf.nodes.master = m;
                p.ldf.nodes.base_tick_ms = t;
            }
            Ok(())
        },
        Section::Frames => match read_frame_line(line.as_str(), &l) {
            Err(e) => Err(e),
            Ok(Some(f)) => {
                add_frame(&mut p.ldf.frames, f);
                Ok(())
            },
            Ok(None) => {
                if is_line(&l, "}") {
                    p.section = Section::Top;
                }
                Ok(())
            },
        },
        Section::ScheduleTables => {
            if ends_with_char(&l, '{') {
                match read_table_name_line(line.as_str(), &l) {
                    Some(name) => {
                        p.section = Section::ScheduleTable;
                        p.table = ScheduleTable { name, items: Vec::new() };
                        assert(p.table@.items =~= Seq::<ItemModel>::empty());
                        Ok(())
                    },
                    None => Err(LdfError::ScheduleTableNameMissing),
                }
            } else {
                if is_line(&l, "}") {
                    p.section = Section::Top;
                }
                Ok(())
            }
        },
        Section::ScheduleTable => {
            if ends_with_char(&l, '}') {
                let mut t = empty_table();
                std::mem::swap(&mut t, &mut p.table);
                add_table(&mut p.ldf.schedule_tables, t);
                p.section = Section::ScheduleTables;
            } else if let Some(it) = read_entry_line(line.as_str(), &l) {
                let ghost before = p.table@.items;
                let ghost iv = it@;
                p.table.items.push(it);
                assert(p.table@.items =~= before.push(iv));
            }
            Ok(())
        },
    }
}

proof fn lemma_error_persists(lines: Seq<Seq<char>>, k: int)
    requires
        0 <= k <= lines.len(),
        run_lines(lines.take(k)) is Err,
    ensures
        run_lines(lines) == run_lines(lines.take(k)),
    decreases lines.len(),
{
    if lines.len() == k {
        assert(lines.take(k) =~= lines);
    } else {
        assert(lines.drop_last().take(k) =~= lines.take(k));
        lemma_error_persists(lines.drop_last(), k);
    }
}

/// Loads a schedule file from its lines. Fails on the first malformed frame
/// declaration or nameless table, and where a block is never closed; lines of
/// no known shape are skipped.
pub fn parse_lines(lines: &Vec<String>) -> (r: Result<LDF, LdfError>)
    ensures
        match r {
            Ok(m) => parse_model(line_views(lines@)) == Ok::<LdfModel, LdfError>(m@) && keyed_by_name(m@),
            Err(e) => parse_model(line_views(lines@)) == Err::<LdfModel, LdfError>(e),
        },
{
    let mut p = Parser {
        section: Section::Top,
        ldf: LDF {
            header: Header { baudrate: 0 },
            nodes: Nodes { master: String::new(), base_tick_ms: 0 },
            frames: Vec::new(),
            schedule_tables: Vec::new(),
        },
        table: empty_table(),
    };
    let ghost v = line_views(lines@);
    assert(p@.model.frames =~= Seq::<FrameDesc>::empty());
    assert(p@.model.tables =~= Seq::<TableModel>::empty());
    assert(v.take(0) =~= Seq::<Seq<char>>::empty());
    let mut i: usize = 0;
    while i < lines.len()
        invariant
            i <= lines@.len(),
            v == line_views(lines@),
            run_lines(v.take(i as int)) == Ok::<ParseState, LdfError>(p@),
            keyed_by_name(p@.model),
        decreases lines@.len() - i,
    {
        assert(v.take(i + 1).drop_last() =~= v.take(i as int));
        let ghost before = p@;
        match step_line(&mut p, &lines[i]) {
            Ok(()) => {
                proof {
                    lemma_step_keyed(before, lines@[i as int]@);
                }
            },
            Err(e) => {
                proof {
                    lemma_error_persists(v, i + 1);
                }
                return Err(e);
            },
        }
        i += 1;
    }
    assert(v.take(i as int) =~= v);
    match p.section {
        Section::Top => Ok(p.ldf),
        Section::Nodes => Err(LdfError::NodesNotEnded),
        Section::Frames => Err(LdfError::FramesNotEnded),
        Section::ScheduleTables => Err(LdfError::ScheduleTablesNotEnded),
        Section::ScheduleTable => Err(LdfError::ScheduleTableNotEnded),
    }
}

/// The descriptor named `name`, if any.
pub open spec fn frame_named(m: LdfModel, name: Seq<char>) -> Option<FrameDesc> {
    let k = frame_slot(m.frames, name);
    if 0 <= k < m.frames.len() {
        Some(m.frames[k])
    } else {
        None
    }
}

/// The table named `name`, if any.
pub open spec fn table_named(m: LdfModel, name: Seq<char>) -> Option<TableModel> {
    let k = table_slot(m.tables, name);
    if 0 <= k < m.tables.len() {
        Some(m.tables[k])
    } else {
        None
    }
}

impl LDF {
    /// The frame descriptor of that name.
    pub fn frame(&self, name: &String) -> (r: Option<&Frame>)
        ensures
            match r {
                Some(f) => frame_named(self@, name@) == Some(f@),
                None => frame_named(self@, name@) is None,
            },
    {
        match find_frame(&self.frames, name) {
            Some(k) => Some(&self.frames[k]),
            None => None,
        }
    }

    /// The schedule table of that name.
    pub fn schedule_table(&self, name: &String) -> (r: Option<&ScheduleTable>)
        ensures
            match r {
                Some(t) => table_named(self@, name@) == Some(t@),
                None => table_named(self@, name@) is None,
            },
    {
        match find_table(&self.schedule_tables, name) {
            Some(k) => Some(&self.schedule_tables[k]),
            None => None,
        }
    }
}

} // verus!
