use vstd::prelude::*;

use vstd::string::StringSliceAdditionalSpecFns;
use vstd::utf8::encode_utf8;

use crate::decimal::{parse_unsigned, unsigned_value};
use crate::error::SysProbeError;
use crate::field_map::FieldMap;
use crate::timestamp::{decode_timestamp, timestamp_to_unix_time};

verus! {

/// The shape a record needs of a field's text.
#[derive(Debug, Clone, Copy, PartialEq, Eq, Structural)]
pub enum FieldKind {
    /// Any text.
    Text,
    /// An unsigned decimal that fits in `u32`.
    Unsigned32,
    /// An unsigned decimal that fits in `u16`.
    Unsigned16,
    /// Any text; empty text stands for no value.
    OptionalText,
    /// Empty text for no value, else an unsigned decimal that fits in `u32`.
    OptionalUnsigned32,
    /// A timestamp that decodes.
    Timestamp,
}

/// The value of a field's text read as `str::parse` reads an unsigned integer up to `max`.
pub open spec fn number(t: Seq<char>, max: int) -> Option<int> {
    unsigned_value(encode_utf8(t), max)
}

/// What is wrong with field `name` of `m` for `kind`: `Some(true)` when it is
/// absent, `Some(false)` when its text lacks the shape, `None` when it is fine.
pub open spec fn field_problem(
    m: Map<Seq<char>, Seq<char>>,
    name: Seq<char>,
    kind: FieldKind,
) -> Option<bool> {
    if !m.contains_key(name) {
        Some(true)
    } else {
        let t = m[name];
        let fits = match kind {
            FieldKind::Text => true,
            FieldKind::OptionalText => true,
            FieldKind::Unsigned32 => number(t, 0xffff_ffff) is Some,
            FieldKind::Unsigned16 => number(t, 0xffff) is Some,
            FieldKind::OptionalUnsigned32 => t.len() == 0 || number(t, 0xffff_ffff) is Some,
            FieldKind::Timestamp => decode_timestamp(encode_utf8(t)) is Some,
        };
        if fits {
            None
        } else {
            Some(false)
        }
    }
}

/// A problem of a field: its name, whether it is absent, and the shape it was read for.
pub type Problem = (Seq<char>, bool, FieldKind);

/// The first problem of fields checked in order: that of `name` if it has one,
/// else `rest`.
pub open spec fn first_of(
    m: Map<Seq<char>, Seq<char>>,
    name: Seq<char>,
    kind: FieldKind,
    rest: Option<Problem>,
) -> Option<Problem> {
    match field_problem(m, name, kind) {
        Some(missing) => Some((name, missing, kind)),
        None => rest,
    }
}

/// `e` is the error that reports problem `p`.
pub open spec fn reports(e: SysProbeError, p: Problem) -> bool {
    if p.1 {
        e matches SysProbeError::MissingField(n) && n@ == p.0
    } else if p.2 == FieldKind::Timestamp {
        e == SysProbeError::DateTimeParsingError
    } else {
        e matches SysProbeError::InvalidField(n) && n@ == p.0
    }
}

/// `o` holds no value for empty text, else the text.
pub open spec fn optional_text(o: Option<String>, t: Seq<char>) -> bool {
    if t.len() == 0 {
        o is None
    } else {
        o matches Some(s) && s@ == t
    }
}

/// `o` holds no value for empty text, else the number the text reads as.
pub open spec fn optional_number(o: Option<u32>, t: Seq<char>) -> bool {
    if t.len() == 0 {
        o is None
    } else {
        o matches Some(v) && number(t, 0xffff_ffff) == Some(v as int)
    }
}

fn text_field(m: &FieldMap, name: &str) -> (r: Result<String, SysProbeError>)
    requires
        m.wf(),
    ensures
        r is Ok <==> field_problem(m@, name@, FieldKind::Text) is None,
        r is Ok ==> r->Ok_0@ == m@[name@],
        r is Err ==> reports(r->Err_0, (name@, true, FieldKind::Text)),
{
    match m.require(name) {
        Ok(v) => Ok(v.clone()),
        Err(e) => Err(e),
    }
}

fn optional_text_field(m: &FieldMap, name: &str) -> (r: Result<Option<String>, SysProbeError>)
    requires
        m.wf(),
    ensures
        r is Ok <==> field_problem(m@, name@, FieldKind::OptionalText) is None,
        r is Ok ==> optional_text(r->Ok_0, m@[name@]),
        r is Err ==> reports(r->Err_0, (name@, true, FieldKind::OptionalText)),
{
    match m.require(name) {
        Ok(v) => if v.as_str().is_empty() {
            Ok(None)
        } else {
            Ok(Some(v.clone()))
        },
        Err(e) => Err(e),
    }
}

fn unsigned_field(m: &FieldMap, name: &str, max: u32, kind: FieldKind) -> (r: Result<
    u32,
    SysProbeError,
>)
    requires
        m.wf(),
        (kind == FieldKind::Unsigned32 && max == 0xffff_ffff) || (kind == FieldKind::Unsigned16
            && max == 0xffff),
    ensures
        r is Ok <==> field_problem(m@, name@, kind) is None,
        r is Ok ==> number(m@[name@], max as int) == Some(r->Ok_0 as int),
        r is Err ==> reports(r->Err_0, (name@, field_problem(m@, name@, kind)->0, kind)),
{
    match m.require(name) {
        Ok(v) => match parse_unsigned(v.as_str().as_bytes(), max) {
            Some(n) => Ok(n),
            None => Err(SysProbeError::InvalidField(name.to_owned())),
        },
        Err(e) => Err(e),
    }
}

fn optional_unsigned_field(m: &FieldMap, name: &str) -> (r: Result<Option<u32>, SysProbeError>)
    requires
        m.wf(),
    ensures
        r is Ok <==> field_problem(m@, name@, FieldKind::OptionalUnsigned32) is None,
        r is Ok ==> optional_number(r->Ok_0, m@[name@]),
        r is Err ==> reports(
            r->Err_0,
            (name@, field_problem(m@, name@, FieldKind::OptionalUnsigned32)->0, FieldKind::OptionalUnsigned32),
        ),
{
    match m.require(name) {
        Ok(v) => {
            let t = v.as_str();
            if t.is_empty() {
                Ok(None)
            } else {
                match parse_unsigned(t.as_bytes(), 0xffff_ffff) {
                    Some(n) => Ok(Some(n)),
                    None => Err(SysProbeError::InvalidField(name.to_owned())),
                }
            }
        },
        Err(e) => Err(e),
    }
}

fn timestamp_field(m: &FieldMap, name: &str) -> (r: Result<i64, SysProbeError>)
    requires
        m.wf(),
    ensures
        r is Ok <==> field_problem(m@, name@, FieldKind::Timestamp) is None,
        r is Ok ==> decode_timestamp(encode_utf8(m@[name@])) == Some(r->Ok_0 as int),
        r is Err ==> reports(
            r->Err_0,
            (name@, field_problem(m@, name@, FieldKind::Timestamp)->0, FieldKind::Timestamp),
        ),
{
    match m.require(name) {
        Ok(v) => timestamp_to_unix_time(v.as_str()),
        Err(e) => Err(e),
    }
}

/// The processor summary.
#[derive(Debug)]
pub struct ProcessorInfo {
    pub name: String,
    pub cores: u32,
    pub threads: u32,
    pub current_clock_speed: u32,
    /// Volts times ten, when the reported voltage word carries a current reading.
    pub current_voltage: Option<u16>,
    pub max_clock_speed: u32,
    pub processor_socket: String,
    pub load_percentage: u16,
    pub voltage_caps: Option<String>,
}

/// The current voltage that a reported voltage word stands for: when bit 7 is set,
/// bits 0 to 6 hold the voltage in tenths of a volt.
pub open spec fn voltage_of(word: int) -> Option<int> {
    if (word / 128) % 2 == 1 {
        Some((word % 128) * 10)
    } else {
        None
    }
}

/// The first field of a processor row that is absent or lacks its shape.
pub open spec fn processor_problem(m: Map<Seq<char>, Seq<char>>) -> Option<Problem> {
    first_of(m, "Name"@, FieldKind::Text,
    first_of(m, "NumberOfCores"@, FieldKind::Unsigned32,
    first_of(m, "ThreadCount"@, FieldKind::Unsigned32,
    first_of(m, "CurrentClockSpeed"@, FieldKind::Unsigned32,
    first_of(m, "CurrentVoltage"@, FieldKind::Unsigned16,
    first_of(m, "MaxClockSpeed"@, FieldKind::Unsigned32,
    first_of(m, "SocketDesignation"@, FieldKind::Text,
    first_of(m, "LoadPercentage"@, FieldKind::Unsigned16,
    first_of(m, "VoltageCaps"@, FieldKind::OptionalText, None)))))))))
}

/// `p` is the processor summary of row `m`.
pub open spec fn processor_of(p: ProcessorInfo, m: Map<Seq<char>, Seq<char>>) -> bool {
    let volts = voltage_of(number(m["CurrentVoltage"@], 0xffff)->0);
    &&& p.name@ == m["Name"@]
    &&& number(m["NumberOfCores"@], 0xffff_ffff) == Some(p.cores as int)
    &&& number(m["ThreadCount"@], 0xffff_ffff) == Some(p.threads as int)
    &&& number(m["CurrentClockSpeed"@], 0xffff_ffff) == Some(p.current_clock_speed as int)
    &&& (p.current_voltage is Some <==> volts is Some)
    &&& (p.current_voltage is Some ==> p.current_voltage->0 == volts->0)
    &&& number(m["MaxClockSpeed"@], 0xffff_ffff) == Some(p.max_clock_speed as int)
    &&& p.processor_socket@ == m["SocketDesignation"@]
    &&& number(m["LoadPercentage"@], 0xffff) == Some(p.load_percentage as int)
    &&& optional_text(p.voltage_caps, m["VoltageCaps"@])
}

/// Builds the processor summary from a processor row. The first field, in the order
/// of `processor_problem`, that is absent or lacks its shape is reported.
pub fn get_processor_info(processor_info: &FieldMap) -> (r: Result<ProcessorInfo, SysProbeError>)
    requires
        processor_info.wf(),
    ensures
        r is Ok <==> processor_problem(processor_info@) is None,
        r is Ok ==> processor_of(r->Ok_0, processor_info@),
        r is Err ==> reports(r->Err_0, processor_problem(processor_info@)->0),
{
    let m = processor_info;
    let name = match text_field(m, "Name") {
        Ok(v) => v,
        Err(e) => return Err(e),
    };
    let cores = match unsigned_field(m, "NumberOfCores", 0xffff_ffff, FieldKind::Unsigned32) {
        Ok(v) => v,
        Err(e) => return Err(e),
    };
    let threads = match unsigned_field(m, "ThreadCount", 0xffff_ffff, FieldKind::Unsigned32) {
        Ok(v) => v,
        Err(e) => return Err(e),
    };
    let current_clock_speed = match unsigned_field(
        m,
        "CurrentClockSpeed",
        0xffff_ffff,
        FieldKind::Unsigned32,
    ) {
        Ok(v) => v,
        Err(e) => return Err(e),
    };
    let word = match unsigned_field(m, "CurrentVoltage", 0xffff, FieldKind::Unsigned16) {
        Ok(v) => v as u16,
        Err(e) => return Err(e),
    };
    let max_clock_speed = match unsigned_field(m, "MaxClockSpeed", 0xffff_ffff, FieldKind::Unsigned32) {
        Ok(v) => v,
        Err(e) => return Err(e),
    };
    let processor_socket = match text_field(m, "SocketDesignation") {
        Ok(v) => v,
        Err(e) => return Err(e),
    };
    let load_percentage = match unsigned_field(m, "LoadPercentage", 0xffff, FieldKind::Unsigned16) {
        Ok(v) => v as u16,
        Err(e) => return Err(e),
    };
    let voltage_caps = match optional_text_field(m, "VoltageCaps") {
        Ok(v) => v,
        Err(e) => return Err(e),
    };
    let current_voltage = if (word & 0x0080) != 0 {
        assert((word & 0x0080) == (word / 128 % 2) * 128) by (bit_vector);
        assert((word & 0x7f) == word % 128) by (bit_vector);
        Some((word & 0x7f) * 10)
    } else {
        assert((word & 0x0080) == (word / 128 % 2) * 128) by (bit_vector);
        None
    };
    Ok(
        ProcessorInfo {
            name,
            cores,
            threads,
            current_clock_speed,
            current_voltage,
            max_clock_speed,
            processor_socket,
            load_percentage,
            voltage_caps,
        },
    )
}

/// One graphics adapter. The resolution, refresh rate and colour depth are absent
/// when the adapter drives no display.
#[derive(Debug)]
pub struct GraphicsInfo {
    pub name: String,
    pub memory: String,
    pub horizontal_resolution: Option<u32>,
    pub vertical_resolution: Option<u32>,
    pub refresh_rate: Option<u32>,
    pub bits_per_pixel: Option<u32>,
}

/// The first field of a graphics-adapter row that is absent or lacks its shape.
#[verifier::opaque]
pub open spec fn graphics_problem(m: Map<Seq<char>, Seq<char>>) -> Option<Problem> {
    first_of(m, "Name"@, FieldKind::Text,
    first_of(m, "AdapterRAM"@, FieldKind::Text,
    first_of(m, "CurrentHorizontalResolution"@, FieldKind::OptionalUnsigned32,
    first_of(m, "CurrentVerticalResolution"@, FieldKind::OptionalUnsigned32,
    first_of(m, "CurrentRefreshRate"@, FieldKind::OptionalUnsigned32,
    first_of(m, "CurrentBitsPerPixel"@, FieldKind::OptionalUnsigned32, None))))))
}

/// `g` is the adapter summary of row `m`.
#[verifier::opaque]
pub open spec fn graphics_of(g: GraphicsInfo, m: Map<Seq<char>, Seq<char>>) -> bool {
    &&& g.name@ == m["Name"@]
    &&& g.memory@ == m["AdapterRAM"@]
    &&& optional_number(g.horizontal_resolution, m["CurrentHorizontalResolution"@])
    &&& optional_number(g.vertical_resolution, m["CurrentVerticalResolution"@])
    &&& optional_number(g.refresh_rate, m["CurrentRefreshRate"@])
    &&& optional_number(g.bits_per_pixel, m["CurrentBitsPerPixel"@])
}

/// Builds the summary of one graphics adapter from its row.
pub fn graphics_info_from_row(row: &FieldMap) -> (r: Result<GraphicsInfo, SysProbeError>)
    requires
        row.wf(),
    ensures
        r is Ok <==> graphics_problem(row@) is None,
        r is Ok ==> graphics_of(r->Ok_0, row@),
        r is Err ==> reports(r->Err_0, graphics_problem(row@)->0),
{
    reveal(graphics_problem);
    reveal(graphics_of);
    let name = match text_field(row, "Name") {
        Ok(v) => v,
        Err(e) => return Err(e),
    };
    let memory = match text_field(row, "AdapterRAM") {
        Ok(v) => v,
        Err(e) => return Err(e),
    };
    let horizontal_resolution = match optional_unsigned_field(row, "CurrentHorizontalResolution") {
        Ok(v) => v,
        Err(e) => return Err(e),
    };
    let vertical_resolution = match optional_unsigned_field(row, "CurrentVerticalResolution") {
        Ok(v) => v,
        Err(e) => return Err(e),
    };
    let refresh_rate = match optional_unsigned_field(row, "CurrentRefreshRate") {
        Ok(v) => v,
        Err(e) => return Err(e),
    };
    let bits_per_pixel = match optional_unsigned_field(row, "CurrentBitsPerPixel") {
        Ok(v) => v,
        Err(e) => return Err(e),
    };
    Ok(
        GraphicsInfo {
            name,
            memory,
            horizontal_resolution,
            vertical_resolution,
            refresh_rate,
            bits_per_pixel,
        },
    )
}

/// Builds one adapter summary per row, in row order. The first row with a problem
/// decides the error.
pub fn parse_graphics_info(rows: &Vec<FieldMap>) -> (r: Result<Vec<GraphicsInfo>, SysProbeError>)
    requires
        forall|i: int| 0 <= i < rows@.len() ==> (#[trigger] rows@[i]).wf(),
    ensures
        r is Ok <==> forall|i: int| 0 <= i < rows@.len() ==> graphics_problem(#[trigger] rows@[i]@) is None,
        r is Ok ==> r->Ok_0@.len() == rows@.len() && forall|i: int|
            0 <= i < rows@.len() ==> graphics_of(#[trigger] r->Ok_0@[i], rows@[i]@),
        r is Err ==> exists|i: int|
            0 <= i < rows@.len() && graphics_problem(#[trigger] rows@[i]@) is Some && (forall|j: int|
                0 <= j < i ==> graphics_problem(#[trigger] rows@[j]@) is None) && reports(
                r->Err_0,
                graphics_problem(rows@[i]@)->0,
            ),
{
    let mut out: Vec<GraphicsInfo> = Vec::new();
    let n = rows.len();
    let mut i: usize = 0;
    while i < n
        invariant
            n == rows@.len(),
            i <= n,
            out@.len() == i,
            forall|k: int| 0 <= k < rows@.len() ==> (#[trigger] rows@[k]).wf(),
            forall|j: int| 0 <= j < i ==> graphics_problem(#[trigger] rows@[j]@) is None,
            forall|j: int| 0 <= j < i ==> graphics_of(#[trigger] out@[j], rows@[j]@),
        decreases n - i,
    {
        match graphics_info_from_row(&rows[i]) {
            Ok(g) => out.push(g),
            Err(e) => {
                assert(graphics_problem(rows@[i as int]@) is Some);
                return Err(e);
            },
        }
        i = i + 1;
    }
    Ok(out)
}

/// The operating-system summary.
#[derive(Debug)]
pub struct BasicInfo {
    pub edition: String,
    pub version: String,
    pub friendly_version: String,
    /// Seconds since the Unix epoch.
    pub install_date: i64,
    /// Seconds since the last boot.
    pub uptime: i32,
    pub username: String,
    pub domain: String,
    pub boot_mode: String,
    pub boot_state: String,
    pub model: String,
}

/// The first field of an operating-system row `os` and a computer-system row `cs`
/// that is absent or lacks its shape.
pub open spec fn basic_problem(
    os: Map<Seq<char>, Seq<char>>,
    cs: Map<Seq<char>, Seq<char>>,
) -> Option<Problem> {
    first_of(os, "Caption"@, FieldKind::Text,
    first_of(os, "Version"@, FieldKind::Text,
    first_of(os, "InstallDate"@, FieldKind::Timestamp,
    first_of(os, "LastBootUpTime"@, FieldKind::Timestamp,
    first_of(cs, "UserName"@, FieldKind::Text,
    first_of(cs, "Domain"@, FieldKind::Text,
    first_of(cs, "BootupState"@, FieldKind::Text,
    first_of(cs, "Model"@, FieldKind::Text, None))))))))
}

pub open spec fn timestamp_of(t: Seq<char>) -> int {
    decode_timestamp(encode_utf8(t))->0
}

/// `b` is the summary of rows `os` and `cs`, with the given release name, firmware
/// type and current epoch second.
pub open spec fn basic_of(
    b: BasicInfo,
    os: Map<Seq<char>, Seq<char>>,
    cs: Map<Seq<char>, Seq<char>>,
    friendly_version: Seq<char>,
    boot_mode: Seq<char>,
    now: i64,
) -> bool {
    &&& b.edition@ == os["Caption"@]
    &&& b.version@ == os["Version"@]
    &&& b.friendly_version@ == friendly_version
    &&& b.install_date == timestamp_of(os["InstallDate"@])
    &&& b.uptime == (now - timestamp_of(os["LastBootUpTime"@])) as i32
    &&& b.username@ == cs["UserName"@]
    &&& b.domain@ == cs["Domain"@]
    &&& b.boot_mode@ == boot_mode
    &&& b.boot_state@ == cs["BootupState"@]
    &&& b.model@ == cs["Model"@]
}

/// Builds the operating-system summary. `friendly_version` is the release name from
/// the configuration store, `boot_mode` the firmware type, `now` the current epoch
/// second; the uptime is their difference with the last boot, wrapped to `i32`.
pub fn basic_info_from(
    os: &FieldMap,
    computer: &FieldMap,
    friendly_version: String,
    boot_mode: String,
    now: i64,
) -> (r: Result<BasicInfo, SysProbeError>)
    requires
        os.wf(),
        computer.wf(),
    ensures
        r is Ok <==> basic_problem(os@, computer@) is None,
        r is Ok ==> basic_of(r->Ok_0, os@, computer@, friendly_version@, boot_mode@, now),
        r is Err ==> reports(r->Err_0, basic_problem(os@, computer@)->0),
{
    let edition = match text_field(os, "Caption") {
        Ok(v) => v,
        Err(e) => return Err(e),
    };
    let version = match text_field(os, "Version") {
        Ok(v) => v,
        Err(e) => return Err(e),
    };
    let install_date = match timestamp_field(os, "InstallDate") {
        Ok(v) => v,
        Err(e) => return Err(e),
    };
    let last_boot = match timestamp_field(os, "LastBootUpTime") {
        Ok(v) => v,
        Err(e) => return Err(e),
    };
    let username = match text_field(computer, "UserName") {
        Ok(v) => v,
        Err(e) => return Err(e),
    };
    let domain = match text_field(computer, "Domain") {
        Ok(v) => v,
        Err(e) => return Err(e),
    };
    let boot_state = match text_field(computer, "BootupState") {
        Ok(v) => v,
        Err(e) => return Err(e),
    };
    let model = match text_field(computer, "Model") {
        Ok(v) => v,
        Err(e) => return Err(e),
    };
    let elapsed: i128 = now as i128 - last_boot as i128;
    let uptime: i32 = #[verifier::truncate] (elapsed as i32);
    Ok(
        BasicInfo {
            edition,
            version,
            friendly_version,
            install_date,
            uptime,
            username,
            domain,
            boot_mode,
            boot_state,
            model,
        },
    )
}

/// The hardware summary: the processor and every graphics adapter.
#[derive(Debug)]
pub struct HardwareInfo {
    pub processor_info: ProcessorInfo,
    pub graphics_info: Vec<GraphicsInfo>,
}

impl HardwareInfo {
    pub fn new(processor_info: ProcessorInfo, graphics_info: Vec<GraphicsInfo>) -> (r: HardwareInfo)
        ensures
            r.processor_info == processor_info,
            r.graphics_info == graphics_info,
    {
        HardwareInfo { processor_info, graphics_info }
    }
}

} // verus!
