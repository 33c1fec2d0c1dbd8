//! The kernel input-event protocol: the record layout, the event kinds and
//! absolute-axis codes, the capability queries, and the assembly of axis
//! samples into touch gestures.
use vstd::prelude::*;

verus! {

/// Device coordinates are divided by this to give canvas coordinates.
pub const SIZE_DIVISOR: u32 = 2;

/// Size in bytes of one kernel input-event record.
pub const INPUT_EVENT_SIZE: usize = 24;

/// Size in bytes of the kernel's axis-information structure (five `i32`s).
pub const ABSINFO_SIZE: u32 = 20;

/// The OS error that a capability query returns on a device that lacks the
/// capability ("inappropriate ioctl for device").
pub const ENOTTY: i32 = 25;

/// A violation of the kernel's event protocol.
#[derive(Debug, Clone, Copy, PartialEq, Eq, Structural)]
pub enum DecodeError {
    UnknownKind(u16),
    UnknownAbsCode(u16),
}

/// The kind of an input event.
#[derive(Debug, Clone, Copy, PartialEq, Eq, Structural)]
pub enum EventType {
    Syn,
    Key,
    Rel,
    Abs,
    Msc,
    Sw,
    Led,
    Snd,
    Rep,
    Ff,
    FfStatus,
}

/// The raw value of each event kind.
pub open spec fn kind_value(t: EventType) -> u16 {
    match t {
        EventType::Syn => 0x00,
        EventType::Key => 0x01,
        EventType::Rel => 0x02,
        EventType::Abs => 0x03,
        EventType::Msc => 0x04,
        EventType::Sw => 0x05,
        EventType::Led => 0x11,
        EventType::Snd => 0x12,
        EventType::Rep => 0x14,
        EventType::Ff => 0x15,
        EventType::FfStatus => 0x17,
    }
}

/// The raw kinds that the protocol defines.
pub open spec fn is_known_kind(raw: u16) -> bool {
    raw <= 0x05 || raw == 0x11 || raw == 0x12 || raw == 0x14 || raw == 0x15 || raw == 0x17
}

impl EventType {
    /// Decodes a raw event kind; any kind that the protocol does not define
    /// is a protocol violation.
    pub fn from_raw(raw: u16) -> (r: Result<EventType, DecodeError>)
        ensures
            r is Ok <==> is_known_kind(raw),
            r is Ok ==> kind_value(r->Ok_0) == raw,
            r is Err ==> r->Err_0 == DecodeError::UnknownKind(raw),
    {
        match raw {
            0x00 => Ok(EventType::Syn),
            0x01 => Ok(EventType::Key),
            0x02 => Ok(EventType::Rel),
            0x03 => Ok(EventType::Abs),
            0x04 => Ok(EventType::Msc),
            0x05 => Ok(EventType::Sw),
            0x11 => Ok(EventType::Led),
            0x12 => Ok(EventType::Snd),
            0x14 => Ok(EventType::Rep),
            0x15 => Ok(EventType::Ff),
            0x17 => Ok(EventType::FfStatus),
            _ => Err(DecodeError::UnknownKind(raw)),
        }
    }
}

/// The code of an absolute-axis event.
#[derive(Debug, Clone, Copy, PartialEq, Eq, Structural)]
pub enum AbsEventCode {
    X,
    Y,
    Pressure,
    ToolWidth,
    MtSlot,
    MtTrackingId,
    MtPositionX,
    MtPositionY,
    MtPressure,
}

/// The raw value of each absolute-axis code.
pub open spec fn code_value(c: AbsEventCode) -> u16 {
    match c {
        AbsEventCode::X => 0x00,
        AbsEventCode::Y => 0x01,
        AbsEventCode::Pressure => 0x18,
        AbsEventCode::ToolWidth => 0x1c,
        AbsEventCode::MtSlot => 0x2f,
        AbsEventCode::MtTrackingId => 0x39,
        AbsEventCode::MtPositionX => 0x35,
        AbsEventCode::MtPositionY => 0x36,
        AbsEventCode::MtPressure => 0x3a,
    }
}

/// The raw absolute-axis codes that this decoder recognizes.
pub open spec fn is_known_abs_code(raw: u16) -> bool {
    raw == 0x00 || raw == 0x01 || raw == 0x18 || raw == 0x1c || raw == 0x2f || raw == 0x39
        || raw == 0x35 || raw == 0x36 || raw == 0x3a
}

impl AbsEventCode {
    /// Decodes a raw absolute-axis code; an unrecognized code is a protocol
    /// violation.
    pub fn from_raw(raw: u16) -> (r: Result<AbsEventCode, DecodeError>)
        ensures
            r is Ok <==> is_known_abs_code(raw),
            r is Ok ==> code_value(r->Ok_0) == raw,
            r is Err ==> r->Err_0 == DecodeError::UnknownAbsCode(raw),
    {
        match raw {
            0x00 => Ok(AbsEventCode::X),
            0x01 => Ok(AbsEventCode::Y),
            0x18 => Ok(AbsEventCode::Pressure),
            0x1c => Ok(AbsEventCode::ToolWidth),
            0x2f => Ok(AbsEventCode::MtSlot),
            0x39 => Ok(AbsEventCode::MtTrackingId),
            0x35 => Ok(AbsEventCode::MtPositionX),
            0x36 => Ok(AbsEventCode::MtPositionY),
            0x3a => Ok(AbsEventCode::MtPressure),
            _ => Err(DecodeError::UnknownAbsCode(raw)),
        }
    }
}

/// Every recognized kind and every recognized absolute-axis code decodes to
/// exactly one value, and distinct values carry distinct raw numbers: the
/// decoding is a total function on the recognized set.
pub proof fn lemma_decode_total(kind: u16, code: u16)
    requires
        is_known_kind(kind),
        is_known_abs_code(code),
    ensures
        exists|t: EventType| kind_value(t) == kind,
        exists|c: AbsEventCode| code_value(c) == code,
        forall|t1: EventType, t2: EventType| kind_value(t1) == kind && kind_value(t2) == kind ==> t1 == t2,
        forall|c1: AbsEventCode, c2: AbsEventCode| code_value(c1) == code && code_value(c2) == code ==> c1 == c2,
{
    let t = if kind == 0 { EventType::Syn } else if kind == 1 { EventType::Key } else if kind == 2 {
        EventType::Rel
    } else if kind == 3 { EventType::Abs } else if kind == 4 { EventType::Msc } else if kind == 5 {
        EventType::Sw
    } else if kind == 0x11 { EventType::Led } else if kind == 0x12 { EventType::Snd } else if kind
        == 0x14 { EventType::Rep } else if kind == 0x15 { EventType::Ff } else {
        EventType::FfStatus
    };
    assert(kind_value(t) == kind);
    let c = if code == 0 { AbsEventCode::X } else if code == 1 { AbsEventCode::Y } else if code
        == 0x18 { AbsEventCode::Pressure } else if code == 0x1c { AbsEventCode::ToolWidth } else if code
        == 0x2f { AbsEventCode::MtSlot } else if code == 0x39 { AbsEventCode::MtTrackingId } else if code
        == 0x35 { AbsEventCode::MtPositionX } else if code == 0x36 { AbsEventCode::MtPositionY } else {
        AbsEventCode::MtPressure
    };
    assert(code_value(c) == code);
}

/// A gesture: a touch at canvas coordinates, or the finger leaving the pad.
#[derive(Debug, Clone, Copy, PartialEq, Eq, Structural)]
pub enum Event {
    Touch(u32, u32),
    FingerLifted,
}

/// The unsigned little-endian number that the bytes `s` spell.
pub open spec fn le_value(s: Seq<u8>) -> nat
    decreases s.len(),
{
    if s.len() == 0 {
        0
    } else {
        s[0] as nat + 256 * le_value(s.drop_first())
    }
}

/// The little-endian field of `n` bytes at `off`.
pub open spec fn le_field(b: Seq<u8>, off: int, n: int) -> nat {
    le_value(b.subrange(off, off + n))
}

/// `256` to the power `k`.
pub open spec fn byte_bound(k: nat) -> nat
    decreases k,
{
    if k == 0 {
        1
    } else {
        256 * byte_bound((k - 1) as nat)
    }
}

/// A 32-bit two's-complement reading of `v`.
pub open spec fn signed32(v: nat) -> int {
    if v >= 0x8000_0000 {
        v - 0x1_0000_0000
    } else {
        v as int
    }
}

/// A 64-bit two's-complement reading of `v`.
pub open spec fn signed64(v: nat) -> int {
    if v >= 0x8000_0000_0000_0000 {
        v - 0x1_0000_0000_0000_0000
    } else {
        v as int
    }
}

proof fn lemma_byte_bound_mono(a: nat, b: nat)
    requires
        a <= b,
    ensures
        byte_bound(a) <= byte_bound(b),
    decreases b,
{
    if a < b {
        lemma_byte_bound_mono(a, (b - 1) as nat);
    }
}

/// Reads the little-endian number of `n` bytes at `off`.
fn read_le(bytes: &[u8], off: usize, n: usize) -> (r: u64)
    requires
        n <= 8,
        off + n <= bytes@.len(),
    ensures
        r as nat == le_field(bytes@, off as int, n as int),
        (r as nat) < byte_bound(n as nat),
{
    proof {
        reveal_with_fuel(byte_bound, 9);
    }
    let len = bytes.len();
    let mut acc: u64 = 0;
    let mut i: usize = n;
    while i > 0
        invariant
            len == bytes@.len(),
            n <= 8,
            off + n <= bytes@.len(),
            i <= n,
            acc as nat == le_field(bytes@, (off + i) as int, (n - i) as int),
            (acc as nat) < byte_bound((n - i) as nat),
        decreases i,
    {
        proof {
            lemma_byte_bound_mono((n - i + 1) as nat, 8);
            reveal_with_fuel(byte_bound, 9);
            let sub = bytes@.subrange(off + i - 1, (off + n) as int);
            assert(sub.drop_first() =~= bytes@.subrange((off + i) as int, (off + n) as int));
        }
        i = i - 1;
        acc = acc * 256 + bytes[off + i] as u64;
    }
    acc
}

/// One record of the kernel's input-event stream.
#[derive(Debug, Clone, Copy, PartialEq, Eq, Structural)]
pub struct InputEvent {
    pub sec: i64,
    pub usec: i64,
    pub kind: u16,
    pub code: u16,
    pub value: i32,
}

impl InputEvent {
    /// Decodes one record in the layout of a 64-bit little-endian Linux
    /// target: seconds and microseconds (eight bytes each), kind and code
    /// (two bytes each) and value (four bytes), each little-endian. Anything but exactly one record's worth of bytes
    /// gives no event.
    pub fn decode(bytes: &[u8]) -> (r: Option<InputEvent>)
        ensures
            r is Some <==> bytes@.len() == INPUT_EVENT_SIZE,
            r matches Some(ev) ==> {
                &&& ev.sec as int == signed64(le_field(bytes@, 0, 8))
                &&& ev.usec as int == signed64(le_field(bytes@, 8, 8))
                &&& ev.kind as nat == le_field(bytes@, 16, 2)
                &&& ev.code as nat == le_field(bytes@, 18, 2)
                &&& ev.value as int == signed32(le_field(bytes@, 20, 4))
            },
    {
        if bytes.len() != INPUT_EVENT_SIZE {
            return None;
        }
        proof {
            reveal_with_fuel(byte_bound, 9);
        }
        let sec = read_le(bytes, 0, 8);
        let usec = read_le(bytes, 8, 8);
        let kind = read_le(bytes, 16, 2);
        let code = read_le(bytes, 18, 2);
        let value = read_le(bytes, 20, 4);
        Some(InputEvent {
            sec: to_i64(sec),
            usec: to_i64(usec),
            kind: kind as u16,
            code: code as u16,
            value: if value >= 0x8000_0000 {
                (value as i64 - 0x1_0000_0000) as i32
            } else {
                value as i32
            },
        })
    }
}

fn to_i64(v: u64) -> (r: i64)
    ensures
        r as int == signed64(v as nat),
{
    if v >= 0x8000_0000_0000_0000 {
        (v - 0x8000_0000_0000_0000) as i64 - 0x7fff_ffff_ffff_ffff - 1
    } else {
        v as i64
    }
}

/// The bounds that a device reports for one absolute axis.
#[derive(Debug, Clone, Copy, PartialEq, Eq, Structural)]
pub struct AxisBounds {
    pub minimum: i32,
    pub maximum: i32,
}

impl AxisBounds {
    /// Decodes the kernel's axis-information structure in the layout of a
    /// 64-bit little-endian Linux target: value, minimum, maximum, fuzz and
    /// flat, four little-endian bytes each. Anything but exactly one structure's worth of bytes gives
    /// nothing.
    pub fn decode(bytes: &[u8]) -> (r: Option<AxisBounds>)
        ensures
            r is Some <==> bytes@.len() == ABSINFO_SIZE,
            r matches Some(b) ==> {
                &&& b.minimum as int == signed32(le_field(bytes@, 4, 4))
                &&& b.maximum as int == signed32(le_field(bytes@, 8, 4))
            },
    {
        if bytes.len() != ABSINFO_SIZE as usize {
            return None;
        }
        proof {
            reveal_with_fuel(byte_bound, 9);
        }
        let minimum = read_le(bytes, 4, 4);
        let maximum = read_le(bytes, 8, 4);
        Some(AxisBounds { minimum: to_i32(minimum), maximum: to_i32(maximum) })
    }
}

fn to_i32(v: u64) -> (r: i32)
    requires
        v < 0x1_0000_0000,
    ensures
        r as int == signed32(v as nat),
{
    if v >= 0x8000_0000 {
        (v as i64 - 0x1_0000_0000) as i32
    } else {
        v as i32
    }
}

/// The canvas extent for a device axis whose largest value is `maximum`.
pub fn canvas_extent(maximum: i32) -> (r: u32)
    ensures
        r == (maximum as u32) / SIZE_DIVISOR,
{
    (maximum as u32) / SIZE_DIVISOR
}

/// The request number of a control request: direction, type, number and
/// argument size packed into their bit fields.
pub fn ioc(dir: u32, typ: u32, nr: u32, size: u32) -> (r: u32)
    requires
        dir < 4,
        typ < 0x100,
        nr < 0x100,
        size < 0x4000,
    ensures
        r == dir * 0x4000_0000 + size * 0x1_0000 + typ * 0x100 + nr,
{
    dir * 0x4000_0000 + size * 0x1_0000 + typ * 0x100 + nr
}

/// The request that reads `len` bytes of the capability bitmap of event
/// kind `ev`.
pub fn eviocgbit(ev: u32, len: u32) -> (r: u32)
    requires
        ev < 0xe0,
        len < 0x4000,
    ensures
        r == 2 * 0x4000_0000 + len * 0x1_0000 + 0x45 * 0x100 + (0x20 + ev),
{
    ioc(2, 0x45, 0x20 + ev, len)
}

/// The request that reads the axis-information structure of axis `abs`.
pub fn eviocgabs(abs: u32) -> (r: u32)
    requires
        abs < 0xc0,
    ensures
        r == 2 * 0x4000_0000 + ABSINFO_SIZE * 0x1_0000 + 0x45 * 0x100 + (0x40 + abs),
{
    ioc(2, 0x45, 0x40 + abs, ABSINFO_SIZE)
}

/// A capability query that failed for another reason than the device
/// lacking the capability.
#[derive(Debug, Clone, Copy, PartialEq, Eq, Structural)]
pub enum ProbeError {
    QueryFailed(i32),
}

/// Whether a device reports absolute axes, from the outcome of the bitmap
/// query: its result `res`, the OS error `errno` when it failed, and the
/// first byte of the bitmap. A failure with "inappropriate ioctl" means the
/// device lacks the capability; any other failure is an error.
pub fn has_abs(res: i32, errno: i32, bitmap: u8) -> (r: Result<bool, ProbeError>)
    ensures
        res >= 0 ==> r == Ok::<bool, ProbeError>(bitmap != 0),
        res < 0 && errno == ENOTTY ==> r == Ok::<bool, ProbeError>(false),
        res < 0 && errno != ENOTTY ==> r == Err::<bool, ProbeError>(ProbeError::QueryFailed(errno)),
{
    if res < 0 {
        if errno == ENOTTY {
            Ok(false)
        } else {
            Err(ProbeError::QueryFailed(errno))
        }
    } else {
        Ok(bitmap != 0)
    }
}

/// The axis samples held between synchronization markers.
#[derive(Debug, Clone, Copy, PartialEq, Eq, Structural)]
pub struct TouchState {
    pub x: Option<u32>,
    pub y: Option<u32>,
}

/// The gesture reported at a synchronization marker: a touch at the halved
/// coordinates when both axes are known, else a lift.
pub open spec fn gesture(s: TouchState) -> Event {
    match (s.x, s.y) {
        (Some(x), Some(y)) => Event::Touch(x / SIZE_DIVISOR, y / SIZE_DIVISOR),
        _ => Event::FingerLifted,
    }
}

/// An absolute-axis sample taken into the state: a negative coordinate
/// forgets that axis, and a tracking id of -1 (contact released) forgets
/// both.
pub open spec fn absorb(s: TouchState, code: u16, value: i32) -> TouchState {
    if code == 0x00 {
        TouchState { x: if value < 0 { None } else { Some(value as u32) }, y: s.y }
    } else if code == 0x01 {
        TouchState { x: s.x, y: if value < 0 { None } else { Some(value as u32) } }
    } else if code == 0x39 && value == -1 {
        TouchState { x: None, y: None }
    } else {
        s
    }
}

impl TouchState {
    /// No axis known.
    pub fn new() -> (r: TouchState)
        ensures
            r.x is None,
            r.y is None,
    {
        TouchState { x: None, y: None }
    }

    /// Takes in one record: a synchronization marker reports the gesture, an
    /// absolute-axis sample updates the state, other kinds are ignored. An
    /// unknown kind, or an unknown code of an absolute-axis sample, is a
    /// protocol violation and changes nothing.
    pub fn feed(&mut self, ev: &InputEvent) -> (r: Result<Option<Event>, DecodeError>)
        ensures
            !is_known_kind(ev.kind) ==> r == Err::<Option<Event>, DecodeError>(DecodeError::UnknownKind(ev.kind))
                && *final(self) == *old(self),
            ev.kind == 0x00 ==> r == Ok::<Option<Event>, DecodeError>(Some(gesture(*old(self))))
                && *final(self) == *old(self),
            ev.kind == 0x03 && !is_known_abs_code(ev.code) ==> r == Err::<Option<Event>, DecodeError>(
                DecodeError::UnknownAbsCode(ev.code),
            ) && *final(self) == *old(self),
            ev.kind == 0x03 && is_known_abs_code(ev.code) ==> r == Ok::<Option<Event>, DecodeError>(None)
                && *final(self) == absorb(*old(self), ev.code, ev.value),
            is_known_kind(ev.kind) && ev.kind != 0x00 && ev.kind != 0x03 ==> r == Ok::<Option<Event>, DecodeError>(None)
                && *final(self) == *old(self),
    {
        match EventType::from_raw(ev.kind) {
            Err(e) => Err(e),
            Ok(EventType::Syn) => {
                let g = match (self.x, self.y) {
                    (Some(x), Some(y)) => Event::Touch(x / SIZE_DIVISOR, y / SIZE_DIVISOR),
                    _ => Event::FingerLifted,
                };
                Ok(Some(g))
            },
            Ok(EventType::Abs) => {
                match AbsEventCode::from_raw(ev.code) {
                    Err(e) => Err(e),
                    Ok(AbsEventCode::X) => {
                        self.x = if ev.value < 0 { None } else { Some(ev.value as u32) };
                        Ok(None)
                    },
                    Ok(AbsEventCode::Y) => {
                        self.y = if ev.value < 0 { None } else { Some(ev.value as u32) };
                        Ok(None)
                    },
                    Ok(AbsEventCode::MtTrackingId) => {
                        if ev.value == -1 {
                            self.x = None;
                            self.y = None;
                        }
                        Ok(None)
                    },
                    Ok(_) => Ok(None),
                }
            },
            Ok(_) => Ok(None),
        }
    }
}

} // verus!
