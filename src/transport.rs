use vstd::prelude::*;

use crate::color::pixel_bytes_be;

verus! {

/// The four standard SPI clock-polarity/phase combinations.
#[derive(Clone, Copy, Debug, PartialEq, Eq, Structural)]
pub enum SpiMode {
    /// Clock idles low, data sampled on the rising edge.
    Mode0,
    /// Clock idles low, data sampled on the falling edge.
    Mode1,
    /// Clock idles high, data sampled on the falling edge.
    Mode2,
    /// Clock idles high, data sampled on the rising edge.
    Mode3,
}

impl SpiMode {
    pub open spec fn spec_polarity(self) -> bool {
        self is Mode2 || self is Mode3
    }

    pub open spec fn spec_phase(self) -> bool {
        self is Mode1 || self is Mode3
    }

    /// Clock polarity: `true` when the clock idles high.
    pub fn polarity(&self) -> (r: bool)
        ensures
            r == self.spec_polarity(),
    {
        match self {
            SpiMode::Mode2 | SpiMode::Mode3 => true,
            _ => false,
        }
    }

    /// Clock phase: `true` when data is sampled on the second edge.
    pub fn phase(&self) -> (r: bool)
        ensures
            r == self.spec_phase(),
    {
        match self {
            SpiMode::Mode1 | SpiMode::Mode3 => true,
            _ => false,
        }
    }
}

/// Lowest clock rate the bus clock dividers reach, in Hz (80 MHz divided by
/// the largest prescaler, 8192, and the largest counter, 64).
pub const BUS_MIN_HZ: u32 = 153;
/// Highest clock rate of the bus: the undivided 80 MHz peripheral clock.
pub const BUS_MAX_HZ: u32 = 80_000_000;
/// Highest GPIO number of the controller that can drive an output.
pub const MAX_OUTPUT_PIN: u8 = 33;

/// Why a bus configuration was refused.
#[derive(Clone, Copy, Debug, PartialEq, Eq, Structural)]
pub enum BusError {
    /// The clock rate is below what the dividers can reach (zero included).
    FrequencyTooLow,
    /// The clock rate is above the peripheral clock.
    FrequencyTooHigh,
    /// A pin number is not an output-capable GPIO.
    InvalidPin,
    /// Two signals were assigned the same pin.
    PinConflict,
}

/// The pins of the panel wiring.
#[derive(Clone, Copy, Debug, PartialEq, Eq, Structural)]
pub struct Pins {
    pub sck: u8,
    pub mosi: u8,
    pub cs: u8,
    pub dc: u8,
    pub rst: u8,
    pub backlight: u8,
}

impl Pins {
    pub open spec fn all(self) -> Seq<u8> {
        seq![self.sck, self.mosi, self.cs, self.dc, self.rst, self.backlight]
    }

    pub open spec fn in_range(self) -> bool {
        forall|i: int| 0 <= i < 6 ==> self.all()[i] <= MAX_OUTPUT_PIN
    }

    pub open spec fn distinct(self) -> bool {
        forall|i: int, j: int| 0 <= i < j < 6 ==> self.all()[i] != self.all()[j]
    }
}

/// A bus configuration that was accepted: immutable once made.
#[derive(Clone, Copy, Debug, PartialEq, Eq, Structural)]
pub struct BusConfig {
    pub frequency_hz: u32,
    pub mode: SpiMode,
    pub pins: Pins,
}

impl BusConfig {
    pub open spec fn wf(self) -> bool {
        &&& BUS_MIN_HZ <= self.frequency_hz <= BUS_MAX_HZ
        &&& self.pins.in_range()
        &&& self.pins.distinct()
    }

    /// Checks a clock rate, a mode and a pin assignment. The rate is checked
    /// first, then that every pin can drive an output, then that no two
    /// signals share a pin.
    pub fn new(frequency_hz: u32, mode: SpiMode, pins: Pins) -> (r: Result<BusConfig, BusError>)
        ensures
            frequency_hz < BUS_MIN_HZ ==> r == Err::<BusConfig, BusError>(BusError::FrequencyTooLow),
            frequency_hz > BUS_MAX_HZ ==> r == Err::<BusConfig, BusError>(BusError::FrequencyTooHigh),
            BUS_MIN_HZ <= frequency_hz <= BUS_MAX_HZ && !pins.in_range() ==> r == Err::<
                BusConfig,
                BusError,
            >(BusError::InvalidPin),
            BUS_MIN_HZ <= frequency_hz <= BUS_MAX_HZ && pins.in_range() && !pins.distinct() ==> r
                == Err::<BusConfig, BusError>(BusError::PinConflict),
            BUS_MIN_HZ <= frequency_hz <= BUS_MAX_HZ && pins.in_range() && pins.distinct() ==> r
                == Ok::<BusConfig, BusError>(
                BusConfig { frequency_hz, mode, pins },
            ),
            r matches Ok(c) ==> c.wf(),
    {
        if frequency_hz < BUS_MIN_HZ {
            return Err(BusError::FrequencyTooLow);
        }
        if frequency_hz > BUS_MAX_HZ {
            return Err(BusError::FrequencyTooHigh);
        }
        let all: [u8; 6] = [pins.sck, pins.mosi, pins.cs, pins.dc, pins.rst, pins.backlight];
        assert(all@ =~= pins.all());
        let mut i: usize = 0;
        while i < 6
            invariant
                0 <= i <= 6,
                all@ == pins.all(),
                BUS_MIN_HZ <= frequency_hz <= BUS_MAX_HZ,
                forall|k: int| 0 <= k < i ==> pins.all()[k] <= MAX_OUTPUT_PIN,
            decreases 6 - i,
        {
            if all[i] > MAX_OUTPUT_PIN {
                return Err(BusError::InvalidPin);
            }
            i = i + 1;
        }
        let mut i: usize = 0;
        while i < 6
            invariant
                0 <= i <= 6,
                all@ == pins.all(),
                BUS_MIN_HZ <= frequency_hz <= BUS_MAX_HZ,
                pins.in_range(),
                forall|a: int, b: int| 0 <= a < b < 6 && a < i ==> pins.all()[a] != pins.all()[b],
            decreases 6 - i,
        {
            let mut j: usize = i + 1;
            while j < 6
                invariant
                    0 <= i < 6,
                    i < j <= 6,
                    all@ == pins.all(),
                    pins.in_range(),
                    BUS_MIN_HZ <= frequency_hz <= BUS_MAX_HZ,
                BUS_MIN_HZ <= frequency_hz <= BUS_MAX_HZ,
                    forall|a: int, b: int| 0 <= a < b < 6 && a < i ==> pins.all()[a] != pins.all()[b],
                    forall|b: int| i < b < j ==> pins.all()[i as int] != pins.all()[b],
                decreases 6 - j,
            {
                if all[i] == all[j] {
                    return Err(BusError::PinConflict);
                }
                j = j + 1;
            }
            i = i + 1;
        }
        Ok(BusConfig { frequency_hz, mode, pins })
    }
}

/// Whether a frame carries a controller command or pixel data.
#[derive(Clone, Copy, Debug, PartialEq, Eq, Structural)]
pub enum FrameKind {
    Command,
    Data,
}

/// A byte burst tagged for the controller.
#[derive(Debug)]
pub struct Frame {
    pub kind: FrameKind,
    pub bytes: Vec<u8>,
}

impl Frame {
    /// A command frame: the opcode followed by its parameters.
    pub fn command(opcode: u8, params: &Vec<u8>) -> (f: Frame)
        ensures
            f.kind == FrameKind::Command,
            f.bytes@ == seq![opcode] + params@,
    {
        let mut bytes: Vec<u8> = Vec::new();
        bytes.push(opcode);
        let mut i: usize = 0;
        while i < params.len()
            invariant
                i <= params@.len(),
                bytes@ == seq![opcode] + params@.take(i as int),
            decreases params.len() - i,
        {
            bytes.push(params[i]);
            i = i + 1;
            assert(params@.take(i as int) =~= params@.take(i - 1) + seq![params@[i - 1]]);
            assert(bytes@ =~= seq![opcode] + params@.take(i as int));
        }
        assert(params@.take(params@.len() as int) =~= params@);
        Frame { kind: FrameKind::Command, bytes }
    }

    /// A data frame carrying `payload` unchanged.
    pub fn data(payload: Vec<u8>) -> (f: Frame)
        ensures
            f.kind == FrameKind::Data,
            f.bytes@ == payload@,
    {
        Frame { kind: FrameKind::Data, bytes: payload }
    }

    /// A data frame of `count` pixels of one RGB565 color, each sent high
    /// byte first.
    pub fn solid_pixels(color: u16, count: usize) -> (f: Frame)
        requires
            count <= usize::MAX / 2,
        ensures
            f.kind == FrameKind::Data,
            f.bytes@.len() == 2 * count,
            forall|k: int|
                0 <= k < 2 * count ==> f.bytes@[k] == if k % 2 == 0 {
                    (color >> 8u16) as u8
                } else {
                    (color & 0xFFu16) as u8
                },
    {
        let (hi, lo) = pixel_bytes_be(color);
        let mut bytes: Vec<u8> = Vec::new();
        let mut i: usize = 0;
        while i < count
            invariant
                i <= count,
                count <= usize::MAX / 2,
                hi == (color >> 8u16) as u8,
                lo == (color & 0xFFu16) as u8,
                bytes@.len() == 2 * i,
                forall|k: int| 0 <= k < 2 * i ==> bytes@[k] == if k % 2 == 0 { hi } else { lo },
            decreases count - i,
        {
            bytes.push(hi);
            bytes.push(lo);
            i = i + 1;
        }
        Frame { kind: FrameKind::Data, bytes }
    }
}

/// One event on the wires, in time order.
#[derive(Clone, Copy, Debug, PartialEq, Eq, Structural)]
pub enum Signal {
    /// The data/command line is driven: low for a command, high for data.
    DataCommand(bool),
    /// Chip-select goes active.
    Select,
    /// One byte is clocked out.
    Byte(u8),
    /// Chip-select goes inactive.
    Deselect,
}

/// The wire events of one frame: the data/command line is set while the
/// device is deselected, then the device is selected, the bytes are clocked
/// out, and the device is deselected.
pub open spec fn frame_signals(kind: FrameKind, bytes: Seq<u8>) -> Seq<Signal> {
    seq![Signal::DataCommand(kind == FrameKind::Data), Signal::Select]
        + bytes.map_values(|b: u8| Signal::Byte(b))
        + seq![Signal::Deselect]
}

/// The wire events of frames sent one after another.
pub open spec fn frames_signals(frames: Seq<Frame>) -> Seq<Signal>
    decreases frames.len(),
{
    if frames.len() == 0 {
        Seq::empty()
    } else {
        frames_signals(frames.drop_last()) + frame_signals(
            frames.last().kind,
            frames.last().bytes@,
        )
    }
}

/// Whether chip-select is active just before event `k`: events before it
/// hold one more `Select` than `Deselect`.
pub open spec fn selected_before(s: Seq<Signal>, k: int) -> bool
    decreases k,
{
    if k <= 0 {
        false
    } else {
        match s[k - 1] {
            Signal::Select => true,
            Signal::Deselect => false,
            _ => selected_before(s, k - 1),
        }
    }
}

/// Chip-select discipline of a wire trace: every byte is clocked while the
/// device is selected; a select happens only while deselected and a
/// deselect only while selected, so transfers never overlap; the
/// data/command line changes only while deselected, before the first clock
/// edge of its frame; and the trace ends deselected.
pub open spec fn cs_disciplined(s: Seq<Signal>) -> bool {
    &&& forall|k: int| 0 <= k < s.len() && s[k] is Byte ==> selected_before(s, k)
    &&& forall|k: int| 0 <= k < s.len() && s[k] is Select ==> !selected_before(s, k)
    &&& forall|k: int| 0 <= k < s.len() && s[k] is Deselect ==> selected_before(s, k)
    &&& forall|k: int| 0 <= k < s.len() && s[k] is DataCommand ==> !selected_before(s, k)
    &&& !selected_before(s, s.len() as int)
}

/// The data/command level of a frame kind: high for data.
pub fn dc_level(kind: FrameKind) -> (r: bool)
    ensures
        r == (kind == FrameKind::Data),
{
    match kind {
        FrameKind::Data => true,
        FrameKind::Command => false,
    }
}

/// Appends the wire events of one frame to a trace.
pub fn push_frame_signals(out: &mut Vec<Signal>, kind: FrameKind, bytes: &Vec<u8>)
    ensures
        final(out)@ == old(out)@ + frame_signals(kind, bytes@),
{
    let ghost start = out@;
    out.push(Signal::DataCommand(dc_level(kind)));
    out.push(Signal::Select);
    let mut i: usize = 0;
    while i < bytes.len()
        invariant
            i <= bytes.len(),
            out@ == start + seq![Signal::DataCommand(kind == FrameKind::Data), Signal::Select]
                + bytes@.take(i as int).map_values(|b: u8| Signal::Byte(b)),
        decreases bytes.len() - i,
    {
        out.push(Signal::Byte(bytes[i]));
        i = i + 1;
        assert(bytes@.take(i as int) =~= bytes@.take(i - 1) + seq![bytes@[i - 1]]);
        assert(out@ =~= start + seq![Signal::DataCommand(kind == FrameKind::Data), Signal::Select]
            + bytes@.take(i as int).map_values(|b: u8| Signal::Byte(b)));
    }
    out.push(Signal::Deselect);
    assert(bytes@.take(bytes@.len() as int) =~= bytes@);
    assert(out@ =~= start + frame_signals(kind, bytes@));
}

/// The wire events of a sequence of frames, each sent as one exclusive
/// transfer after the previous one completed. The bus mode shapes only the
/// clock edges within a byte, not the order of these events.
pub fn encode_frames(config: &BusConfig, frames: &Vec<Frame>) -> (r: Vec<Signal>)
    ensures
        r@ == frames_signals(frames@),
{
    let mut out: Vec<Signal> = Vec::new();
    let mut i: usize = 0;
    while i < frames.len()
        invariant
            i <= frames.len(),
            out@ == frames_signals(frames@.take(i as int)),
        decreases frames.len() - i,
    {
        push_frame_signals(&mut out, frames[i].kind, &frames[i].bytes);
        i = i + 1;
        assert(frames@.take(i as int).drop_last() =~= frames@.take(i - 1));
    }
    assert(frames@.take(frames@.len() as int) =~= frames@);
    out
}

/// Events before position `k` of a trace are those of any longer trace it
/// starts.
proof fn lemma_selected_prefix(s1: Seq<Signal>, s2: Seq<Signal>, k: int)
    requires
        0 <= k <= s1.len(),
    ensures
        selected_before(s1 + s2, k) == selected_before(s1, k),
    decreases k,
{
    if k > 0 {
        assert((s1 + s2)[k - 1] == s1[k - 1]);
        lemma_selected_prefix(s1, s2, k - 1);
    }
}

/// After a trace that ends deselected, the selection state of what follows
/// is that of the following trace alone.
proof fn lemma_selected_shift(s1: Seq<Signal>, s2: Seq<Signal>, k: int)
    requires
        0 <= k <= s2.len(),
        !selected_before(s1, s1.len() as int),
    ensures
        selected_before(s1 + s2, s1.len() + k) == selected_before(s2, k),
    decreases k,
{
    if k == 0 {
        lemma_selected_prefix(s1, s2, s1.len() as int);
    } else {
        assert((s1 + s2)[s1.len() + k - 1] == s2[k - 1]);
        lemma_selected_shift(s1, s2, k - 1);
    }
}

/// Within one frame the device is selected exactly after the `Select` event
/// and up to the `Deselect` event.
proof fn lemma_frame_selection(kind: FrameKind, bytes: Seq<u8>, k: int)
    requires
        0 <= k <= bytes.len() + 3,
    ensures
        selected_before(frame_signals(kind, bytes), k) == (2 <= k <= bytes.len() + 2),
    decreases k,
{
    let f = frame_signals(kind, bytes);
    if k > 0 {
        lemma_frame_selection(kind, bytes, k - 1);
        if 2 <= k - 1 < bytes.len() + 2 {
            assert(f[k - 1] == Signal::Byte(bytes[k - 3]));
        }
    }
}

/// One frame on its own keeps the chip-select discipline.
proof fn lemma_frame_disciplined(kind: FrameKind, bytes: Seq<u8>)
    ensures
        cs_disciplined(frame_signals(kind, bytes)),
{
    let f = frame_signals(kind, bytes);
    assert forall|k: int| 0 <= k <= f.len() implies selected_before(f, k) == (2 <= k <= bytes.len()
        + 2) by {
        lemma_frame_selection(kind, bytes, k);
    }
    assert forall|k: int| 2 <= k < f.len() - 1 implies f[k] is Byte by {
        assert(f[k] == Signal::Byte(bytes[k - 2]));
    }
}

/// Two disciplined traces, one after the other, form a disciplined trace.
proof fn lemma_concat_disciplined(s1: Seq<Signal>, s2: Seq<Signal>)
    requires
        cs_disciplined(s1),
        cs_disciplined(s2),
    ensures
        cs_disciplined(s1 + s2),
{
    let s = s1 + s2;
    assert forall|k: int| 0 <= k <= s.len() implies selected_before(s, k) == if k <= s1.len() {
        selected_before(s1, k)
    } else {
        selected_before(s2, k - s1.len())
    } by {
        if k <= s1.len() {
            lemma_selected_prefix(s1, s2, k);
        } else {
            lemma_selected_shift(s1, s2, k - s1.len());
        }
    }
    assert forall|k: int| 0 <= k < s.len() implies s[k] == if k < s1.len() {
        s1[k]
    } else {
        s2[k - s1.len()]
    } by {}
}

/// For every bus mode and every sequence of command and data frames, the
/// wire events keep the chip-select discipline: chip-select is asserted
/// strictly before each transfer's first byte and deasserted strictly after
/// its last, two transfers never overlap, and the data/command line is set
/// before each transfer's first clock edge.
pub proof fn lemma_transfers_never_overlap(mode: SpiMode, frames: Seq<Frame>)
    ensures
        cs_disciplined(frames_signals(frames)),
    decreases frames.len(),
{
    if frames.len() > 0 {
        lemma_transfers_never_overlap(mode, frames.drop_last());
        lemma_frame_disciplined(frames.last().kind, frames.last().bytes@);
        lemma_concat_disciplined(
            frames_signals(frames.drop_last()),
            frame_signals(frames.last().kind, frames.last().bytes@),
        );
    }
}

} // verus!
