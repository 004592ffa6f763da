//! The HD Audio driver's decisions: which controller and codec it takes, how codec verbs
//! and their answers are encoded, the commands that route the output path, the stream and
//! buffer descriptors, and the test tone (a 440 Hz triangle wave sampled at 48 kHz) it plays.
use vstd::prelude::*;
use crate::kernel::memory::{next_frame, FrameAllocator};
use crate::kernel::pci::PciDevice;

verus! {

pub const GET_PARAMETERS: u32 = 0x0f00;
pub const GET_CONNECT_LIST: u32 = 0x0f02;
pub const SET_STREAM_FORMAT: u32 = 0x0200;
pub const SET_AMP_GAIN_MUTE: u32 = 0x0300;
pub const SET_CONNECT_SEL: u32 = 0x0701;
pub const SET_CHANNEL_STREAMID: u32 = 0x0706;
pub const SET_PIN_WIDGET_CONTROL: u32 = 0x0707;
pub const AC_PAR_FUNCTION_TYPE: u16 = 0x05;
pub const AC_PAR_AUDIO_WIDGET_CAP: u16 = 0x09;
pub const AC_PAR_PIN_CAP: u16 = 0x0c;
pub const AC_PAR_AMP_OUT_CAP: u16 = 0x12;
pub const AC_PAR_CONNLIST_LEN: u16 = 0x0e;
pub const AC_PAR_NODE_COUNT: u16 = 0x04;
pub const AC_WID_AUD_OUT: u8 = 0x00;
pub const AC_WID_PIN: u8 = 0x04;
pub const AC_WCAP_OUT_AMP: u32 = 0x4;
pub const AC_WCAP_CONN_LIST: u32 = 0x100;
pub const AC_PINCAP_OUT: u32 = 0x10;
pub const AC_PINCTL_OUT_EN: u16 = 0x40;
pub const HDA_FORMAT_STEREO_S16_48K: u16 = 0x11;
pub const OUTPUT_STREAM_INDEX: u8 = 4;
pub const STREAM_TAG: u8 = 1;
pub const SD_CTL_DMA_START: u32 = 0x2;
pub const PCM_FRAMES_PER_PAGE: u64 = 1024;

#[derive(Debug, Clone, Copy, PartialEq, Eq, Structural)]
pub enum HdaError {
    MemorySpaceDisabled,
    NoOutputStreams,
    ResetFailed,
    NoCodec,
    CommandTimeout { command: u32 },
    InvalidNodeRange,
    NoAudioFunctionGroup,
    NoOutputConverter,
    NoOutputPin,
    NoFrame,
    AddressOverflow,
    RegisterVerification { register: u64, expected: u32, actual: u32 },
}

/// A failed bring-up, with the allocator position to continue from.
#[derive(Debug, Clone, Copy, PartialEq, Eq, Structural)]
pub struct HdaInitFailure {
    pub error: HdaError,
    pub next_frame_address: Option<u64>,
}

/// The codec nodes that carry the tone: the audio function group, the output converter, the
/// output pin, the pin's connection to the converter where it lists one, and the converter's
/// output gain where it has an amplifier.
#[derive(Debug, Clone, Copy, PartialEq, Eq, Structural)]
pub struct OutputPath {
    pub function_group: u8,
    pub converter: u8,
    pub pin: u8,
    pub connection_index: Option<u8>,
    pub amp_gain: Option<u16>,
}

/// A multimedia controller of the HD Audio subclass.
pub open spec fn is_hda(d: PciDevice) -> bool {
    d.class_code == 0x04 && d.subclass == 0x03
}

/// The first HD Audio controller of an inventory.
pub fn find_device(devices: &[PciDevice]) -> (r: Option<PciDevice>)
    ensures
        match r {
            Some(d) => exists|i: int|
                0 <= i < devices.len() && devices@[i] == d && is_hda(d) && forall|j: int|
                    0 <= j < i ==> !is_hda(#[trigger] devices@[j]),
            None => forall|j: int| 0 <= j < devices.len() ==> !is_hda(#[trigger] devices@[j]),
        },
{
    let mut i: usize = 0;
    while i < devices.len()
        invariant
            i <= devices.len(),
            forall|j: int| 0 <= j < i ==> !is_hda(#[trigger] devices@[j]),
        decreases devices.len() - i,
    {
        let device = devices[i];
        if device.class_code == 0x04 && device.subclass == 0x03 {
            return Some(device);
        }
        i = i + 1;
    }
    None
}

/// The controller needs its memory space enabled and at least one output stream (the top
/// nibble of the global capabilities).
pub fn check_controller(device: PciDevice, global_capabilities: u16) -> (r: Result<(), HdaError>)
    ensures
        r == (if device.command & 0x2 == 0 {
            Err(HdaError::MemorySpaceDisabled)
        } else if global_capabilities & 0xf000 == 0 {
            Err(HdaError::NoOutputStreams)
        } else {
            Ok(())
        }),
{
    if !device.memory_space_enabled() {
        return Err(HdaError::MemorySpaceDisabled);
    }
    if global_capabilities & 0xf000 == 0 {
        return Err(HdaError::NoOutputStreams);
    }
    Ok(())
}

/// The lowest codec address (of fifteen) whose bit is set in the state-change status.
pub fn first_codec(state_status: u16) -> (r: Option<u8>)
    ensures
        match r {
            Some(a) => a < 15 && state_status & (1u16 << a) != 0 && forall|b: u8|
                b < a ==> state_status & (1u16 << b) == 0,
            None => forall|b: u8| b < 15 ==> state_status & (1u16 << b) == 0,
        },
{
    let mut address: u8 = 0;
    while address < 15
        invariant
            address <= 15,
            forall|b: u8| b < address ==> state_status & (1u16 << b) == 0,
        decreases 15 - address,
    {
        if state_status & (1u16 << address) != 0 {
            return Some(address);
        }
        address = address + 1;
    }
    None
}

/// The command word that sends `verb` with `payload` to `node` of the codec at
/// `codec_address`.
pub fn codec_command(codec_address: u8, node: u8, verb: u32, payload: u16) -> (r: u32)
    ensures
        r == ((codec_address as u32) << 28u32) | ((node as u32) << 20u32) | ((verb << 8u32) | (
        payload as u32)),
{
    let data = (verb << 8u32) | payload as u32;
    ((codec_address as u32) << 28u32) | ((node as u32) << 20u32) | data
}

/// A node-count answer: the first node (bits 16..22) and the number of nodes (the low word),
/// which must be at least one, fit in a byte, and end at node 127 at the latest.
pub fn node_range(response: u32) -> (r: Result<(u8, u8), HdaError>)
    ensures
        ({
            let first = (response >> 16u32) & 0x7f;
            let count = response & 0xffff;
            if count > 255 || count == 0 || first + count > 0x7f {
                r == Err::<(u8, u8), HdaError>(HdaError::InvalidNodeRange)
            } else {
                r == Ok::<(u8, u8), HdaError>((first as u8, count as u8))
            }
        }),
{
    let first = ((response >> 16u32) & 0x7f) as u8;
    let count = (response & 0xffff) as u16;
    assert((response >> 16u32) & 0x7f <= 0x7f) by (bit_vector);
    assert(response & 0xffff <= 0xffff) by (bit_vector);
    if count > u8::MAX as u16 {
        return Err(HdaError::InvalidNodeRange);
    }
    let count = count as u8;
    if count == 0 || first.saturating_add(count) > 0x7f {
        return Err(HdaError::InvalidNodeRange);
    }
    Ok((first, count))
}

/// The widget type in bits 20..23 of a widget's capabilities.
pub fn widget_type(capabilities: u32) -> (r: u8)
    ensures
        r == (capabilities >> 20u32) & 0xf,
{
    assert((capabilities >> 20u32) & 0xf <= 0xf) by (bit_vector);
    ((capabilities >> 20u32) & 0xf) as u8
}

/// The output gain to set on a converter: its amplifier's number of steps (bits 8..14 of the
/// amplifier capabilities), at most 127, where it has an output amplifier with any steps.
pub fn converter_gain(capabilities: u32, amp_capabilities: u32) -> (r: Option<u16>)
    ensures
        r == (if capabilities & 0x4 != 0 && (amp_capabilities >> 8u32) & 0x7f != 0 {
            Some(((amp_capabilities >> 8u32) & 0x7f) as u16)
        } else {
            None::<u16>
        }),
{
    if capabilities & AC_WCAP_OUT_AMP == 0 {
        return None;
    }
    assert((amp_capabilities >> 8u32) & 0x7f <= 0x7f) by (bit_vector);
    let steps = ((amp_capabilities >> 8u32) & 0x7f) as u16;
    if steps == 0 {
        None
    } else if steps < 0x7f {
        Some(steps)
    } else {
        Some(0x7f)
    }
}

/// The number of connection-list entries a connection-list-length answer gives.
pub fn connection_list_length(response: u32) -> (r: u8)
    ensures
        r == response & 0x7f,
{
    assert(response & 0x7f <= 0x7f) by (bit_vector);
    (response & 0x7f) as u8
}

/// Entry `k` of a connection-list answer: its `k`-th byte, lowest first.
pub open spec fn connection_entry(response: u32, k: int) -> u32 {
    (response >> ((8 * k) as u32)) & 0xff
}

/// Looks for `converter` among the entries of a connection-list answer for the list starting
/// at entry `start` of `length`: each answer holds up to four entries. Gives the entry's index
/// in the list.
pub fn find_connection(response: u32, start: u8, length: u8, converter: u8) -> (r: Option<u8>)
    requires
        start < length,
    ensures
        ({
            let n = if length - start < 4 {
                length - start
            } else {
                4
            };
            match r {
                Some(i) => start <= i < start + n && connection_entry(response, i - start)
                    == converter && forall|k: int|
                    0 <= k < i - start ==> #[trigger] connection_entry(response, k) != converter,
                None => forall|k: int|
                    0 <= k < n ==> #[trigger] connection_entry(response, k) != converter,
            }
        }),
{
    let remaining = length - start;
    let chunk = if remaining < 4 {
        remaining
    } else {
        4
    };
    let mut offset: u8 = 0;
    while offset < chunk
        invariant
            chunk <= 4,
            start < length,
            chunk == (if length - start < 4 {
                length - start
            } else {
                4
            }),
            offset <= chunk,
            forall|k: int| 0 <= k < offset ==> #[trigger] connection_entry(response, k) != converter,
        decreases chunk - offset,
    {
        let entry = (response >> (offset as u32 * 8)) & 0xff;
        assert(entry == connection_entry(response, offset as int));
        if entry == converter as u32 {
            return Some(start + offset);
        }
        offset = offset + 1;
    }
    None
}

/// What the driver reads of a widget of the audio function group: its capabilities, its
/// output amplifier's capabilities, its pin capabilities, and its connection list.
#[derive(Debug)]
pub struct WidgetInfo {
    pub capabilities: u32,
    pub amp_capabilities: u32,
    pub pin_capabilities: u32,
    pub connections: Vec<u8>,
}

/// An index as a `u8`.
pub open spec fn as_u8(i: Option<int>) -> Option<u8> {
    match i {
        Some(i) => Some(i as u8),
        None => None,
    }
}

/// An output converter.
pub open spec fn is_converter(w: WidgetInfo) -> bool {
    (w.capabilities >> 20u32) & 0xf == 0
}

/// A pin that can drive an output.
pub open spec fn is_output_pin(w: WidgetInfo) -> bool {
    (w.capabilities >> 20u32) & 0xf == 4 && w.pin_capabilities & 0x10 != 0
}

/// An output pin with a connection list that names `converter`.
pub open spec fn connects_to(w: WidgetInfo, converter: u8) -> bool {
    is_output_pin(w) && w.capabilities & 0x100 != 0 && w.connections@.contains(converter)
}

/// What a search for a widget looks for.
pub enum WidgetSearch {
    Converter,
    OutputPin,
    ConnectedTo(u8),
}

pub open spec fn found(w: WidgetInfo, search: WidgetSearch) -> bool {
    match search {
        WidgetSearch::Converter => is_converter(w),
        WidgetSearch::OutputPin => is_output_pin(w),
        WidgetSearch::ConnectedTo(c) => connects_to(w, c),
    }
}

/// The index of the first widget from `k` on that the search finds.
pub open spec fn first_widget(widgets: Seq<WidgetInfo>, k: int, search: WidgetSearch) -> Option<
    int,
>
    decreases widgets.len() - k,
{
    if k < 0 || k >= widgets.len() {
        None
    } else if found(widgets[k], search) {
        Some(k)
    } else {
        first_widget(widgets, k + 1, search)
    }
}

/// The index of the first occurrence of `value` in `list` from `k` on.
pub open spec fn position_from(list: Seq<u8>, k: int, value: u8) -> Option<int>
    decreases list.len() - k,
{
    if k < 0 || k >= list.len() {
        None
    } else if list[k] == value {
        Some(k)
    } else {
        position_from(list, k + 1, value)
    }
}

proof fn lemma_first_widget_bound(widgets: Seq<WidgetInfo>, k: int, search: WidgetSearch)
    ensures
        first_widget(widgets, k, search) matches Some(i) ==> k <= i < widgets.len() && found(
            widgets[i],
            search,
        ),
    decreases widgets.len() - k,
{
    if 0 <= k < widgets.len() && !found(widgets[k], search) {
        lemma_first_widget_bound(widgets, k + 1, search);
    }
}

proof fn lemma_position_bound(list: Seq<u8>, k: int, value: u8)
    ensures
        position_from(list, k, value) matches Some(i) ==> k <= i < list.len() && list[i] == value,
    decreases list.len() - k,
{
    if 0 <= k < list.len() && list[k] != value {
        lemma_position_bound(list, k + 1, value);
    }
}

/// The path from the first output converter to an output pin, for the widgets `widgets` that
/// are the nodes from `first_node` on: the first output pin whose connection list names the
/// converter, with the converter's position in that list, or else the first output pin.
pub open spec fn output_path_spec(function_group: u8, first_node: u8, widgets: Seq<WidgetInfo>) -> Result<
    OutputPath,
    HdaError,
> {
    match first_widget(widgets, 0, WidgetSearch::Converter) {
        None => Err(HdaError::NoOutputConverter),
        Some(c) => {
            let converter = (first_node + c) as u8;
            let cw = widgets[c];
            let gain = if cw.capabilities & 0x4 != 0 && (cw.amp_capabilities >> 8u32) & 0x7f != 0 {
                Some(((cw.amp_capabilities >> 8u32) & 0x7f) as u16)
            } else {
                None
            };
            match first_widget(widgets, 0, WidgetSearch::OutputPin) {
                None => Err(HdaError::NoOutputPin),
                Some(f) => match first_widget(widgets, 0, WidgetSearch::ConnectedTo(converter)) {
                    Some(p) => Ok(
                        OutputPath {
                            function_group,
                            converter,
                            pin: (first_node + p) as u8,
                            connection_index: as_u8(position_from(widgets[p].connections@, 0, converter)),
                            amp_gain: gain,
                        },
                    ),
                    None => Ok(
                        OutputPath {
                            function_group,
                            converter,
                            pin: (first_node + f) as u8,
                            connection_index: None,
                            amp_gain: gain,
                        },
                    ),
                },
            }
        },
    }
}

fn search_widgets(widgets: &[WidgetInfo], search: &WidgetSearch) -> (r: Option<usize>)
    ensures
        match first_widget(widgets@, 0, *search) {
            None => r is None,
            Some(i) => r == Some(i as usize),
        },
{
    let mut k: usize = 0;
    while k < widgets.len()
        invariant
            k <= widgets.len(),
            first_widget(widgets@, 0, *search) == first_widget(widgets@, k as int, *search),
        decreases widgets.len() - k,
    {
        let w = &widgets[k];
        let kind = widget_type(w.capabilities);
        let output_pin = kind == AC_WID_PIN && w.pin_capabilities & AC_PINCAP_OUT != 0;
        let hit = match search {
            WidgetSearch::Converter => kind == AC_WID_AUD_OUT,
            WidgetSearch::OutputPin => output_pin,
            WidgetSearch::ConnectedTo(converter) => output_pin && w.capabilities
                & AC_WCAP_CONN_LIST != 0 && position_in(&w.connections, *converter).is_some(),
        };
        if hit {
            return Some(k);
        }
        k = k + 1;
    }
    None
}

fn position_in(list: &Vec<u8>, value: u8) -> (r: Option<usize>)
    ensures
        match position_from(list@, 0, value) {
            None => r is None,
            Some(i) => r == Some(i as usize),
        },
        r is Some <==> list@.contains(value),
{
    let mut k: usize = 0;
    while k < list.len()
        invariant
            k <= list.len(),
            position_from(list@, 0, value) == position_from(list@, k as int, value),
            forall|j: int| 0 <= j < k ==> list@[j] != value,
        decreases list.len() - k,
    {
        if list[k] == value {
            return Some(k);
        }
        k = k + 1;
    }
    None
}

/// Chooses the output path among `widgets`, the nodes from `first_node` on of the audio
/// function group `function_group`.
pub fn choose_output_path(function_group: u8, first_node: u8, widgets: &[WidgetInfo]) -> (r: Result<
    OutputPath,
    HdaError,
>)
    requires
        first_node + widgets.len() <= 0x7f,
        forall|k: int| 0 <= k < widgets.len() ==> (#[trigger] widgets@[k]).connections@.len() <= 0x7f,
    ensures
        r == output_path_spec(function_group, first_node, widgets@),
{
    let c = match search_widgets(widgets, &WidgetSearch::Converter) {
        None => return Err(HdaError::NoOutputConverter),
        Some(c) => c,
    };
    proof {
        lemma_first_widget_bound(widgets@, 0, WidgetSearch::Converter);
    }
    let converter = first_node + c as u8;
    let gain = converter_gain(widgets[c].capabilities, widgets[c].amp_capabilities);
    let fallback = match search_widgets(widgets, &WidgetSearch::OutputPin) {
        None => return Err(HdaError::NoOutputPin),
        Some(f) => f,
    };
    proof {
        lemma_first_widget_bound(widgets@, 0, WidgetSearch::OutputPin);
    }
    match search_widgets(widgets, &WidgetSearch::ConnectedTo(converter)) {
        Some(p) => {
            proof {
                lemma_first_widget_bound(widgets@, 0, WidgetSearch::ConnectedTo(converter));
            }
            let index = position_in(&widgets[p].connections, converter);
            proof {
                lemma_position_bound(widgets@[p as int].connections@, 0, converter);
            }
            let connection_index = match index {
                Some(i) => Some(i as u8),
                None => None,
            };
            Ok(
                OutputPath {
                    function_group,
                    converter,
                    pin: first_node + p as u8,
                    connection_index,
                    amp_gain: gain,
                },
            )
        },
        None => Ok(
            OutputPath {
                function_group,
                converter,
                pin: first_node + fallback as u8,
                connection_index: None,
                amp_gain: gain,
            },
        ),
    }
}

/// The index of the first function type from `k` on whose low byte is 1 (an audio function
/// group).
pub open spec fn audio_group_from(types: Seq<u32>, k: int) -> Option<int>
    decreases types.len() - k,
{
    if k < 0 || k >= types.len() {
        None
    } else if types[k] & 0xff == 1 {
        Some(k)
    } else {
        audio_group_from(types, k + 1)
    }
}

/// The audio function group: the first node, of those from `first_node` on whose function
/// types are `function_types`, whose type's low byte is 1.
pub fn find_function_group(first_node: u8, function_types: &[u32]) -> (r: Result<u8, HdaError>)
    requires
        first_node + function_types.len() <= 0x7f,
    ensures
        match audio_group_from(function_types@, 0) {
            None => r == Err::<u8, HdaError>(HdaError::NoAudioFunctionGroup),
            Some(k) => r == Ok::<u8, HdaError>((first_node + k) as u8),
        },
{
    let mut k: usize = 0;
    while k < function_types.len()
        invariant
            k <= function_types.len(),
            first_node + function_types.len() <= 0x7f,
            audio_group_from(function_types@, 0) == audio_group_from(function_types@, k as int),
        decreases function_types.len() - k,
    {
        if function_types[k] & 0xff == 1 {
            return Ok(first_node + k as u8);
        }
        k = k + 1;
    }
    Err(HdaError::NoAudioFunctionGroup)
}

/// A command of the codec setup: the node it goes to, the verb and its payload.
#[derive(Debug, Clone, Copy, PartialEq, Eq, Structural)]
pub struct CodecCommand {
    pub node: u8,
    pub verb: u32,
    pub payload: u16,
}

/// The commands that route the tone along `path`, in order: enable the pin's output, select
/// the converter on the pin where it has a connection list, give the converter stream tag 1
/// on channel 0, set its format to 16-bit stereo at 48 kHz, and set its output gain on both
/// channels where it has an amplifier.
pub fn codec_setup_commands(path: OutputPath) -> (r: Vec<CodecCommand>)
    ensures
        r@ == seq![CodecCommand { node: path.pin, verb: 0x0707, payload: 0x40 }] + (match path.connection_index {
            Some(i) => seq![CodecCommand { node: path.pin, verb: 0x0701, payload: i as u16 }],
            None => Seq::empty(),
        }) + seq![
            CodecCommand { node: path.converter, verb: 0x0706, payload: 0x10 },
            CodecCommand { node: path.converter, verb: 0x0200, payload: 0x11 },
        ] + (match path.amp_gain {
            Some(g) => seq![
                CodecCommand {
                    node: path.converter,
                    verb: 0x0300,
                    payload: 0x8000u16 | 0x2000u16 | 0x1000u16 | (g & 0x7f),
                },
            ],
            None => Seq::empty(),
        }),
{
    let mut commands: Vec<CodecCommand> = Vec::new();
    commands.push(
        CodecCommand { node: path.pin, verb: SET_PIN_WIDGET_CONTROL, payload: AC_PINCTL_OUT_EN },
    );
    if let Some(index) = path.connection_index {
        commands.push(CodecCommand { node: path.pin, verb: SET_CONNECT_SEL, payload: index as u16 });
    }
    commands.push(
        CodecCommand {
            node: path.converter,
            verb: SET_CHANNEL_STREAMID,
            payload: (STREAM_TAG as u16) << 4u16,
        },
    );
    commands.push(
        CodecCommand {
            node: path.converter,
            verb: SET_STREAM_FORMAT,
            payload: HDA_FORMAT_STEREO_S16_48K,
        },
    );
    if let Some(gain) = path.amp_gain {
        commands.push(
            CodecCommand {
                node: path.converter,
                verb: SET_AMP_GAIN_MUTE,
                payload: 0x8000u16 | 0x2000u16 | 0x1000u16 | (gain & 0x7f),
            },
        );
    }
    assert((1u16 << 4u16) == 0x10u16) by (bit_vector);
    assert(commands@ =~= seq![CodecCommand { node: path.pin, verb: 0x0707, payload: 0x40 }] + (match path.connection_index {
        Some(i) => seq![CodecCommand { node: path.pin, verb: 0x0701, payload: i as u16 }],
        None => Seq::empty(),
    }) + seq![
        CodecCommand { node: path.converter, verb: 0x0706, payload: 0x10 },
        CodecCommand { node: path.converter, verb: 0x0200, payload: 0x11 },
    ] + (match path.amp_gain {
        Some(g) => seq![
            CodecCommand {
                node: path.converter,
                verb: 0x0300,
                payload: 0x8000u16 | 0x2000u16 | 0x1000u16 | (g & 0x7f),
            },
        ],
        None => Seq::empty(),
    }));
    commands
}

/// The register block of output stream 4.
pub fn output_stream_base() -> (r: u64)
    ensures
        r == 0x100,
{
    0x80 + (OUTPUT_STREAM_INDEX as u64) * 0x20
}

/// The stream control value: stream tag 1, and the DMA engine running when `start`.
pub fn stream_control(start: bool) -> (r: u32)
    ensures
        r == (if start {
            0x10_0002u32
        } else {
            0x10_0000u32
        }),
{
    let tagged = (STREAM_TAG as u32) << 20u32;
    assert((1u32 << 20u32) == 0x10_0000u32 && (0x10_0000u32 | 0x2u32) == 0x10_0002u32)
        by (bit_vector);
    if start {
        tagged | SD_CTL_DMA_START
    } else {
        tagged
    }
}

/// The stream must be running, with neither a descriptor nor a FIFO error flagged.
pub fn verify_stream(actual_control: u32, status: u8) -> (r: Result<(), HdaError>)
    ensures
        r == (if actual_control & 0x2 == 0 || status & 0x18 != 0 {
            Err(
                HdaError::RegisterVerification {
                    register: 0x100,
                    expected: 0x10_0002,
                    actual: actual_control,
                },
            )
        } else {
            Ok(())
        }),
{
    if actual_control & SD_CTL_DMA_START == 0 || status & 0x18 != 0 {
        return Err(
            HdaError::RegisterVerification {
                register: output_stream_base(),
                expected: stream_control(true),
                actual: actual_control,
            },
        );
    }
    Ok(())
}

/// One 4 KiB page of DMA memory, by its physical and its mapped virtual address.
#[derive(Debug, Clone, Copy, PartialEq, Eq, Structural)]
pub struct DmaPage {
    pub physical_base: u64,
    pub virtual_base: u64,
}

/// Takes the allocator's next frame as a DMA page mapped at `physical_memory_offset` above its
/// physical address. The frame is taken even when the page cannot be mapped.
pub fn allocate_page(allocator: &mut FrameAllocator<'_>, physical_memory_offset: u64) -> (r: Result<
    DmaPage,
    HdaError,
>)
    ensures
        ({
            let (i, frame) = next_frame(
                old(allocator).map(),
                old(allocator).index(),
                old(allocator).cursor(),
            );
            &&& final(allocator).map() == old(allocator).map()
            &&& frame matches Some(a) ==> final(allocator).index() == i
                && final(allocator).cursor() == Some((a + 4096) as u64)
            &&& r == match frame {
                None => Err(HdaError::NoFrame),
                Some(a) => if physical_memory_offset + a + 4096 > u64::MAX {
                    Err(HdaError::AddressOverflow)
                } else {
                    Ok(
                        DmaPage {
                            physical_base: a,
                            virtual_base: (physical_memory_offset + a) as u64,
                        },
                    )
                },
            }
        }),
{
    let frame = match allocator.next() {
        None => return Err(HdaError::NoFrame),
        Some(frame) => frame,
    };
    let physical_base = frame.start_address();
    let virtual_base = match physical_memory_offset.checked_add(physical_base) {
        None => return Err(HdaError::AddressOverflow),
        Some(v) => v,
    };
    if virtual_base.checked_add(4096).is_none() {
        return Err(HdaError::AddressOverflow);
    }
    Ok(DmaPage { physical_base, virtual_base })
}

/// The buffer descriptor for a PCM page: its 64-bit address, its 4096 bytes, and an interrupt
/// on completion.
pub fn bdl_entry(page: DmaPage) -> (r: (u64, u32, u32))
    ensures
        r == (page.physical_base, 4096u32, 1u32),
{
    (page.physical_base, 4096, 1)
}

/// Byte `i` of PCM page `page_index`: each four-byte frame holds the same sample for the left
/// and the right channel, little-endian, the page's first frame being sample
/// `page_index * 1024`.
pub open spec fn pcm_byte(page_index: u64, i: int) -> u8 {
    let sample = tone_spec((page_index * 1024 + i / 4) as u64) as u16;
    if i % 2 == 0 {
        (sample % 256) as u8
    } else {
        (sample / 256) as u8
    }
}

/// The 4096 bytes of PCM page `page_index`, or `AddressOverflow` where its sample indices do
/// not fit in 64 bits.
pub fn pcm_page(page_index: u64) -> (r: Result<Vec<u8>, HdaError>)
    ensures
        page_index * 1024 + 1023 > u64::MAX ==> r == Err::<Vec<u8>, HdaError>(
            HdaError::AddressOverflow,
        ),
        page_index * 1024 + 1023 <= u64::MAX ==> (r matches Ok(v) && v@.len() == 4096 && forall|
            i: int,
        |
            0 <= i < 4096 ==> #[trigger] v@[i] == pcm_byte(page_index, i)),
{
    let first = match page_index.checked_mul(PCM_FRAMES_PER_PAGE) {
        None => return Err(HdaError::AddressOverflow),
        Some(f) => f,
    };
    if first.checked_add(PCM_FRAMES_PER_PAGE - 1).is_none() {
        return Err(HdaError::AddressOverflow);
    }
    let mut bytes: Vec<u8> = Vec::new();
    let mut frame: u64 = 0;
    while frame < PCM_FRAMES_PER_PAGE
        invariant
            first == page_index * 1024,
            first + 1023 <= u64::MAX,
            frame <= 1024,
            bytes@.len() == 4 * frame,
            forall|i: int| 0 <= i < 4 * frame ==> #[trigger] bytes@[i] == pcm_byte(page_index, i),
        decreases 1024 - frame,
    {
        let sample = tone_sample(first + frame) as u16;
        let low = (sample % 256) as u8;
        let high = (sample / 256) as u8;
        let ghost base = 4 * frame as int;
        assert((base + 0) / 4 == frame && (base + 1) / 4 == frame && (base + 2) / 4 == frame && (
        base + 3) / 4 == frame);
        assert((base + 0) % 2 == 0 && (base + 1) % 2 == 1 && (base + 2) % 2 == 0 && (base + 3) % 2
            == 1);
        bytes.push(low);
        bytes.push(high);
        bytes.push(low);
        bytes.push(high);
        frame = frame + 1;
    }
    Ok(bytes)
}

/// The tone's sample at `sample_index`: a triangle wave of amplitude 12000 whose phase advances
/// 440 steps of a 48000-step cycle per sample (the index times 440 wrapping at 64 bits).
pub open spec fn tone_spec(sample_index: u64) -> i16 {
    let phase = ((sample_index * 440) % 0x1_0000_0000_0000_0000) % 48000;
    let distance = if phase < 24000 {
        phase
    } else {
        48000 - phase
    };
    (distance - 12000) as i16
}

pub fn tone_sample(sample_index: u64) -> (r: i16)
    ensures
        r == tone_spec(sample_index),
        -12000 <= r <= 12000,
{
    let amplitude: i32 = 12_000;
    let cycle: u64 = 48_000;
    let frequency: u64 = 440;
    let phase = sample_index.wrapping_mul(frequency) % cycle;
    let distance = if phase < cycle / 2 {
        phase
    } else {
        cycle - phase
    };
    let d = distance as i32;
    assert(d * 2 * 12000 / 24000 == d) by (nonlinear_arith)
        requires
            0 <= d <= 24000,
    ;
    let value = (d * 2 * amplitude / (cycle as i32 / 2)) - amplitude;
    value as i16
}

/// The tone repeats every 48000 samples, as long as the index does not wrap.
pub proof fn lemma_tone_period(sample_index: u64)
    requires
        (sample_index + 48000) * 440 < 0x1_0000_0000_0000_0000,
    ensures
        tone_spec(sample_index) == tone_spec((sample_index + 48000) as u64),
{
    assert(((sample_index + 48000) * 440) % 48000 == (sample_index * 440) % 48000) by (nonlinear_arith);
}

} // verus!
