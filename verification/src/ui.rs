//! The two pages: what is connected and nearby, and the details of the connected headset.

use vstd::prelude::*;

use crate::address::{address_text, Address};
use crate::discovery::{shown_name, DeviceName};
use crate::fixed_text::{FixedText, FixedView};
use crate::model::{
    ConnectionState, LinkDetails, Model, ModelView, Peer, ScanState, StreamState,
};

verus! {

pub const EVENT_CONNECTED_DETAIL: u32 = 1;

pub const EVENT_SCAN: u32 = 2;

pub const EVENT_REFRESH: u32 = 3;

pub const EVENT_BACK: u32 = 4;

pub const EVENT_DISCONNECT: u32 = 5;

pub const EVENT_TEST_TONE: u32 = 6;

pub const EVENT_LONG_MP3: u32 = 7;

pub const EVENT_LONG_MP3_DECODE_ONLY: u32 = 8;

pub const EVENT_DEVICE_BASE: u32 = 100;

#[derive(Copy, Clone, Debug, PartialEq, Eq, Structural)]
pub enum TextStyle {
    Description,
    Warning,
}

/// One step in building a page. Pages and sections stay open until their `End`.
#[derive(Clone, Debug, PartialEq, Eq)]
pub enum UiCommand {
    NavigationPage { key: u32, title: String },
    Section { key: u32, title: String },
    ActionRow { key: u32, primary: String, secondary: String, event: u32, enabled: bool },
    StatusRow { key: u32, primary: String, secondary: String },
    Text { key: u32, text: String, style: TextStyle },
    Button { key: u32, label: String, event: u32, enabled: bool },
    End,
}

/// What a `UiCommand` says.
pub enum UiView {
    NavigationPage { key: u32, title: Seq<char> },
    Section { key: u32, title: Seq<char> },
    ActionRow { key: u32, primary: Seq<char>, secondary: Seq<char>, event: u32, enabled: bool },
    StatusRow { key: u32, primary: Seq<char>, secondary: Seq<char> },
    Text { key: u32, text: Seq<char>, style: TextStyle },
    Button { key: u32, label: Seq<char>, event: u32, enabled: bool },
    End,
}

impl View for UiCommand {
    type V = UiView;

    open spec fn view(&self) -> UiView {
        match *self {
            UiCommand::NavigationPage { key, title } => UiView::NavigationPage {
                key,
                title: title@,
            },
            UiCommand::Section { key, title } => UiView::Section { key, title: title@ },
            UiCommand::ActionRow { key, primary, secondary, event, enabled } => UiView::ActionRow {
                key,
                primary: primary@,
                secondary: secondary@,
                event,
                enabled,
            },
            UiCommand::StatusRow { key, primary, secondary } => UiView::StatusRow {
                key,
                primary: primary@,
                secondary: secondary@,
            },
            UiCommand::Text { key, text, style } => UiView::Text { key, text: text@, style },
            UiCommand::Button { key, label, event, enabled } => UiView::Button {
                key,
                label: label@,
                event,
                enabled,
            },
            UiCommand::End => UiView::End,
        }
    }
}

/// The steps that build a page, in order.
#[derive(Clone, Debug, PartialEq, Eq)]
pub struct Page {
    pub commands: Vec<UiCommand>,
}

impl View for Page {
    type V = Seq<UiView>;

    open spec fn view(&self) -> Seq<UiView> {
        self.commands@.map_values(|command: UiCommand| command@)
    }
}

impl Page {
    fn new() -> (page: Self)
        ensures
            page@ == Seq::<UiView>::empty(),
    {
        let page = Page { commands: Vec::new() };
        assert(page@ =~= Seq::<UiView>::empty());
        page
    }

    fn add(&mut self, command: UiCommand)
        ensures
            final(self)@ == old(self)@.push(command@),
    {
        let ghost before = self@;
        self.commands.push(command);
        assert(self@ =~= before.push(command@));
    }

    fn section(&mut self, key: u32, title: &str)
        ensures
            final(self)@ == old(self)@.push(UiView::Section { key, title: title@ }),
    {
        self.add(UiCommand::Section { key, title: title.to_owned() });
    }

    fn action_row(&mut self, key: u32, primary: &str, secondary: &str, event: u32, enabled: bool)
        ensures
            final(self)@ == old(self)@.push(
                (UiView::ActionRow {
                    key,
                    primary: primary@,
                    secondary: secondary@,
                    event,
                    enabled,
                }),
            ),
    {
        self.add(
            UiCommand::ActionRow {
                key,
                primary: primary.to_owned(),
                secondary: secondary.to_owned(),
                event,
                enabled,
            },
        );
    }

    fn status_row(&mut self, key: u32, primary: &str, secondary: &str)
        ensures
            final(self)@ == old(self)@.push(status(key, primary@, secondary@)),
    {
        self.add(
            UiCommand::StatusRow {
                key,
                primary: primary.to_owned(),
                secondary: secondary.to_owned(),
            },
        );
    }

    fn text(&mut self, key: u32, text: &str, style: TextStyle)
        ensures
            final(self)@ == old(self)@.push((UiView::Text { key, text: text@, style })),
    {
        self.add(UiCommand::Text { key, text: text.to_owned(), style });
    }

    fn button(&mut self, key: u32, label: &str, event: u32, enabled: bool)
        ensures
            final(self)@ == old(self)@.push(button(key, label@, event, enabled)),
    {
        self.add(UiCommand::Button { key, label: label.to_owned(), event, enabled });
    }
}

pub open spec fn status(key: u32, primary: Seq<char>, secondary: Seq<char>) -> UiView {
    UiView::StatusRow { key, primary, secondary }
}

pub open spec fn button(key: u32, label: Seq<char>, event: u32, enabled: bool) -> UiView {
    UiView::Button { key, label, event, enabled }
}

/// What is shown of a scan.
pub open spec fn scan_text(state: ScanState) -> Seq<char> {
    match state {
        ScanState::Idle => "空闲"@,
        ScanState::Starting => "正在启动…"@,
        ScanState::Scanning => "正在扫描…"@,
        ScanState::Stopping => "正在停止…"@,
        ScanState::Failed => "扫描失败"@,
    }
}

fn scan_detail(state: ScanState) -> (text: &'static str)
    ensures
        text@ == scan_text(state),
{
    match state {
        ScanState::Idle => "空闲",
        ScanState::Starting => "正在启动…",
        ScanState::Scanning => "正在扫描…",
        ScanState::Stopping => "正在停止…",
        ScanState::Failed => "扫描失败",
    }
}

/// What is shown of a connection.
pub open spec fn connection_text(state: ConnectionState) -> Seq<char> {
    match state {
        ConnectionState::Disconnected => "Not connected"@,
        ConnectionState::WaitingForScanStop => "准备中…"@,
        ConnectionState::CheckingBond => "检查配对中…"@,
        ConnectionState::RemovingBond => "清除配对中…"@,
        ConnectionState::Pairing => "配对中…"@,
        ConnectionState::Connecting => "连接中…"@,
        ConnectionState::Configuring => "音频设置中…"@,
        ConnectionState::Ready => "已连接"@,
        ConnectionState::Disconnecting => "正在断开连接…"@,
        ConnectionState::Failed => "失败"@,
    }
}

fn connection_detail(state: ConnectionState) -> (text: &'static str)
    ensures
        text@ == connection_text(state),
{
    match state {
        ConnectionState::Disconnected => "Not connected",
        ConnectionState::WaitingForScanStop => "准备中…",
        ConnectionState::CheckingBond => "检查配对中…",
        ConnectionState::RemovingBond => "清除配对中…",
        ConnectionState::Pairing => "配对中…",
        ConnectionState::Connecting => "连接中…",
        ConnectionState::Configuring => "音频设置中…",
        ConnectionState::Ready => "已连接",
        ConnectionState::Disconnecting => "正在断开连接…",
        ConnectionState::Failed => "失败",
    }
}

/// What is shown of a stream.
pub open spec fn stream_text(state: StreamState) -> Seq<char> {
    match state {
        StreamState::Idle => "空闲"@,
        StreamState::Discovering => "正在发现"@,
        StreamState::ReadingCapabilities => "正在读取能力"@,
        StreamState::Configuring => "配置中"@,
        StreamState::Opening => "打开中"@,
        StreamState::Open => "就绪"@,
        StreamState::Starting => "启动中"@,
        StreamState::Streaming => "正在播放音频"@,
        StreamState::Suspending => "停止中"@,
        StreamState::Failed => "失败"@,
    }
}

fn stream_detail(state: StreamState) -> (text: &'static str)
    ensures
        text@ == stream_text(state),
{
    match state {
        StreamState::Idle => "空闲",
        StreamState::Discovering => "正在发现",
        StreamState::ReadingCapabilities => "正在读取能力",
        StreamState::Configuring => "配置中",
        StreamState::Opening => "打开中",
        StreamState::Open => "就绪",
        StreamState::Starting => "启动中",
        StreamState::Streaming => "正在播放音频",
        StreamState::Suspending => "停止中",
        StreamState::Failed => "失败",
    }
}

/// What is shown of the AVRCP channel.
pub open spec fn avrcp_state_text(state: u8) -> Seq<char> {
    match state {
        0 => "Idle"@,
        1 => "Connecting PSM 23"@,
        2 => "Connected"@,
        3 => "Disconnecting"@,
        4 => "Failed"@,
        _ => "Unknown"@,
    }
}

fn avrcp_state_detail(state: u8) -> (text: &'static str)
    ensures
        text@ == avrcp_state_text(state),
{
    match state {
        0 => "Idle",
        1 => "Connecting PSM 23",
        2 => "Connected",
        3 => "Disconnecting",
        4 => "Failed",
        _ => "Unknown",
    }
}

/// What is shown of the audio endpoint.
pub open spec fn audio_state_text(state: u8) -> Seq<char> {
    match state {
        0 => "Closed"@,
        1 => "Idle"@,
        2 => "Configured"@,
        3 => "Buffering"@,
        4 => "Playing"@,
        5 => "Paused"@,
        6 => "Draining"@,
        7 => "Stopped"@,
        8 => "Error"@,
        _ => "Unknown"@,
    }
}

fn audio_state_detail(state: u8) -> (text: &'static str)
    ensures
        text@ == audio_state_text(state),
{
    match state {
        0 => "Closed",
        1 => "Idle",
        2 => "Configured",
        3 => "Buffering",
        4 => "Playing",
        5 => "Paused",
        6 => "Draining",
        7 => "Stopped",
        8 => "Error",
        _ => "Unknown",
    }
}

/// What is shown of the pipeline.
pub open spec fn audio_stage_text(state: u8) -> Seq<char> {
    match state {
        0 => "Idle"@,
        1 => "Queued"@,
        2 => "Prebuffering"@,
        3 => "AVDTP START"@,
        4 => "MP3 decode"@,
        5 => "PCM ready"@,
        6 => "SBC encode"@,
        7 => "RTP sent"@,
        8 => "Draining"@,
        9 => "Complete"@,
        10 => "Failed"@,
        11 => "Decode only"@,
        _ => "Unknown"@,
    }
}

fn audio_stage_detail(state: u8) -> (text: &'static str)
    ensures
        text@ == audio_stage_text(state),
{
    match state {
        0 => "Idle",
        1 => "Queued",
        2 => "Prebuffering",
        3 => "AVDTP START",
        4 => "MP3 decode",
        5 => "PCM ready",
        6 => "SBC encode",
        7 => "RTP sent",
        8 => "Draining",
        9 => "Complete",
        10 => "Failed",
        11 => "Decode only",
        _ => "Unknown",
    }
}

/// A number.
#[verifier::opaque]
pub open spec fn number_text(value: i32) -> Seq<char> {
    FixedView::blank().put_signed(value as int, 16).text
}

fn number_detail(value: i32) -> (text: FixedText<16>)
    ensures
        text@.text == number_text(value),
{
    proof {
        reveal(number_text);
    }
    FixedText::new().put_signed(value)
}

/// A number that is not negative.
#[verifier::opaque]
pub open spec fn unsigned_text(value: u32) -> Seq<char> {
    FixedView::blank().put_unsigned(value as nat, 16).text
}

fn unsigned_detail(value: u32) -> (text: FixedText<16>)
    ensures
        text@.text == unsigned_text(value),
{
    proof {
        reveal(unsigned_text);
    }
    FixedText::new().put_unsigned(value)
}

/// A class of device.
#[verifier::opaque]
pub open spec fn class_text(value: u32) -> Seq<char> {
    FixedView::blank().put("0x"@, 16).put_hex(value as nat, 6, 16).text
}

fn class_detail(value: u32) -> (text: FixedText<16>)
    ensures
        text@.text == class_text(value),
{
    proof {
        reveal(class_text);
    }
    FixedText::new().put("0x").put_hex(value, 6)
}

/// How many results found no room.
#[verifier::opaque]
pub open spec fn dropped_text(count: u32) -> Seq<char> {
    FixedView::blank()
        .put("还有 "@, 48)
        .put_unsigned(count as nat, 48)
        .put(" 个结果无法保留"@, 48)
        .text
}

fn dropped_detail(count: u32) -> (text: FixedText<48>)
    ensures
        text@.text == dropped_text(count),
{
    proof {
        reveal(dropped_text);
    }
    FixedText::new().put("还有 ").put_unsigned(count).put(" 个结果无法保留")
}

/// How the audio endpoint was set up.
#[verifier::opaque]
pub open spec fn audio_endpoint_text(details: LinkDetails) -> Seq<char> {
    FixedView::blank()
        .put("reg "@, 64)
        .put_signed(details.audio_register_result as int, 64)
        .put(" probe "@, 64)
        .put_signed(details.audio_probe_result as int, 64)
        .put(" abi "@, 64)
        .put_unsigned(details.audio_probe_abi as nat, 64)
        .put(" cmd 0x"@, 64)
        .put_hex(details.audio_last_command as nat, 3, 64)
        .text
}

fn audio_endpoint_detail(details: &LinkDetails) -> (text: FixedText<64>)
    ensures
        text@.text == audio_endpoint_text(*details),
{
    proof {
        reveal(audio_endpoint_text);
    }
    FixedText::new()
        .put("reg ")
        .put_signed(details.audio_register_result)
        .put(" probe ")
        .put_signed(details.audio_probe_result)
        .put(" abi ")
        .put_unsigned(details.audio_probe_abi)
        .put(" cmd 0x")
        .put_hex(details.audio_last_command, 3)
}

/// How far pairing has come.
#[verifier::opaque]
pub open spec fn pairing_text(details: LinkDetails) -> Seq<char> {
    FixedView::blank()
        .put("Bond "@, 32)
        .put_unsigned(details.stock_bond_state as nat, 32)
        .put("/"@, 32)
        .put_unsigned(details.device_bond_state as nat, 32)
        .put(" · "@, 32)
        .put_hex(details.pairing_flags as nat, 2, 32)
        .text
}

fn pairing_detail(details: &LinkDetails) -> (text: FixedText<32>)
    ensures
        text@.text == pairing_text(*details),
{
    proof {
        reveal(pairing_text);
    }
    FixedText::new()
        .put("Bond ")
        .put_unsigned(details.stock_bond_state as u32)
        .put("/")
        .put_unsigned(details.device_bond_state as u32)
        .put(" · ")
        .put_hex(details.pairing_flags as u32, 2)
}

/// The sizes that the channels take.
#[verifier::opaque]
pub open spec fn mtu_text(details: LinkDetails) -> Seq<char> {
    FixedView::blank()
        .put("media "@, 32)
        .put_unsigned(details.media_mtu as nat, 32)
        .put(" / ctl "@, 32)
        .put_unsigned(details.avrcp_mtu as nat, 32)
        .text
}

fn mtu_detail(details: &LinkDetails) -> (text: FixedText<32>)
    ensures
        text@.text == mtu_text(*details),
{
    proof {
        reveal(mtu_text);
    }
    FixedText::new()
        .put("media ")
        .put_unsigned(details.media_mtu as u32)
        .put(" / ctl ")
        .put_unsigned(details.avrcp_mtu as u32)
}

/// What the audio endpoint does and holds.
#[verifier::opaque]
pub open spec fn input_text(details: LinkDetails) -> Seq<char> {
    FixedView::blank()
        .put(audio_state_text(details.audio_state), 32)
        .put(" / "@, 32)
        .put_unsigned(details.input_used as nat, 32)
        .put(" B"@, 32)
        .text
}

fn input_detail(details: &LinkDetails) -> (text: FixedText<32>)
    ensures
        text@.text == input_text(*details),
{
    proof {
        reveal(input_text);
    }
    FixedText::new()
        .put(audio_state_detail(details.audio_state))
        .put(" / ")
        .put_unsigned(details.input_used)
        .put(" B")
}

/// The format of what is decoded.
#[verifier::opaque]
pub open spec fn decoded_format_text(details: LinkDetails) -> Seq<char> {
    FixedView::blank()
        .put_unsigned(details.decoded_sample_rate as nat, 32)
        .put(" Hz / "@, 32)
        .put_unsigned(details.decoded_channels as nat, 32)
        .put(" ch"@, 32)
        .text
}

fn decoded_format_detail(details: &LinkDetails) -> (text: FixedText<32>)
    ensures
        text@.text == decoded_format_text(*details),
{
    proof {
        reveal(decoded_format_text);
    }
    FixedText::new()
        .put_unsigned(details.decoded_sample_rate)
        .put(" Hz / ")
        .put_unsigned(details.decoded_channels as u32)
        .put(" ch")
}

/// The AVRCP channel at a glance.
#[verifier::opaque]
pub open spec fn avrcp_text(details: LinkDetails) -> Seq<char> {
    FixedView::blank()
        .put(avrcp_state_text(details.avrcp_state), 80)
        .put(" c"@, 80)
        .put_unsigned(details.avrcp_cid as nat, 80)
        .put(" v"@, 80)
        .put_unsigned(details.avrcp_volume as nat, 80)
        .put(" "@, 80)
        .put_unsigned(details.avrcp_packets_sent as nat, 80)
        .put("/"@, 80)
        .put_unsigned(details.avrcp_packets_received as nat, 80)
        .put(" ev"@, 80)
        .put_unsigned(details.avrcp_last_event as nat, 80)
        .put(" e"@, 80)
        .put_signed(details.avrcp_error as int, 80)
        .put(" h"@, 80)
        .put_hex(details.avrcp_rx_header as nat, 8, 80)
        .put("/"@, 80)
        .put_unsigned(details.avrcp_rx_length as nat, 80)
        .text
}

fn avrcp_detail(details: &LinkDetails) -> (text: FixedText<80>)
    ensures
        text@.text == avrcp_text(*details),
{
    proof {
        reveal(avrcp_text);
    }
    FixedText::new()
        .put(avrcp_state_detail(details.avrcp_state))
        .put(" c")
        .put_unsigned(details.avrcp_cid as u32)
        .put(" v")
        .put_unsigned(details.avrcp_volume as u32)
        .put(" ")
        .put_unsigned(details.avrcp_packets_sent)
        .put("/")
        .put_unsigned(details.avrcp_packets_received)
        .put(" ev")
        .put_unsigned(details.avrcp_last_event)
        .put(" e")
        .put_signed(details.avrcp_error)
        .put(" h")
        .put_hex(details.avrcp_rx_header, 8)
        .put("/")
        .put_unsigned(details.avrcp_rx_length as u32)
}

/// How long playing and decoding took.
#[verifier::opaque]
pub open spec fn timing_text(details: LinkDetails) -> Seq<char> {
    FixedView::blank()
        .put_unsigned(details.audio_elapsed_ms as nat, 40)
        .put(" ms / decode "@, 40)
        .put_unsigned(details.decode_cpu_ms as nat, 40)
        .put(" ms"@, 40)
        .text
}

fn timing_detail(details: &LinkDetails) -> (text: FixedText<40>)
    ensures
        text@.text == timing_text(*details),
{
    proof {
        reveal(timing_text);
    }
    FixedText::new()
        .put_unsigned(details.audio_elapsed_ms)
        .put(" ms / decode ")
        .put_unsigned(details.decode_cpu_ms)
        .put(" ms")
}

/// How fast decoding is.
#[verifier::opaque]
pub open spec fn speed_text(percent: u32) -> Seq<char> {
    FixedView::blank().put_unsigned(percent as nat, 24).put("% realtime"@, 24).text
}

fn speed_detail(percent: u32) -> (text: FixedText<24>)
    ensures
        text@.text == speed_text(percent),
{
    proof {
        reveal(speed_text);
    }
    FixedText::new().put_unsigned(percent).put("% realtime")
}

/// How long the start took.
#[verifier::opaque]
pub open spec fn startup_text(details: LinkDetails) -> Seq<char> {
    FixedView::blank()
        .put_unsigned(details.startup_ms as nat, 48)
        .put(" ms (q"@, 48)
        .put_unsigned(details.startup_queue_ms as nat, 48)
        .put(" p"@, 48)
        .put_unsigned(details.startup_prepare_ms as nat, 48)
        .put(" a"@, 48)
        .put_unsigned(details.startup_avdtp_ms as nat, 48)
        .put(")"@, 48)
        .text
}

fn startup_detail(details: &LinkDetails) -> (text: FixedText<48>)
    ensures
        text@.text == startup_text(*details),
{
    proof {
        reveal(startup_text);
    }
    FixedText::new()
        .put_unsigned(details.startup_ms)
        .put(" ms (q")
        .put_unsigned(details.startup_queue_ms)
        .put(" p")
        .put_unsigned(details.startup_prepare_ms)
        .put(" a")
        .put_unsigned(details.startup_avdtp_ms)
        .put(")")
}

/// How many packets go out.
#[verifier::opaque]
pub open spec fn rtp_rate_text(rate: u32) -> Seq<char> {
    FixedView::blank().put_unsigned(rate as nat, 24).put(" packets/s"@, 24).text
}

fn rtp_rate_detail(rate: u32) -> (text: FixedText<24>)
    ensures
        text@.text == rtp_rate_text(rate),
{
    proof {
        reveal(rtp_rate_text);
    }
    FixedText::new().put_unsigned(rate).put(" packets/s")
}

/// Stable identity of a device's row, whatever its place in the table: a hash of its address, with
/// the top bit set.
pub open spec fn address_key(bytes: Seq<u8>) -> u32 {
    address_hash(bytes) | 0x8000_0000
}

pub open spec fn address_hash(bytes: Seq<u8>) -> u32
    decreases bytes.len(),
{
    if bytes.len() == 0 {
        0x811c_9dc5
    } else {
        (((address_hash(bytes.drop_last()) ^ (bytes.last() as u32)) * 0x0100_0193)
            % 0x1_0000_0000) as u32
    }
}

pub fn device_key(address: Address) -> (key: u32)
    ensures
        key == address_key(address@),
{
    let mut hash: u32 = 0x811c_9dc5;
    let mut i: usize = 0;
    while i < 6
        invariant
            i <= 6,
            hash == address_hash(address@.take(i as int)),
        decreases 6 - i,
    {
        let mixed = hash ^ (address.0[i] as u32);
        hash = ((mixed as u64 * 0x0100_0193) % 0x1_0000_0000) as u32;
        i += 1;
        assert(address@.take(i as int).drop_last() =~= address@.take(i - 1));
    }
    assert(address@.take(6) =~= address@);
    hash | 0x8000_0000
}

/// Keys of devices are apart from the keys of everything else on a page.
pub proof fn law_device_keys_have_the_top_bit(bytes: Seq<u8>)
    ensures
        address_key(bytes) >= 0x8000_0000,
{
    let hash = address_hash(bytes);
    assert(hash | 0x8000_0000 >= 0x8000_0000) by (bit_vector);
}

/// Keys are the FNV-1a hash of the address, with the top bit set: the hash begins at 2166136261,
/// and each byte is mixed into the low bits before the hash is multiplied by 16777619.
pub proof fn law_device_keys_are_hashes(bytes: Seq<u8>, byte: u8)
    ensures
        address_hash(Seq::empty()) == 2_166_136_261,
        address_hash(bytes.push(byte)) == ((address_hash(bytes) ^ (byte as u32)) * 16_777_619)
            % 4_294_967_296,
        address_key(bytes) == address_hash(bytes) || address_key(bytes) == address_hash(bytes)
            + 2_147_483_648,
{
    assert(bytes.push(byte).drop_last() =~= bytes);
    let hash = address_hash(bytes);
    assert(hash | 0x8000_0000 == hash || hash | 0x8000_0000 == hash + 0x8000_0000) by (bit_vector);
}

/// Multiplying keeps numbers apart, even in the low 31 bits, that are less than a byte apart.
proof fn lemma_hash_step_keeps_apart(x: int, y: int)
    requires
        x != y,
        -256 < x - y < 256,
    ensures
        ((x * 0x0100_0193) % 0x1_0000_0000) % 0x8000_0000 != ((y * 0x0100_0193) % 0x1_0000_0000)
            % 0x8000_0000,
{
    let distance = x - y;
    let p = x * 0x0100_0193;
    let q = y * 0x0100_0193;
    assert(p - q == distance * 0x0100_0193);
    if p % 0x1_0000_0000 % 0x8000_0000 == q % 0x1_0000_0000 % 0x8000_0000 {
        let turns = 2 * (p / 0x1_0000_0000) + (p % 0x1_0000_0000) / 0x8000_0000 - 2 * (q
            / 0x1_0000_0000) - (q % 0x1_0000_0000) / 0x8000_0000;
        assert(p - q == turns * 0x8000_0000);
        assert(-2 < turns < 2);
        assert(distance <= 127 || distance >= 128);
        assert(distance <= -128 || distance >= -127);
    }
}

/// Devices whose addresses differ in the last byte alone have different keys.
pub proof fn law_neighbouring_devices_have_different_keys(first: Seq<u8>, second: Seq<u8>)
    requires
        first.len() > 0,
        second.len() > 0,
        first.drop_last() == second.drop_last(),
        first.last() != second.last(),
    ensures
        address_key(first) != address_key(second),
{
    let before = address_hash(first.drop_last());
    let one = first.last() as u32;
    let other = second.last() as u32;
    let x = before ^ one;
    let y = before ^ other;
    assert(x / 256 == y / 256 && x != y) by (bit_vector)
        requires
            one < 256,
            other < 256,
            one != other,
            x == before ^ one,
            y == before ^ other,
    ;
    let p = address_hash(first);
    let q = address_hash(second);
    assert(p | 0x8000_0000 == q | 0x8000_0000 ==> p % 0x8000_0000 == q % 0x8000_0000)
        by (bit_vector);
    assert(p == (x * 0x0100_0193) % 0x1_0000_0000);
    assert(q == (y * 0x0100_0193) % 0x1_0000_0000);
    lemma_hash_step_keeps_apart(x as int, y as int);
}

pub open spec fn name_text(name: Seq<u8>) -> Seq<char> {
    if name.len() == 0 {
        "未知耳机"@
    } else {
        shown_name(name)
    }
}

fn display_name(name: &DeviceName) -> (text: &str)
    ensures
        text@ == name_text(name@),
{
    if name.is_empty() {
        "未知耳机"
    } else {
        name.as_str()
    }
}

/// Decoding speed in percent of real time.
pub open spec fn realtime_percent(details: LinkDetails) -> u32 {
    if details.audio_elapsed_ms == 0 {
        0
    } else {
        ((details.pcm_frames * 100_000 / (44_100 * details.audio_elapsed_ms))
            % 0x1_0000_0000) as u32
    }
}

pub open spec fn packets_per_second(details: LinkDetails) -> u32 {
    if details.audio_elapsed_ms == 0 {
        0
    } else {
        ((details.audio_rtp_packets * 1_000 / (details.audio_elapsed_ms as int))
            % 0x1_0000_0000) as u32
    }
}

fn decode_speed(details: &LinkDetails) -> (percent: u32)
    ensures
        percent == realtime_percent(*details),
{
    if details.audio_elapsed_ms == 0 {
        return 0;
    }
    let frames = details.pcm_frames as u64 * 100_000;
    let elapsed = 44_100 * (details.audio_elapsed_ms as u64);
    ((frames / elapsed) % 0x1_0000_0000) as u32
}

fn packet_rate(details: &LinkDetails) -> (rate: u32)
    ensures
        rate == packets_per_second(*details),
{
    if details.audio_elapsed_ms == 0 {
        return 0;
    }
    let packets = details.audio_rtp_packets as u64 * 1_000;
    ((packets / details.audio_elapsed_ms as u64) % 0x1_0000_0000) as u32
}

/// The row of the connected headset, which is there without one too.
pub open spec fn headset_row(model: ModelView) -> UiView {
    match model.connected {
        Some(peer) => UiView::ActionRow {
            key: 11,
            primary: name_text(peer.name@),
            secondary: connection_text(model.connection),
            event: EVENT_CONNECTED_DETAIL,
            enabled: true,
        },
        None => status(11, "Headset"@, connection_text(model.connection)),
    }
}

/// The row of a device that the scan found.
pub open spec fn device_row(model: ModelView, index: int) -> UiView {
    let device = model.devices.entries[index];
    UiView::ActionRow {
        key: address_key(device.address@),
        primary: name_text(device.name@),
        secondary: address_text(device.address@),
        event: (EVENT_DEVICE_BASE + index) as u32,
        enabled: model.connection != ConnectionState::Disconnecting,
    }
}

pub open spec fn device_rows(model: ModelView) -> Seq<UiView> {
    Seq::new(model.devices.entries.len(), |index: int| device_row(model, index))
}

/// The row, or nothing.
pub open spec fn shown_if(shown: bool, row: UiView) -> Seq<UiView> {
    if shown {
        seq![row]
    } else {
        Seq::empty()
    }
}

/// What is said of the connected headset and of the endpoint.
#[verifier::opaque]
pub open spec fn connected_section(model: ModelView) -> Seq<UiView> {
    seq![UiView::Section { key: 10, title: "已连接耳机"@ }, headset_row(model)] + shown_if(
        model.last_error != 0,
        UiView::Text { key: 12, text: number_text(model.last_error), style: TextStyle::Warning },
    ) + seq![status(14, "Audio endpoint"@, audio_endpoint_text(model.details))] + shown_if(
        model.selected is Some,
        UiView::Text {
            key: 13,
            text: pairing_text(model.details),
            style: TextStyle::Description,
        },
    ) + seq![UiView::End]
}

/// What is said of the scan.
#[verifier::opaque]
pub open spec fn scan_rows(scan: ScanState) -> Seq<UiView> {
    seq![
        UiView::Section { key: 20, title: "附近耳机"@ },
        button(
            21,
            if scan == ScanState::Scanning || scan == ScanState::Starting {
                "停止扫描"@
            } else {
                "开始扫描"@
            },
            EVENT_SCAN,
            true,
        ),
        status(22, "扫描"@, scan_text(scan)),
    ]
}

/// What stands below the devices.
#[verifier::opaque]
pub open spec fn result_rows(dropped: u32) -> Seq<UiView> {
    shown_if(
        dropped != 0,
        UiView::Text { key: 30, text: dropped_text(dropped), style: TextStyle::Description },
    ) + seq![button(31, "刷新结果"@, EVENT_REFRESH, true), UiView::End, UiView::End]
}

pub open spec fn overview_page(model: ModelView) -> Seq<UiView> {
    seq![UiView::NavigationPage { key: 1, title: "耳机"@ }] + connected_section(model) + scan_rows(
        model.scan,
    ) + device_rows(model) + result_rows(model.devices.dropped)
}

/// The page of the connected headset, the scan and what it found.
pub fn overview(model: &Model) -> (page: Page)
    requires
        model.wf(),
    ensures
        page@ == overview_page(model@),
{
    let mut page = Page::new();
    page.add(UiCommand::NavigationPage { key: 1, title: "耳机".to_owned() });
    assert(page@ =~= seq![UiView::NavigationPage { key: 1, title: "耳机"@ }]);
    add_connected_section(&mut page, model);
    add_scan_rows(&mut page, model.scan);
    add_device_rows(&mut page, model);
    add_result_rows(&mut page, model.devices.dropped());
    page
}

fn add_connected_section(page: &mut Page, model: &Model)
    ensures
        final(page)@ == old(page)@ + connected_section(model@),
{
    proof {
        reveal(connected_section);
    }
    let ghost above = page@;
    page.section(10, "已连接耳机");
    match model.connected {
        Some(peer) => page.action_row(
            11,
            display_name(&peer.name),
            connection_detail(model.connection),
            EVENT_CONNECTED_DETAIL,
            true,
        ),
        None => page.status_row(11, "Headset", connection_detail(model.connection)),
    }
    if model.last_error != 0 {
        let error = number_detail(model.last_error);
        page.text(12, error.as_str(), TextStyle::Warning);
    }
    let endpoint = audio_endpoint_detail(&model.details);
    page.status_row(14, "Audio endpoint", endpoint.as_str());
    if model.selected.is_some() {
        let diagnostic = pairing_detail(&model.details);
        page.text(13, diagnostic.as_str(), TextStyle::Description);
    }
    page.add(UiCommand::End);
    assert(page@ =~= above + connected_section(model@));
}

fn add_scan_rows(page: &mut Page, scan: ScanState)
    ensures
        final(page)@ == old(page)@ + scan_rows(scan),
{
    proof {
        reveal(scan_rows);
    }
    let ghost above = page@;
    page.section(20, "附近耳机");
    let label = if scan == ScanState::Scanning || scan == ScanState::Starting {
        "停止扫描"
    } else {
        "开始扫描"
    };
    page.button(21, label, EVENT_SCAN, true);
    page.status_row(22, "扫描", scan_detail(scan));
    assert(page@ =~= above + scan_rows(scan));
}

fn add_device_rows(page: &mut Page, model: &Model)
    requires
        model.wf(),
    ensures
        final(page)@ == old(page)@ + device_rows(model@),
{
    let ghost above = page@;
    let entries = model.devices.entries();
    let count = model.devices.len();
    let mut index: usize = 0;
    proof {
        model.devices.lemma_view_wf();
        assert(above + device_rows(model@).take(0) =~= above);
    }
    while index < count
        invariant
            index <= count <= 12,
            count == entries@.len(),
            entries@ == model@.devices.entries,
            page@ == above + device_rows(model@).take(index as int),
        decreases count - index,
    {
        let device = &entries[index];
        let address = device.address.text();
        page.action_row(
            device_key(device.address),
            display_name(&device.name),
            address.as_str(),
            EVENT_DEVICE_BASE + index as u32,
            model.connection != ConnectionState::Disconnecting,
        );
        index += 1;
        assert(page@ =~= above + device_rows(model@).take(index as int));
    }
    assert(device_rows(model@).take(count as int) =~= device_rows(model@));
}

fn add_result_rows(page: &mut Page, dropped: u32)
    ensures
        final(page)@ == old(page)@ + result_rows(dropped),
{
    proof {
        reveal(result_rows);
    }
    let ghost above = page@;
    if dropped != 0 {
        let text = dropped_detail(dropped);
        page.text(30, text.as_str(), TextStyle::Description);
    }
    page.button(31, "刷新结果", EVENT_REFRESH, true);
    page.add(UiCommand::End);
    page.add(UiCommand::End);
    assert(page@ =~= above + result_rows(dropped));
}

#[verifier::opaque]
pub open spec fn decoded_text(details: LinkDetails) -> Seq<char> {
    if details.decoded_sample_rate == 0 {
        FixedView::blank().put("Waiting for frame"@, 32).text
    } else {
        decoded_format_text(details)
    }
}

fn decoded_detail(details: &LinkDetails) -> (text: FixedText<32>)
    ensures
        text@.text == decoded_text(*details),
{
    proof {
        reveal(decoded_text);
    }
    if details.decoded_sample_rate == 0 {
        FixedText::new().put("Waiting for frame")
    } else {
        decoded_format_detail(details)
    }
}

/// What is said of the headset.
#[verifier::opaque]
pub open spec fn peer_rows(model: ModelView, peer: Peer) -> Seq<UiView> {
    seq![
        UiView::Section { key: 20, title: "耳机"@ },
        status(21, "名称"@, name_text(peer.name@)),
        status(22, "地址"@, address_text(peer.address@)),
        status(23, "信号"@, number_text(peer.rssi)),
        status(24, "类别"@, class_text(peer.class_of_device)),
        status(25, "连接"@, connection_text(model.connection)),
        status(26, "音频流"@, stream_text(model.stream)),
        UiView::End,
    ]
}

/// What is said of the audio.
#[verifier::opaque]
pub open spec fn audio_rows(details: LinkDetails) -> Seq<UiView> {
    seq![
        UiView::Section { key: 30, title: "音频"@ },
        status(31, "Link MTU"@, mtu_text(details)),
        status(32, "SBC bitpool"@, unsigned_text(details.bitpool as u32)),
        status(33, "Packets"@, unsigned_text(details.packets_sent)),
        status(37, "Pipeline"@, audio_stage_text(details.audio_stage)),
        status(38, "Input"@, input_text(details)),
        status(39, "MP3 decoded"@, decoded_text(details)),
        status(40, "PCM frames"@, unsigned_text(details.pcm_frames)),
        status(41, "MP3 RTP"@, unsigned_text(details.audio_rtp_packets)),
        status(49, "AVRCP"@, avrcp_text(details)),
        status(42, "Underruns"@, unsigned_text(details.underruns)),
        status(43, "Audio error"@, number_text(details.audio_error)),
        status(45, "Timing"@, timing_text(details)),
        status(46, "Decode rate"@, speed_text(realtime_percent(details))),
        status(47, "Startup"@, startup_text(details)),
        status(48, "RTP rate"@, rtp_rate_text(packets_per_second(details))),
    ]
}

/// The actions that are there for trying things out.
pub open spec fn trial_buttons(model: ModelView, production: bool) -> Seq<UiView> {
    let ready = model.connection == ConnectionState::Ready && model.stream == StreamState::Open;
    if production {
        Seq::empty()
    } else {
        seq![
            button(34, "Play test tone"@, EVENT_TEST_TONE, ready),
            button(35, "Play long MP3"@, EVENT_LONG_MP3, ready),
            button(44, "Decode long MP3 only"@, EVENT_LONG_MP3_DECODE_ONLY, ready),
        ]
    }
}

pub open spec fn detail_page(model: ModelView, production: bool) -> Seq<UiView> {
    let title = seq![UiView::NavigationPage { key: 1, title: "耳机详情"@ }];
    match model.connected {
        None => title + seq![
            UiView::Text { key: 10, text: "未连接耳机"@, style: TextStyle::Description },
            UiView::End,
        ],
        Some(peer) => title + peer_rows(model, peer) + audio_rows(model.details) + trial_buttons(
            model,
            production,
        ) + seq![
            button(
                36,
                "断开连接"@,
                EVENT_DISCONNECT,
                model.connection == ConnectionState::Ready,
            ),
            UiView::End,
            UiView::End,
        ],
    }
}

/// The page of the connected headset. In production it has no actions for trying things out.
pub fn detail(model: &Model, production: bool) -> (page: Page)
    ensures
        page@ == detail_page(model@, production),
{
    let mut page = Page::new();
    page.add(UiCommand::NavigationPage { key: 1, title: "耳机详情".to_owned() });
    assert(page@ =~= seq![UiView::NavigationPage { key: 1, title: "耳机详情"@ }]);
    let peer = match model.connected {
        Some(peer) => peer,
        None => {
            page.text(10, "未连接耳机", TextStyle::Description);
            page.add(UiCommand::End);
            assert(page@ =~= detail_page(model@, production));
            return page;
        },
    };
    add_peer_rows(&mut page, model, &peer);
    add_audio_rows(&mut page, &model.details);
    let ghost above = page@;
    if !production {
        let ready = model.connection == ConnectionState::Ready && model.stream
            == StreamState::Open;
        page.button(34, "Play test tone", EVENT_TEST_TONE, ready);
        page.button(35, "Play long MP3", EVENT_LONG_MP3, ready);
        page.button(44, "Decode long MP3 only", EVENT_LONG_MP3_DECODE_ONLY, ready);
    }
    assert(page@ =~= above + trial_buttons(model@, production));
    let ghost actions = page@;
    page.button(36, "断开连接", EVENT_DISCONNECT, model.connection == ConnectionState::Ready);
    page.add(UiCommand::End);
    page.add(UiCommand::End);
    assert(page@ =~= actions + seq![
        button(36, "断开连接"@, EVENT_DISCONNECT, model.connection == ConnectionState::Ready),
        UiView::End,
        UiView::End,
    ]);
    page
}

fn add_peer_rows(page: &mut Page, model: &Model, peer: &Peer)
    ensures
        final(page)@ == old(page)@ + peer_rows(model@, *peer),
{
    proof {
        reveal(peer_rows);
    }
    let ghost above = page@;
    page.section(20, "耳机");
    page.status_row(21, "名称", display_name(&peer.name));
    let address = peer.address.text();
    page.status_row(22, "地址", address.as_str());
    let rssi = number_detail(peer.rssi);
    page.status_row(23, "信号", rssi.as_str());
    let class = class_detail(peer.class_of_device);
    page.status_row(24, "类别", class.as_str());
    page.status_row(25, "连接", connection_detail(model.connection));
    page.status_row(26, "音频流", stream_detail(model.stream));
    page.add(UiCommand::End);
    assert(page@ =~= above + peer_rows(model@, *peer));
}

fn add_audio_rows(page: &mut Page, details: &LinkDetails)
    ensures
        final(page)@ == old(page)@ + audio_rows(*details),
{
    proof {
        reveal(audio_rows);
    }
    let ghost above = page@;
    page.section(30, "音频");
    let mtu = mtu_detail(details);
    page.status_row(31, "Link MTU", mtu.as_str());
    let bitpool = unsigned_detail(details.bitpool as u32);
    page.status_row(32, "SBC bitpool", bitpool.as_str());
    let packets = unsigned_detail(details.packets_sent);
    page.status_row(33, "Packets", packets.as_str());
    page.status_row(37, "Pipeline", audio_stage_detail(details.audio_stage));
    let input = input_detail(details);
    page.status_row(38, "Input", input.as_str());
    let decoded = decoded_detail(details);
    page.status_row(39, "MP3 decoded", decoded.as_str());
    let pcm_frames = unsigned_detail(details.pcm_frames);
    page.status_row(40, "PCM frames", pcm_frames.as_str());
    let audio_packets = unsigned_detail(details.audio_rtp_packets);
    page.status_row(41, "MP3 RTP", audio_packets.as_str());
    let avrcp = avrcp_detail(details);
    page.status_row(49, "AVRCP", avrcp.as_str());
    let underruns = unsigned_detail(details.underruns);
    page.status_row(42, "Underruns", underruns.as_str());
    let audio_error = number_detail(details.audio_error);
    page.status_row(43, "Audio error", audio_error.as_str());
    let timing = timing_detail(details);
    page.status_row(45, "Timing", timing.as_str());
    let speed = speed_detail(decode_speed(details));
    page.status_row(46, "Decode rate", speed.as_str());
    let startup = startup_detail(details);
    page.status_row(47, "Startup", startup.as_str());
    let rate = rtp_rate_detail(packet_rate(details));
    page.status_row(48, "RTP rate", rate.as_str());
    assert(page@ =~= above + audio_rows(*details));
}

/// What identifies a step of a page, whatever it shows: its kind and its key.
pub open spec fn identity(command: UiView) -> (int, u32) {
    match command {
        UiView::NavigationPage { key, .. } => (0, key),
        UiView::Section { key, .. } => (1, key),
        UiView::ActionRow { key, .. } => (2, key),
        UiView::StatusRow { key, .. } => (3, key),
        UiView::Text { key, .. } => (4, key),
        UiView::Button { key, .. } => (5, key),
        UiView::End => (6, 0),
    }
}

proof fn lemma_peer_rows(first: ModelView, second: ModelView, one: Peer, other: Peer)
    ensures
        peer_rows(first, one).len() == 8,
        peer_rows(second, other).len() == 8,
        forall|i: int|
            0 <= i < 8 ==> identity(#[trigger] peer_rows(first, one)[i]) == identity(
                peer_rows(second, other)[i],
            ) && peer_rows(first, one)[i] !is Button,
{
    reveal(peer_rows);
}

proof fn lemma_audio_rows(first: LinkDetails, second: LinkDetails)
    ensures
        audio_rows(first).len() == 16,
        audio_rows(second).len() == 16,
        forall|i: int|
            0 <= i < 16 ==> identity(#[trigger] audio_rows(first)[i]) == identity(
                audio_rows(second)[i],
            ) && audio_rows(first)[i] !is Button,
{
    reveal(audio_rows);
}

/// The steps of the detail page are the same whatever the diagnostics say, as long as a headset
/// stays connected or stays away: only what they show changes.
pub proof fn law_detail_topology_is_stable(first: ModelView, second: ModelView, production: bool)
    requires
        first.connected is Some == second.connected is Some,
    ensures
        detail_page(first, production).len() == detail_page(second, production).len(),
        forall|i: int|
            0 <= i < detail_page(first, production).len() ==> identity(
                #[trigger] detail_page(first, production)[i],
            ) == identity(detail_page(second, production)[i]),
{
    let before = detail_page(first, production);
    let after = detail_page(second, production);
    if first.connected is Some {
        let one = first.connected->Some_0;
        let other = second.connected->Some_0;
        lemma_peer_rows(first, second, one, other);
        lemma_audio_rows(first.details, second.details);
        let trials = trial_buttons(first, production).len();
        assert forall|i: int| 0 <= i < before.len() implies identity(#[trigger] before[i])
            == identity(after[i]) by {
            if 1 <= i < 9 {
                assert(before[i] == peer_rows(first, one)[i - 1]);
                assert(after[i] == peer_rows(second, other)[i - 1]);
            } else if 9 <= i < 25 {
                assert(before[i] == audio_rows(first.details)[i - 9]);
                assert(after[i] == audio_rows(second.details)[i - 9]);
            } else if 25 <= i < 25 + trials {
                assert(before[i] == trial_buttons(first, production)[i - 25]);
                assert(after[i] == trial_buttons(second, production)[i - 25]);
            }
        }
    }
}

/// In production the detail page has no action but the one that disconnects.
pub proof fn law_production_has_no_trials(model: ModelView, i: int)
    requires
        0 <= i < detail_page(model, true).len(),
    ensures
        detail_page(model, true)[i] matches UiView::Button { event, .. } ==> event
            == EVENT_DISCONNECT,
        model.connected is Some ==> detail_page(model, true).contains(
            button(36, "断开连接"@, EVENT_DISCONNECT, model.connection == ConnectionState::Ready),
        ),
{
    let page = detail_page(model, true);
    if model.connected is Some {
        let peer = model.connected->Some_0;
        lemma_peer_rows(model, model, peer, peer);
        lemma_audio_rows(model.details, model.details);
        assert(page[25] is Button);
        if 1 <= i < 9 {
            assert(page[i] == peer_rows(model, peer)[i - 1]);
        } else if 9 <= i < 25 {
            assert(page[i] == audio_rows(model.details)[i - 9]);
        }
    }
}

/// The overview has one row for each device of the table, in the table's order.
pub proof fn law_overview_shows_every_device(model: ModelView, index: int)
    requires
        0 <= index < model.devices.entries.len(),
    ensures
        overview_page(model).contains(device_row(model, index)),
{
    let page = overview_page(model);
    let above = 1 + connected_section(model).len() + scan_rows(model.scan).len();
    assert(page[above + index] == device_rows(model)[index]);
}

/// How many pages and sections a step opens; an `End` closes one.
pub open spec fn opens(command: UiView) -> int {
    match command {
        UiView::NavigationPage { .. } => 1,
        UiView::Section { .. } => 1,
        UiView::End => -1,
        _ => 0,
    }
}

/// How many pages and sections are open after the steps.
pub open spec fn open_count(page: Seq<UiView>) -> int
    decreases page.len(),
{
    if page.len() == 0 {
        0
    } else {
        open_count(page.drop_last()) + opens(page.last())
    }
}

proof fn lemma_open_count_concat(a: Seq<UiView>, b: Seq<UiView>)
    ensures
        open_count(a + b) == open_count(a) + open_count(b),
    decreases b.len(),
{
    if b.len() == 0 {
        assert(a + b =~= a);
    } else {
        lemma_open_count_concat(a, b.drop_last());
        assert((a + b).drop_last() =~= a + b.drop_last());
    }
}

/// Steps that open and close nothing.
proof fn lemma_open_count_flat(rows: Seq<UiView>)
    requires
        forall|i: int| 0 <= i < rows.len() ==> opens(#[trigger] rows[i]) == 0,
    ensures
        open_count(rows) == 0,
    decreases rows.len(),
{
    if rows.len() > 0 {
        assert forall|i: int| 0 <= i < rows.drop_last().len() implies opens(
            #[trigger] rows.drop_last()[i],
        ) == 0 by {
            assert(rows.drop_last()[i] == rows[i]);
        }
        lemma_open_count_flat(rows.drop_last());
    }
}

proof fn lemma_open_count_framed(first: UiView, rows: Seq<UiView>)
    requires
        forall|i: int| 0 <= i < rows.len() ==> opens(#[trigger] rows[i]) == 0,
    ensures
        open_count(seq![first] + rows) == opens(first),
{
    reveal_with_fuel(open_count, 2);
    lemma_open_count_concat(seq![first], rows);
    lemma_open_count_flat(rows);
    assert(seq![first].drop_last() =~= Seq::empty());
    assert(seq![first].last() == first);
}

/// Every page and section of the detail page is closed at its end.
pub proof fn law_detail_is_closed(model: ModelView, production: bool)
    ensures
        open_count(detail_page(model, production)) == 0,
{
    let title = UiView::NavigationPage { key: 1, title: "耳机详情"@ };
    let end = UiView::End;
    reveal_with_fuel(open_count, 4);
    match model.connected {
        None => {
            let body = seq![
                UiView::Text { key: 10, text: "未连接耳机"@, style: TextStyle::Description },
                end,
            ];
            lemma_open_count_concat(seq![title], body);
            assert(body.drop_last().drop_last() =~= Seq::empty());
            assert(seq![title].drop_last() =~= Seq::empty());
        },
        Some(peer) => {
            let peers = peer_rows(model, peer);
            let audio = audio_rows(model.details);
            let trials = trial_buttons(model, production);
            let foot = seq![
                button(
                    36,
                    "断开连接"@,
                    EVENT_DISCONNECT,
                    model.connection == ConnectionState::Ready,
                ),
                end,
                end,
            ];
            lemma_peer_rows_closed(model, peer);
            lemma_audio_rows_open(model.details);
            lemma_open_count_flat(trials);
            lemma_open_count_concat(seq![title] + peers + audio + trials, foot);
            lemma_open_count_concat(seq![title] + peers + audio, trials);
            lemma_open_count_concat(seq![title] + peers, audio);
            lemma_open_count_concat(seq![title], peers);
            assert(seq![title].drop_last() =~= Seq::empty());
            assert(foot.drop_last().drop_last().drop_last() =~= Seq::empty());
        },
    }
}

proof fn lemma_peer_rows_closed(model: ModelView, peer: Peer)
    ensures
        open_count(peer_rows(model, peer)) == 0,
{
    reveal(peer_rows);
    let rows = peer_rows(model, peer);
    let inner = rows.subrange(1, 7);
    lemma_open_count_framed(rows[0], inner);
    assert(rows.drop_last() =~= seq![rows[0]] + inner);
}

proof fn lemma_audio_rows_open(details: LinkDetails)
    ensures
        open_count(audio_rows(details)) == 1,
{
    reveal(audio_rows);
    let rows = audio_rows(details);
    let inner = rows.skip(1);
    lemma_open_count_framed(rows[0], inner);
    assert(rows =~= seq![rows[0]] + inner);
}

/// Every page and section of the overview is closed at its end.
pub proof fn law_overview_is_closed(model: ModelView)
    ensures
        open_count(overview_page(model)) == 0,
{
    let title = UiView::NavigationPage { key: 1, title: "耳机"@ };
    let connected = connected_section(model);
    let scan = scan_rows(model.scan);
    let devices = device_rows(model);
    let results = result_rows(model.devices.dropped);
    lemma_open_count_concat(seq![title] + connected + scan + devices, results);
    lemma_open_count_concat(seq![title] + connected + scan, devices);
    lemma_open_count_concat(seq![title] + connected, scan);
    lemma_open_count_concat(seq![title], connected);
    lemma_open_count_framed(title, Seq::empty());
    assert(seq![title] + Seq::empty() =~= seq![title]);
    lemma_open_count_flat(devices);
    assert(open_count(connected) == 0) by {
        reveal(connected_section);
        let inner = connected.subrange(1, connected.len() - 1);
        lemma_open_count_framed(connected[0], inner);
        assert(connected.drop_last() =~= seq![connected[0]] + inner);
    }
    assert(open_count(scan) == 1) by {
        reveal(scan_rows);
        lemma_open_count_framed(scan[0], scan.skip(1));
        assert(scan =~= seq![scan[0]] + scan.skip(1));
    }
    assert(open_count(results) == -2) by {
        reveal(result_rows);
        reveal_with_fuel(open_count, 3);
        let inner = results.subrange(0, results.len() - 2);
        lemma_open_count_flat(inner);
        assert(results.drop_last().drop_last() =~= inner);
    }
}

} // verus!
