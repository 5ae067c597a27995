//! What the two pages show, row by row.

use vstd::prelude::*;

use crate::address::address_text;
use crate::model::{ConnectionState, LinkDetails, ModelView, Peer, ScanState, StreamState};
use crate::ui::{
    address_key, audio_endpoint_text, audio_rows, audio_stage_text, audio_state_text,
    avrcp_state_text, avrcp_text, class_text, connected_section, connection_text, decoded_text,
    detail_page, device_rows, dropped_text, input_text, mtu_text, name_text, number_text,
    overview_page, packets_per_second, pairing_text, peer_rows, realtime_percent, result_rows,
    rtp_rate_text, scan_rows, scan_text, speed_text, startup_text, stream_text, timing_text,
    unsigned_text, TextStyle, UiView,
};

verus! {

/// The overview, from top to bottom: the headset, which is a row to press once one is connected; the
/// last error and the milestones of pairing, if there are any; the endpoint; and the scan with the
/// button that starts or stops it.
pub proof fn law_the_head_of_the_overview(model: ModelView)
    ensures
        ({
            let page = overview_page(model);
            let wrong = if model.last_error != 0 {
                1int
            } else {
                0
            };
            let chosen = if model.selected is Some {
                1int
            } else {
                0
            };
            let scan = 5 + wrong + chosen;
            let on = model.scan == ScanState::Scanning || model.scan == ScanState::Starting;
            &&& page.len() >= scan + 3
            &&& page[0] == (UiView::NavigationPage { key: 1, title: "耳机"@ })
            &&& page[1] == (UiView::Section { key: 10, title: "已连接耳机"@ })
            &&& model.connected is None ==> page[2] == (UiView::StatusRow {
                key: 11,
                primary: "Headset"@,
                secondary: connection_text(model.connection),
            })
            &&& model.connected matches Some(peer) ==> page[2] == (UiView::ActionRow {
                key: 11,
                primary: name_text(peer.name@),
                secondary: connection_text(model.connection),
                event: 1,
                enabled: true,
            })
            &&& model.last_error != 0 ==> page[3] == (UiView::Text {
                key: 12,
                text: number_text(model.last_error),
                style: TextStyle::Warning,
            })
            &&& page[3 + wrong] == (UiView::StatusRow {
                key: 14,
                primary: "Audio endpoint"@,
                secondary: audio_endpoint_text(model.details),
            })
            &&& model.selected is Some ==> page[4 + wrong] == (UiView::Text {
                key: 13,
                text: pairing_text(model.details),
                style: TextStyle::Description,
            })
            &&& page[4 + wrong + chosen] == UiView::End
            &&& page[scan] == (UiView::Section { key: 20, title: "附近耳机"@ })
            &&& on ==> page[scan + 1] == (UiView::Button {
                key: 21,
                label: "停止扫描"@,
                event: 2,
                enabled: true,
            })
            &&& !on ==> page[scan + 1] == (UiView::Button {
                key: 21,
                label: "开始扫描"@,
                event: 2,
                enabled: true,
            })
            &&& page[scan + 2] == (UiView::StatusRow {
                key: 22,
                primary: "扫描"@,
                secondary: scan_text(model.scan),
            })
        }),
{
    reveal(connected_section);
    reveal(scan_rows);
    reveal(result_rows);
    let page = overview_page(model);
    let connected = connected_section(model);
    let scan = scan_rows(model.scan);
    assert(forall|i: int| 0 <= i < connected.len() ==> page[1 + i] == #[trigger] connected[i]);
    assert(forall|i: int|
        0 <= i < scan.len() ==> page[1 + connected.len() + i] == #[trigger] scan[i]);
    assert(page[1] == connected[0]);
    assert(page[2] == connected[1]);
    assert(page[3] == connected[2]);
    assert(page[4] == connected[3]);
}

/// The devices of the overview: one row for each, in the order of the table and with nothing between
/// them. A row tells the name and the address, and reports its place in the table when pressed, from
/// 100 on; it can be pressed unless a headset is being disconnected.
pub proof fn law_the_devices_of_the_overview(model: ModelView, index: int) -> (first: int)
    requires
        0 <= index < model.devices.entries.len() <= 12,
    ensures
        ({
            let page = overview_page(model);
            let device = model.devices.entries[index];
            &&& first == 8 + (if model.last_error != 0 {
                1int
            } else {
                0
            }) + (if model.selected is Some {
                1int
            } else {
                0
            })
            &&& first + model.devices.entries.len() < page.len()
            &&& page[first + index] == (UiView::ActionRow {
                key: address_key(device.address@),
                primary: name_text(device.name@),
                secondary: address_text(device.address@),
                event: (100 + index) as u32,
                enabled: model.connection != ConnectionState::Disconnecting,
            })
        }),
{
    reveal(connected_section);
    reveal(scan_rows);
    reveal(result_rows);
    let page = overview_page(model);
    let first = 1 + connected_section(model).len() + scan_rows(model.scan).len();
    assert(page[first + index] == device_rows(model)[index]);
    first as int
}

/// The foot of the overview: how many results found no room, if any did not, and the button that
/// shows the results afresh.
pub proof fn law_the_foot_of_the_overview(model: ModelView)
    ensures
        ({
            let page = overview_page(model);
            let end = page.len();
            &&& end >= 3
            &&& page[end - 1] == UiView::End
            &&& page[end - 2] == UiView::End
            &&& page[end - 3] == (UiView::Button {
                key: 31,
                label: "刷新结果"@,
                event: 3,
                enabled: true,
            })
            &&& model.devices.dropped != 0 ==> end >= 4 && page[end - 4] == (UiView::Text {
                key: 30,
                text: dropped_text(model.devices.dropped),
                style: TextStyle::Description,
            })
            &&& end == 8 + (if model.last_error != 0 {
                1int
            } else {
                0
            }) + (if model.selected is Some {
                1int
            } else {
                0
            }) + model.devices.entries.len() + (if model.devices.dropped != 0 {
                4int
            } else {
                3
            })
        }),
{
    reveal(connected_section);
    reveal(scan_rows);
    reveal(result_rows);
    let page = overview_page(model);
    let rows = result_rows(model.devices.dropped);
    let above = page.len() - rows.len();
    assert(forall|i: int| 0 <= i < rows.len() ==> page[above + i] == #[trigger] rows[i]);
    assert(page[page.len() - 1] == rows[rows.len() - 1]);
    assert(page[page.len() - 2] == rows[rows.len() - 2]);
    assert(page[page.len() - 3] == rows[rows.len() - 3]);
    if model.devices.dropped != 0 {
        assert(page[page.len() - 4] == rows[0]);
    }
}

/// The detail page without a headset says so.
pub proof fn law_the_detail_page_without_a_headset(model: ModelView, production: bool)
    requires
        model.connected is None,
    ensures
        detail_page(model, production) == seq![
            UiView::NavigationPage { key: 1, title: "耳机详情"@ },
            UiView::Text { key: 10, text: "未连接耳机"@, style: TextStyle::Description },
            UiView::End,
        ],
{
    assert(detail_page(model, production) =~= seq![
        UiView::NavigationPage { key: 1, title: "耳机详情"@ },
        UiView::Text { key: 10, text: "未连接耳机"@, style: TextStyle::Description },
        UiView::End,
    ]);
}

/// The detail page of a headset, row by row: each row shows the one value that its title names.
pub proof fn law_the_rows_of_the_detail_page(model: ModelView, peer: Peer, production: bool)
    requires
        model.connected == Some(peer),
    ensures
        ({
            let page = detail_page(model, production);
            let details = model.details;
            &&& page.len() >= 25
            &&& page[0] == (UiView::NavigationPage { key: 1, title: "耳机详情"@ })
            &&& page[1] == (UiView::Section { key: 20, title: "耳机"@ })
            &&& page[2] == (UiView::StatusRow {
                key: 21,
                primary: "名称"@,
                secondary: name_text(peer.name@),
            })
            &&& page[3] == (UiView::StatusRow {
                key: 22,
                primary: "地址"@,
                secondary: address_text(peer.address@),
            })
            &&& page[4] == (UiView::StatusRow {
                key: 23,
                primary: "信号"@,
                secondary: number_text(peer.rssi),
            })
            &&& page[5] == (UiView::StatusRow {
                key: 24,
                primary: "类别"@,
                secondary: class_text(peer.class_of_device),
            })
            &&& page[6] == (UiView::StatusRow {
                key: 25,
                primary: "连接"@,
                secondary: connection_text(model.connection),
            })
            &&& page[7] == (UiView::StatusRow {
                key: 26,
                primary: "音频流"@,
                secondary: stream_text(model.stream),
            })
            &&& page[8] == UiView::End
            &&& page[9] == (UiView::Section { key: 30, title: "音频"@ })
            &&& page[10] == (UiView::StatusRow {
                key: 31,
                primary: "Link MTU"@,
                secondary: mtu_text(details),
            })
            &&& page[11] == (UiView::StatusRow {
                key: 32,
                primary: "SBC bitpool"@,
                secondary: unsigned_text(details.bitpool as u32),
            })
            &&& page[12] == (UiView::StatusRow {
                key: 33,
                primary: "Packets"@,
                secondary: unsigned_text(details.packets_sent),
            })
            &&& page[13] == (UiView::StatusRow {
                key: 37,
                primary: "Pipeline"@,
                secondary: audio_stage_text(details.audio_stage),
            })
            &&& page[14] == (UiView::StatusRow {
                key: 38,
                primary: "Input"@,
                secondary: input_text(details),
            })
            &&& page[15] == (UiView::StatusRow {
                key: 39,
                primary: "MP3 decoded"@,
                secondary: decoded_text(details),
            })
            &&& page[16] == (UiView::StatusRow {
                key: 40,
                primary: "PCM frames"@,
                secondary: unsigned_text(details.pcm_frames),
            })
            &&& page[17] == (UiView::StatusRow {
                key: 41,
                primary: "MP3 RTP"@,
                secondary: unsigned_text(details.audio_rtp_packets),
            })
            &&& page[18] == (UiView::StatusRow {
                key: 49,
                primary: "AVRCP"@,
                secondary: avrcp_text(details),
            })
            &&& page[19] == (UiView::StatusRow {
                key: 42,
                primary: "Underruns"@,
                secondary: unsigned_text(details.underruns),
            })
            &&& page[20] == (UiView::StatusRow {
                key: 43,
                primary: "Audio error"@,
                secondary: number_text(details.audio_error),
            })
            &&& page[21] == (UiView::StatusRow {
                key: 45,
                primary: "Timing"@,
                secondary: timing_text(details),
            })
            &&& page[22] == (UiView::StatusRow {
                key: 46,
                primary: "Decode rate"@,
                secondary: speed_text(realtime_percent(details)),
            })
            &&& page[23] == (UiView::StatusRow {
                key: 47,
                primary: "Startup"@,
                secondary: startup_text(details),
            })
            &&& page[24] == (UiView::StatusRow {
                key: 48,
                primary: "RTP rate"@,
                secondary: rtp_rate_text(packets_per_second(details)),
            })
        }),
{
    reveal(peer_rows);
    reveal(audio_rows);
    let page = detail_page(model, production);
    let peers = peer_rows(model, peer);
    let audio = audio_rows(model.details);
    assert(peers.len() == 8 && audio.len() == 16);
    assert(forall|i: int| 0 <= i < 8 ==> page[1 + i] == #[trigger] peers[i]);
    assert(forall|i: int| 0 <= i < 16 ==> page[9 + i] == #[trigger] audio[i]);
    assert(page[1] == peers[0] && page[2] == peers[1] && page[3] == peers[2]);
    assert(page[4] == peers[3] && page[5] == peers[4] && page[6] == peers[5]);
    assert(page[7] == peers[6] && page[8] == peers[7]);
    assert(page[9] == audio[0] && page[10] == audio[1] && page[11] == audio[2] && page[12]
        == audio[3]);
    assert(page[13] == audio[4] && page[14] == audio[5] && page[15] == audio[6] && page[16]
        == audio[7]);
    assert(page[17] == audio[8] && page[18] == audio[9] && page[19] == audio[10] && page[20]
        == audio[11]);
    assert(page[21] == audio[12] && page[22] == audio[13] && page[23] == audio[14] && page[24]
        == audio[15]);
}

/// The actions of the detail page: a headset can be disconnected once it is ready. What is there for
/// trying things out is there outside production only, and works once the stream is open too.
pub proof fn law_the_actions_of_the_detail_page(model: ModelView, peer: Peer, production: bool)
    requires
        model.connected == Some(peer),
    ensures
        ({
            let page = detail_page(model, production);
            let ready = model.connection == ConnectionState::Ready;
            let trials = if production {
                0int
            } else {
                3
            };
            &&& page.len() == 28 + trials
            &&& !production ==> {
                &&& page[25] == (UiView::Button {
                    key: 34,
                    label: "Play test tone"@,
                    event: 6,
                    enabled: ready && model.stream == StreamState::Open,
                })
                &&& page[26] == (UiView::Button {
                    key: 35,
                    label: "Play long MP3"@,
                    event: 7,
                    enabled: ready && model.stream == StreamState::Open,
                })
                &&& page[27] == (UiView::Button {
                    key: 44,
                    label: "Decode long MP3 only"@,
                    event: 8,
                    enabled: ready && model.stream == StreamState::Open,
                })
            }
            &&& page[25 + trials] == (UiView::Button {
                key: 36,
                label: "断开连接"@,
                event: 5,
                enabled: ready,
            })
            &&& page[26 + trials] == UiView::End
            &&& page[27 + trials] == UiView::End
        }),
{
    reveal(peer_rows);
    reveal(audio_rows);
}

/// Decoding speed is a whole percentage, rounded down, of the 44100 samples that one second of
/// playing takes; like every number of its width it starts over after 4294967295. It is zero before
/// any time has passed.
pub proof fn law_decoding_speed(details: LinkDetails, percent: int)
    requires
        details.audio_elapsed_ms > 0 ==> percent * (44_100 * details.audio_elapsed_ms)
            <= details.pcm_frames * 100_000 < (percent + 1) * (44_100 * details.audio_elapsed_ms),
    ensures
        details.audio_elapsed_ms == 0 ==> realtime_percent(details) == 0,
        details.audio_elapsed_ms > 0 ==> realtime_percent(details) == percent % 0x1_0000_0000,
{
    if details.audio_elapsed_ms > 0 {
        lemma_quotient(
            details.pcm_frames * 100_000,
            44_100 * details.audio_elapsed_ms,
            percent,
        );
    }
}

/// The rate of packets is a whole number for each second, rounded down; it starts over after
/// 4294967295, and is zero before any time has passed.
pub proof fn law_packet_rate(details: LinkDetails, rate: int)
    requires
        details.audio_elapsed_ms > 0 ==> rate * details.audio_elapsed_ms
            <= details.audio_rtp_packets * 1_000 < (rate + 1) * details.audio_elapsed_ms,
    ensures
        details.audio_elapsed_ms == 0 ==> packets_per_second(details) == 0,
        details.audio_elapsed_ms > 0 ==> packets_per_second(details) == rate % 0x1_0000_0000,
{
    if details.audio_elapsed_ms > 0 {
        lemma_quotient(
            details.audio_rtp_packets * 1_000,
            details.audio_elapsed_ms as int,
            rate,
        );
    }
}

proof fn lemma_quotient(a: int, b: int, quotient: int)
    requires
        b > 0,
        quotient * b <= a < (quotient + 1) * b,
    ensures
        a / b == quotient,
{
    assert(a / b == quotient) by (nonlinear_arith)
        requires
            b > 0,
            quotient * b <= a < (quotient + 1) * b,
    ;
}

/// What the states are called.
pub proof fn law_what_states_are_called()
    ensures
        scan_text(ScanState::Idle) == "空闲"@,
        scan_text(ScanState::Starting) == "正在启动…"@,
        scan_text(ScanState::Scanning) == "正在扫描…"@,
        scan_text(ScanState::Stopping) == "正在停止…"@,
        scan_text(ScanState::Failed) == "扫描失败"@,
        connection_text(ConnectionState::Disconnected) == "Not connected"@,
        connection_text(ConnectionState::WaitingForScanStop) == "准备中…"@,
        connection_text(ConnectionState::CheckingBond) == "检查配对中…"@,
        connection_text(ConnectionState::RemovingBond) == "清除配对中…"@,
        connection_text(ConnectionState::Pairing) == "配对中…"@,
        connection_text(ConnectionState::Connecting) == "连接中…"@,
        connection_text(ConnectionState::Configuring) == "音频设置中…"@,
        connection_text(ConnectionState::Ready) == "已连接"@,
        connection_text(ConnectionState::Disconnecting) == "正在断开连接…"@,
        connection_text(ConnectionState::Failed) == "失败"@,
        stream_text(StreamState::Idle) == "空闲"@,
        stream_text(StreamState::Discovering) == "正在发现"@,
        stream_text(StreamState::ReadingCapabilities) == "正在读取能力"@,
        stream_text(StreamState::Configuring) == "配置中"@,
        stream_text(StreamState::Opening) == "打开中"@,
        stream_text(StreamState::Open) == "就绪"@,
        stream_text(StreamState::Starting) == "启动中"@,
        stream_text(StreamState::Streaming) == "正在播放音频"@,
        stream_text(StreamState::Suspending) == "停止中"@,
        stream_text(StreamState::Failed) == "失败"@,
{
}

/// What the numbers of the diagnostics stand for.
pub proof fn law_what_numbers_stand_for(state: u8)
    ensures
        avrcp_state_text(0) == "Idle"@,
        avrcp_state_text(1) == "Connecting PSM 23"@,
        avrcp_state_text(2) == "Connected"@,
        avrcp_state_text(3) == "Disconnecting"@,
        avrcp_state_text(4) == "Failed"@,
        state > 4 ==> avrcp_state_text(state) == "Unknown"@,
        audio_state_text(0) == "Closed"@,
        audio_state_text(1) == "Idle"@,
        audio_state_text(2) == "Configured"@,
        audio_state_text(3) == "Buffering"@,
        audio_state_text(4) == "Playing"@,
        audio_state_text(5) == "Paused"@,
        audio_state_text(6) == "Draining"@,
        audio_state_text(7) == "Stopped"@,
        audio_state_text(8) == "Error"@,
        state > 8 ==> audio_state_text(state) == "Unknown"@,
        audio_stage_text(0) == "Idle"@,
        audio_stage_text(1) == "Queued"@,
        audio_stage_text(2) == "Prebuffering"@,
        audio_stage_text(3) == "AVDTP START"@,
        audio_stage_text(4) == "MP3 decode"@,
        audio_stage_text(5) == "PCM ready"@,
        audio_stage_text(6) == "SBC encode"@,
        audio_stage_text(7) == "RTP sent"@,
        audio_stage_text(8) == "Draining"@,
        audio_stage_text(9) == "Complete"@,
        audio_stage_text(10) == "Failed"@,
        audio_stage_text(11) == "Decode only"@,
        state > 11 ==> audio_stage_text(state) == "Unknown"@,
{
}

/// A headset is shown by its name, and by a word of its own if it has none.
pub proof fn law_headsets_are_shown_by_name(name: Seq<u8>)
    ensures
        name.len() > 0 ==> name_text(name) == crate::discovery::shown_name(name),
        name.len() == 0 ==> name_text(name) == "未知耳机"@,
{
}

} // verus!
