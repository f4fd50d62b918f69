//! Resolving a Bilibili link to the URL of its stream: the replies of the
//! Bilibili API that the resolution reads, the choices made on them, and the
//! order of the requests.
use vstd::prelude::*;
use crate::bilibili::{plan_of, plan_resolution, PlanView, ResolvePlan};
use crate::mirror_cdn::{
    china_mirrors, host_or_empty, lemma_other_hosts_go_to_mirror, mcdn_domain, mcdn_ip_port,
    mirror_host, overseas_host, proxy_tf_host, upgrade_cdn_hostname_logged, upgrade_log,
    upgrade_with, with_host,
};
use crate::weburl::spec_parse_url;
use crate::text::{decimal_repr, push_decimal, string_option, string_result};

verus! {

/// One page of a video, as the page list of the API gives it.
pub struct PageItem {
    pub cid: u64,
}

/// One stream URL of a video, as the play-URL reply gives it.
pub struct DurlItem {
    pub url: String,
}

/// The `data` of the play-URL reply.
pub struct PlayUrlData {
    pub durl: Vec<DurlItem>,
}

pub struct LiveUrlInfo {
    pub host: String,
    pub extra: String,
}

pub struct LiveCodecInfo {
    pub base_url: String,
    pub url_info: Option<Vec<LiveUrlInfo>>,
}

pub struct LiveFormat {
    pub codec: Option<Vec<LiveCodecInfo>>,
}

pub struct LiveStream {
    pub format: Option<Vec<LiveFormat>>,
}

pub struct LivePlayUrl {
    pub stream: Option<Vec<LiveStream>>,
}

pub struct LivePlayUrlInfo {
    pub playurl: LivePlayUrl,
}

pub struct LiveRoomData {
    pub playurl_info: Option<LivePlayUrlInfo>,
}

/// The reply of the live-room play-info request.
pub struct LiveRoomResponse {
    pub data: Option<LiveRoomData>,
}

/// The page id of page `page` (counted from 1; 0 counts as 1).
pub open spec fn page_cid_of(pages: Seq<PageItem>, page: usize) -> Result<u64, Seq<char>> {
    let index = if page >= 1 {
        page - 1
    } else {
        0
    };
    if index < pages.len() {
        Ok(pages[index].cid)
    } else {
        Err("Page "@ + decimal_repr(page as nat) + " not found"@)
    }
}

pub fn select_page_cid(pages: &Vec<PageItem>, page: usize) -> (r: Result<u64, String>)
    ensures
        match page_cid_of(pages@, page) {
            Ok(cid) => r == Ok::<u64, String>(cid),
            Err(m) => r matches Err(e) && e@ == m,
        },
{
    let index = page.saturating_sub(1);
    if index < pages.len() {
        Ok(pages[index].cid)
    } else {
        let mut msg = "Page ".to_string();
        push_decimal(&mut msg, page as u128);
        msg.append(" not found");
        Err(msg)
    }
}

/// The stream URL of a video: the first that the reply lists.
pub open spec fn video_url_of(data: PlayUrlData) -> Result<Seq<char>, Seq<char>> {
    if data.durl@.len() > 0 {
        Ok(data.durl@[0].url@)
    } else {
        Err("Cannot get video URL from response"@)
    }
}

pub fn select_video_url(data: &PlayUrlData) -> (r: Result<String, String>)
    ensures
        string_result(r) == video_url_of(*data),
{
    if data.durl.len() > 0 {
        Ok(data.durl[0].url.clone())
    } else {
        Err("Cannot get video URL from response".to_string())
    }
}

/// The URL that format `format_index` of stream `stream_index` offers: its
/// first codec's base URL behind the first URL host, followed by the extra
/// query, where all of these are present.
pub open spec fn live_candidate(streams: Seq<LiveStream>, stream_index: int, format_index: int) -> Option<Seq<char>> {
    if 0 <= stream_index < streams.len() {
        match streams[stream_index].format {
            Some(formats) => if 0 <= format_index < formats@.len() {
                match formats@[format_index].codec {
                    Some(codecs) => if codecs@.len() > 0 {
                        match codecs@[0].url_info {
                            Some(infos) => if infos@.len() > 0 {
                                Some(infos@[0].host@ + codecs@[0].base_url@ + infos@[0].extra@)
                            } else {
                                None
                            },
                            None => None,
                        }
                    } else {
                        None
                    },
                    None => None,
                }
            } else {
                None
            },
            None => None,
        }
    } else {
        None
    }
}

/// The live stream URL in a reply: streams are tried in the order 1 (HLS)
/// then 0 (FLV), and within each the formats 1 (HEVC) then 0 (standard).
pub open spec fn live_url_of(resp: LiveRoomResponse) -> Result<Seq<char>, Seq<char>> {
    match resp.data {
        Some(data) => match data.playurl_info {
            Some(info) => {
                let streams = match info.playurl.stream {
                    Some(s) => s@,
                    None => Seq::<LiveStream>::empty(),
                };
                if live_candidate(streams, 1, 1) is Some {
                    Ok(live_candidate(streams, 1, 1)->0)
                } else if live_candidate(streams, 1, 0) is Some {
                    Ok(live_candidate(streams, 1, 0)->0)
                } else if live_candidate(streams, 0, 1) is Some {
                    Ok(live_candidate(streams, 0, 1)->0)
                } else if live_candidate(streams, 0, 0) is Some {
                    Ok(live_candidate(streams, 0, 0)->0)
                } else {
                    Err("Cannot get live stream URL from response"@)
                }
            },
            None => Err("Cannot get live playurl info"@),
        },
        None => Err("Cannot get live playurl info"@),
    }
}

/// The streams of a live-room reply that holds its play info (a reply that
/// lists none has none); nothing where the play info is missing.
pub open spec fn live_streams(resp: LiveRoomResponse) -> Option<Seq<LiveStream>> {
    match resp.data {
        Some(data) => match data.playurl_info {
            Some(info) => Some(
                match info.playurl.stream {
                    Some(s) => s@,
                    None => Seq::<LiveStream>::empty(),
                },
            ),
            None => None,
        },
        None => None,
    }
}

/// What format `f` of stream `s` offers, where it offers anything: the first
/// URL host of the format's first codec, that codec's base URL, then the
/// host's extra query.
pub open spec fn offer_at(streams: Seq<LiveStream>, s: int, f: int) -> Option<Seq<char>> {
    if 0 <= s < streams.len() && streams[s].format is Some && 0 <= f < streams[s].format->0@.len()
        && streams[s].format->0@[f].codec is Some && streams[s].format->0@[f].codec->0@.len() > 0 {
        let codec = streams[s].format->0@[f].codec->0@[0];
        if codec.url_info is Some && codec.url_info->0@.len() > 0 {
            let info = codec.url_info->0@[0];
            Some(info.host@ + codec.base_url@ + info.extra@)
        } else {
            None
        }
    } else {
        None
    }
}

proof fn lemma_offer_is_candidate(streams: Seq<LiveStream>, s: int, f: int)
    ensures
        offer_at(streams, s, f) == live_candidate(streams, s, f),
{
}

/// The order in which a live-room reply is read: HLS (stream 1) before FLV
/// (stream 0), and within each stream HEVC (format 1) before the standard
/// format (format 0). The first offer in that order is the answer, whatever
/// the later ones hold; with no offer at all, or no play info, the reply is
/// refused.
pub proof fn lemma_live_url_preference(resp: LiveRoomResponse)
    ensures
        live_streams(resp) is None ==> live_url_of(resp) == Err::<Seq<char>, Seq<char>>(
            "Cannot get live playurl info"@,
        ),
        (match live_streams(resp) {
            None => true,
            Some(streams) => {
                &&& offer_at(streams, 1, 1) is Some ==> live_url_of(resp) == Ok::<
                    Seq<char>,
                    Seq<char>,
                >(offer_at(streams, 1, 1)->0)
                &&& offer_at(streams, 1, 1) is None && offer_at(streams, 1, 0) is Some
                    ==> live_url_of(resp) == Ok::<Seq<char>, Seq<char>>(
                    offer_at(streams, 1, 0)->0,
                )
                &&& offer_at(streams, 1, 1) is None && offer_at(streams, 1, 0) is None && offer_at(
                    streams,
                    0,
                    1,
                ) is Some ==> live_url_of(resp) == Ok::<Seq<char>, Seq<char>>(
                    offer_at(streams, 0, 1)->0,
                )
                &&& offer_at(streams, 1, 1) is None && offer_at(streams, 1, 0) is None && offer_at(
                    streams,
                    0,
                    1,
                ) is None && offer_at(streams, 0, 0) is Some ==> live_url_of(resp) == Ok::<
                    Seq<char>,
                    Seq<char>,
                >(offer_at(streams, 0, 0)->0)
                &&& offer_at(streams, 1, 1) is None && offer_at(streams, 1, 0) is None && offer_at(
                    streams,
                    0,
                    1,
                ) is None && offer_at(streams, 0, 0) is None ==> live_url_of(resp) == Err::<
                    Seq<char>,
                    Seq<char>,
                >("Cannot get live stream URL from response"@)
            },
        }),
{
    match live_streams(resp) {
        None => {},
        Some(streams) => {
            lemma_offer_is_candidate(streams, 1, 1);
            lemma_offer_is_candidate(streams, 1, 0);
            lemma_offer_is_candidate(streams, 0, 1);
            lemma_offer_is_candidate(streams, 0, 0);
        },
    }
}

fn candidate_url(streams: &Vec<LiveStream>, stream_index: usize, format_index: usize) -> (r: Option<
    String,
>)
    ensures
        string_option(r) == live_candidate(streams@, stream_index as int, format_index as int),
{
    if stream_index >= streams.len() {
        return None;
    }
    let formats = match &streams[stream_index].format {
        Some(f) => f,
        None => return None,
    };
    if format_index >= formats.len() {
        return None;
    }
    let codecs = match &formats[format_index].codec {
        Some(c) => c,
        None => return None,
    };
    if codecs.len() == 0 {
        return None;
    }
    let codec = &codecs[0];
    let infos = match &codec.url_info {
        Some(u) => u,
        None => return None,
    };
    if infos.len() == 0 {
        return None;
    }
    let info = &infos[0];
    let mut url = info.host.clone();
    url.append(codec.base_url.as_str());
    url.append(info.extra.as_str());
    Some(url)
}

pub fn select_live_url(resp: &LiveRoomResponse) -> (r: Result<String, String>)
    ensures
        string_result(r) == live_url_of(*resp),
{
    let info = match &resp.data {
        Some(data) => match &data.playurl_info {
            Some(info) => info,
            None => return Err("Cannot get live playurl info".to_string()),
        },
        None => return Err("Cannot get live playurl info".to_string()),
    };
    let empty: Vec<LiveStream> = Vec::new();
    let streams = match &info.playurl.stream {
        Some(s) => s,
        None => &empty,
    };
    if let Some(u) = candidate_url(streams, 1, 1) {
        return Ok(u);
    }
    if let Some(u) = candidate_url(streams, 1, 0) {
        return Ok(u);
    }
    if let Some(u) = candidate_url(streams, 0, 1) {
        return Ok(u);
    }
    if let Some(u) = candidate_url(streams, 0, 0) {
        return Ok(u);
    }
    Err("Cannot get live stream URL from response".to_string())
}

/// A GET request to the Bilibili API: its URL, its query parameters in
/// order, and the `Referer` it is sent with.
pub struct ApiRequest {
    pub url: String,
    pub params: Vec<(String, String)>,
    pub referer: String,
}

pub open spec fn params_view(params: Vec<(String, String)>) -> Seq<(Seq<char>, Seq<char>)> {
    params@.map_values(|p: (String, String)| (p.0@, p.1@))
}

fn push_param(params: &mut Vec<(String, String)>, name: &str, value: &str)
    ensures
        params_view(*final(params)) == params_view(*old(params)).push((name@, value@)),
{
    params.push((name.to_string(), value.to_string()));
    assert(params_view(*params) =~= params_view(*old(params)).push((name@, value@)));
}

/// The request for the page list of video `bvid`.
pub fn page_list_request(bvid: &str) -> (r: ApiRequest)
    ensures
        r.url@ == "https://api.bilibili.com/x/player/pagelist?bvid="@ + bvid@,
        params_view(r.params) == Seq::<(Seq<char>, Seq<char>)>::empty(),
        r.referer@ == "https://www.bilibili.com/"@,
{
    let mut url = "https://api.bilibili.com/x/player/pagelist?bvid=".to_string();
    url.append(bvid);
    let params: Vec<(String, String)> = Vec::new();
    assert(params_view(params) =~= Seq::<(Seq<char>, Seq<char>)>::empty());
    ApiRequest { url, params, referer: "https://www.bilibili.com/".to_string() }
}

/// The request for the stream URLs of page `cid` of video `bvid`.
pub fn play_url_request(bvid: &str, cid: u64) -> (r: ApiRequest)
    ensures
        r.url@ == "https://api.bilibili.com/x/player/playurl"@,
        params_view(r.params) == seq![
            ("bvid"@, bvid@),
            ("cid"@, decimal_repr(cid as nat)),
            ("qn"@, "116"@),
            ("otype"@, "json"@),
            ("platform"@, "html5"@),
            ("high_quality"@, "1"@),
        ],
        r.referer@ == "https://www.bilibili.com/"@,
{
    let mut cid_text = String::new();
    push_decimal(&mut cid_text, cid as u128);
    let mut params: Vec<(String, String)> = Vec::new();
    push_param(&mut params, "bvid", bvid);
    push_param(&mut params, "cid", cid_text.as_str());
    push_param(&mut params, "qn", "116");
    push_param(&mut params, "otype", "json");
    push_param(&mut params, "platform", "html5");
    push_param(&mut params, "high_quality", "1");
    ApiRequest {
        url: "https://api.bilibili.com/x/player/playurl".to_string(),
        params,
        referer: "https://www.bilibili.com/".to_string(),
    }
}

/// The request for the play info of live room `room_id`.
pub fn live_room_request(room_id: &str) -> (r: ApiRequest)
    ensures
        r.url@ == "https://api.live.bilibili.com/xlive/web-room/v2/index/getRoomPlayInfo"@,
        params_view(r.params) == seq![
            ("room_id"@, room_id@),
            ("protocol"@, "0,1"@),
            ("format"@, "0,1,2"@),
            ("codec"@, "0,1"@),
            ("qn"@, "10000"@),
            ("platform"@, "web"@),
            ("ptype"@, "8"@),
            ("dolby"@, "5"@),
            ("panorama"@, "1"@),
        ],
        r.referer@ == "https://live.bilibili.com/"@,
{
    let mut params: Vec<(String, String)> = Vec::new();
    push_param(&mut params, "room_id", room_id);
    push_param(&mut params, "protocol", "0,1");
    push_param(&mut params, "format", "0,1,2");
    push_param(&mut params, "codec", "0,1");
    push_param(&mut params, "qn", "10000");
    push_param(&mut params, "platform", "web");
    push_param(&mut params, "ptype", "8");
    push_param(&mut params, "dolby", "5");
    push_param(&mut params, "panorama", "1");
    ApiRequest {
        url: "https://api.live.bilibili.com/xlive/web-room/v2/index/getRoomPlayInfo".to_string(),
        params,
        referer: "https://live.bilibili.com/".to_string(),
    }
}

/// Where a resolution stands between two requests.
pub enum ResolveState {
    /// Nothing has been asked yet.
    Start,
    /// The page list of video `bvid` has been requested; page `page` is wanted.
    AwaitPages { bvid: String, page: usize },
    /// The play URL of a video page has been requested.
    AwaitPlayUrl,
    /// The play info of a live room has been requested.
    AwaitLiveRoom,
    /// The resolution is over.
    Finished,
}

/// What happened: the resolution was asked for, or a request was answered
/// (or failed, with the failure's message).
pub enum ResolveEvent {
    Begin(String),
    Pages(Result<Vec<PageItem>, String>),
    PlayUrl(Result<PlayUrlData, String>),
    LiveRoom(Result<LiveRoomResponse, String>),
}

/// What to do next.
pub enum ResolveAction {
    FetchPages { bvid: String },
    FetchPlayUrl { bvid: String, cid: u64 },
    FetchLiveRoom { room_id: String },
    /// Answer with the stream URL, or with why there is none.
    /// and log `log` where it is given.
    Finish(Result<String, String>, Option<String>),
}

pub enum StageView {
    Start,
    AwaitPages(Seq<char>, nat),
    AwaitPlayUrl,
    AwaitLiveRoom,
    Finished,
}

pub enum StepView {
    FetchPages(Seq<char>),
    FetchPlayUrl(Seq<char>, u64),
    FetchLiveRoom(Seq<char>),
    Finish(Result<Seq<char>, Seq<char>>, Option<Seq<char>>),
}

pub open spec fn stage_view(s: ResolveState) -> StageView {
    match s {
        ResolveState::Start => StageView::Start,
        ResolveState::AwaitPages { bvid, page } => StageView::AwaitPages(bvid@, page as nat),
        ResolveState::AwaitPlayUrl => StageView::AwaitPlayUrl,
        ResolveState::AwaitLiveRoom => StageView::AwaitLiveRoom,
        ResolveState::Finished => StageView::Finished,
    }
}

pub open spec fn step_view(a: ResolveAction) -> StepView {
    match a {
        ResolveAction::FetchPages { bvid } => StepView::FetchPages(bvid@),
        ResolveAction::FetchPlayUrl { bvid, cid } => StepView::FetchPlayUrl(bvid@, cid),
        ResolveAction::FetchLiveRoom { room_id } => StepView::FetchLiveRoom(room_id@),
        ResolveAction::Finish(r, log) => StepView::Finish(string_result(r), string_option(log)),
    }
}

/// The event is the one that the state waits for.
pub open spec fn awaited(state: ResolveState, event: ResolveEvent) -> bool {
    match (state, event) {
        (ResolveState::Start, ResolveEvent::Begin(_)) => true,
        (ResolveState::AwaitPages { .. }, ResolveEvent::Pages(_)) => true,
        (ResolveState::AwaitPlayUrl, ResolveEvent::PlayUrl(_)) => true,
        (ResolveState::AwaitLiveRoom, ResolveEvent::LiveRoom(_)) => true,
        _ => false,
    }
}

pub open spec fn finish_with(r: Result<Seq<char>, Seq<char>>) -> (StageView, StepView) {
    (StageView::Finished, StepView::Finish(r, None))
}

/// The stream URL `url`, moved to its best CDN host, `mirror` being the
/// domestic mirror whose turn it is.
pub open spec fn finish_stream(url: Result<Seq<char>, Seq<char>>, mirror: Seq<char>) -> (StageView, StepView) {
    match url {
        Ok(u) => (StageView::Finished, StepView::Finish(Ok(upgrade_with(u, mirror)), upgrade_log(u))),
        Err(e) => finish_with(Err(e)),
    }
}

/// The next stage and step of a resolution, `mirror` being the domestic
/// mirror whose turn it is.
pub open spec fn resolve_transition(state: ResolveState, event: ResolveEvent, mirror: Seq<char>) -> (
    StageView,
    StepView,
) {
    match event {
        ResolveEvent::Begin(target) => match plan_of(target@) {
            Err(e) => finish_with(Err(e)),
            Ok(PlanView::Video(bvid, page)) => (
                StageView::AwaitPages(bvid, page),
                StepView::FetchPages(bvid),
            ),
            Ok(PlanView::Live(room)) => (StageView::AwaitLiveRoom, StepView::FetchLiveRoom(room)),
        },
        ResolveEvent::Pages(reply) => match state {
            ResolveState::AwaitPages { bvid, page } => match reply {
                Err(e) => finish_with(Err(e@)),
                Ok(pages) => match page_cid_of(pages@, page) {
                    Ok(cid) => (StageView::AwaitPlayUrl, StepView::FetchPlayUrl(bvid@, cid)),
                    Err(m) => finish_with(Err(m)),
                },
            },
            _ => finish_with(Err(Seq::empty())),
        },
        ResolveEvent::PlayUrl(reply) => match reply {
            Err(e) => finish_with(Err(e@)),
            Ok(data) => finish_stream(video_url_of(data), mirror),
        },
        ResolveEvent::LiveRoom(reply) => match reply {
            Err(e) => finish_with(Err(e@)),
            Ok(resp) => finish_stream(live_url_of(resp), mirror),
        },
    }
}

/// Whether `event` is the one that `state` waits for.
pub fn awaits(state: &ResolveState, event: &ResolveEvent) -> (b: bool)
    ensures
        b == awaited(*state, *event),
{
    match (state, event) {
        (ResolveState::Start, ResolveEvent::Begin(_)) => true,
        (ResolveState::AwaitPages { .. }, ResolveEvent::Pages(_)) => true,
        (ResolveState::AwaitPlayUrl, ResolveEvent::PlayUrl(_)) => true,
        (ResolveState::AwaitLiveRoom, ResolveEvent::LiveRoom(_)) => true,
        _ => false,
    }
}

fn deliver_stream(url: Result<String, String>, counter: &std::sync::atomic::AtomicUsize) -> (r: (
    ResolveState,
    ResolveAction,
))
    ensures
        exists|i: int|
            0 <= i < 13 && (stage_view(r.0), step_view(r.1)) == finish_stream(
                string_result(url),
                #[trigger] china_mirrors()[i],
            ),
{
    match url {
        Ok(u) => {
            let (upgraded, log) = upgrade_cdn_hostname_logged(u.as_str(), counter);
            (ResolveState::Finished, ResolveAction::Finish(Ok(upgraded), log))
        },
        Err(e) => {
            let r = (ResolveState::Finished, ResolveAction::Finish(Err(e), None));
            assert((stage_view(r.0), step_view(r.1)) == finish_stream(
                string_result(url),
                china_mirrors()[0],
            ));
            r
        },
    }
}

/// Takes one step of a resolution: from where it stands and what happened,
/// to where it stands next and what to do.
pub fn resolve_step(
    state: ResolveState,
    event: ResolveEvent,
    counter: &std::sync::atomic::AtomicUsize,
) -> (r: (ResolveState, ResolveAction))
    requires
        awaited(state, event),
    ensures
        exists|i: int|
            0 <= i < 13 && (stage_view(r.0), step_view(r.1)) == resolve_transition(
                state,
                event,
                #[trigger] china_mirrors()[i],
            ),
{
    let ghost m0 = china_mirrors()[0];
    match event {
        ResolveEvent::Begin(target) => {
            let r = match plan_resolution(target.as_str()) {
                Err(e) => (ResolveState::Finished, ResolveAction::Finish(Err(e), None)),
                Ok(ResolvePlan::Video(v)) => {
                    let bvid = v.bvid.clone();
                    (
                        ResolveState::AwaitPages { bvid: v.bvid, page: v.page },
                        ResolveAction::FetchPages { bvid },
                    )
                },
                Ok(ResolvePlan::Live(room_id)) => (
                    ResolveState::AwaitLiveRoom,
                    ResolveAction::FetchLiveRoom { room_id },
                ),
            };
            assert((stage_view(r.0), step_view(r.1)) == resolve_transition(state, event, m0));
            r
        },
        ResolveEvent::Pages(reply) => {
            let (bvid, page) = match state {
                ResolveState::AwaitPages { bvid, page } => (bvid, page),
                _ => {
                    return (ResolveState::Finished, ResolveAction::Finish(Err(String::new()), None));
                },
            };
            let r = match reply {
                Err(e) => (ResolveState::Finished, ResolveAction::Finish(Err(e), None)),
                Ok(pages) => match select_page_cid(&pages, page) {
                    Ok(cid) => (ResolveState::AwaitPlayUrl, ResolveAction::FetchPlayUrl { bvid, cid }),
                    Err(m) => (ResolveState::Finished, ResolveAction::Finish(Err(m), None)),
                },
            };
            assert((stage_view(r.0), step_view(r.1)) == resolve_transition(state, event, m0));
            r
        },
        ResolveEvent::PlayUrl(reply) => match reply {
            Err(e) => {
                let r = (ResolveState::Finished, ResolveAction::Finish(Err(e), None));
                assert((stage_view(r.0), step_view(r.1)) == resolve_transition(state, event, m0));
                r
            },
            Ok(data) => deliver_stream(select_video_url(&data), counter),
        },
        ResolveEvent::LiveRoom(reply) => match reply {
            Err(e) => {
                let r = (ResolveState::Finished, ResolveAction::Finish(Err(e), None));
                assert((stage_view(r.0), step_view(r.1)) == resolve_transition(state, event, m0));
                r
            },
            Ok(resp) => deliver_stream(select_live_url(&resp), counter),
        },
    }
}

/// A resolution finishes a live room as it finishes a video: with the URL
/// that the reply offers, moved by the CDN upgrade under the domestic mirror
/// whose turn it is, and with what the upgrade logs. Two replies that offer
/// the same URL finish alike.
pub proof fn lemma_streams_finish_upgraded(
    state: ResolveState,
    other: ResolveState,
    resp: LiveRoomResponse,
    data: PlayUrlData,
    mirror: Seq<char>,
)
    ensures
        live_url_of(resp) is Ok ==> resolve_transition(
            state,
            ResolveEvent::LiveRoom(Ok(resp)),
            mirror,
        ) == (StageView::Finished, StepView::Finish(
            Ok(upgrade_with(live_url_of(resp)->Ok_0, mirror)),
            upgrade_log(live_url_of(resp)->Ok_0),
        )),
        video_url_of(data) is Ok ==> resolve_transition(
            state,
            ResolveEvent::PlayUrl(Ok(data)),
            mirror,
        ) == (StageView::Finished, StepView::Finish(
            Ok(upgrade_with(video_url_of(data)->Ok_0, mirror)),
            upgrade_log(video_url_of(data)->Ok_0),
        )),
        live_url_of(resp) == video_url_of(data) ==> resolve_transition(
            state,
            ResolveEvent::LiveRoom(Ok(resp)),
            mirror,
        ) == resolve_transition(other, ResolveEvent::PlayUrl(Ok(data)), mirror),
{
}

/// A live stream offered on a host that is none of a free-traffic, an
/// overseas, a mirror or a PCDN host (a BCache host, say) is not handed
/// back as it is: the resolution finishes with the URL that `Url::set_host`
/// makes with the domestic mirror whose turn it is.
pub proof fn lemma_live_on_plain_host_moves(state: ResolveState, resp: LiveRoomResponse, mirror: Seq<char>)
    requires
        live_url_of(resp) is Ok,
        spec_parse_url(live_url_of(resp)->Ok_0) is Ok,
        !proxy_tf_host(host_or_empty(spec_parse_url(live_url_of(resp)->Ok_0)->Ok_0.host)),
        !overseas_host(host_or_empty(spec_parse_url(live_url_of(resp)->Ok_0)->Ok_0.host)),
        !mirror_host(host_or_empty(spec_parse_url(live_url_of(resp)->Ok_0)->Ok_0.host)),
        !mcdn_ip_port(host_or_empty(spec_parse_url(live_url_of(resp)->Ok_0)->Ok_0.host)),
        !mcdn_domain(host_or_empty(spec_parse_url(live_url_of(resp)->Ok_0)->Ok_0.host)),
    ensures
        resolve_transition(state, ResolveEvent::LiveRoom(Ok(resp)), mirror) == (
            StageView::Finished,
            StepView::Finish(Ok(with_host(live_url_of(resp)->Ok_0, mirror)), None),
        ),
{
    let u = live_url_of(resp)->Ok_0;
    let p = spec_parse_url(u)->Ok_0;
    lemma_other_hosts_go_to_mirror(host_or_empty(p.host), p.path, p.query_pairs, u, mirror);
}

} // verus!
