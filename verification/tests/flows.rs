use bilianalysis::bilibili::{
    check_parsed_host, extract_cache_key, plan_for_link, plan_resolution, ResolvePlan,
};
use bilianalysis::dedup::{dedup_step, watch_poll, DedupAction, DedupEvent, DedupState, WatchObservation, WatchPoll};
use bilianalysis::resolve::{
    awaits, resolve_step, select_live_url, select_page_cid, select_video_url, DurlItem,
    LiveCodecInfo, LiveFormat, LivePlayUrl, LivePlayUrlInfo, LiveRoomData, LiveRoomResponse,
    LiveStream, LiveUrlInfo, PageItem, PlayUrlData, ResolveAction, ResolveEvent, ResolveState,
};
use bilianalysis::server::{redirect_step, RedirectAction, RedirectEvent, RedirectState, Reply};
use bilianalysis::weburl::UrlParts;
use std::sync::atomic::AtomicUsize;

fn codec(base: &str, host: &str, extra: &str) -> LiveCodecInfo {
    LiveCodecInfo {
        base_url: base.to_string(),
        url_info: Some(vec![LiveUrlInfo { host: host.to_string(), extra: extra.to_string() }]),
    }
}

fn format(base: &str) -> LiveFormat {
    LiveFormat { codec: Some(vec![codec(base, "https://h.example", "?e=1")]) }
}

fn live(streams: Option<Vec<LiveStream>>) -> LiveRoomResponse {
    LiveRoomResponse {
        data: Some(LiveRoomData {
            playurl_info: Some(LivePlayUrlInfo { playurl: LivePlayUrl { stream: streams } }),
        }),
    }
}

#[test]
fn page_selection() {
    let pages = vec![PageItem { cid: 10 }, PageItem { cid: 20 }];
    assert_eq!(select_page_cid(&pages, 2), Ok(20));
    assert_eq!(select_page_cid(&pages, 1), Ok(10));
    assert_eq!(select_page_cid(&pages, 0), Ok(10));
    assert_eq!(select_page_cid(&pages, 3).unwrap_err(), "Page 3 not found");
    assert_eq!(select_page_cid(&vec![], 1).unwrap_err(), "Page 1 not found");
}

#[test]
fn video_url_selection() {
    let data = PlayUrlData { durl: vec![DurlItem { url: "u1".into() }, DurlItem { url: "u2".into() }] };
    assert_eq!(select_video_url(&data).unwrap(), "u1");
    assert_eq!(
        select_video_url(&PlayUrlData { durl: vec![] }).unwrap_err(),
        "Cannot get video URL from response"
    );
}

#[test]
fn live_url_selection_prefers_hls_and_hevc() {
    let both = live(Some(vec![
        LiveStream { format: Some(vec![format("/flv-avc"), format("/flv-hevc")]) },
        LiveStream { format: Some(vec![format("/hls-avc"), format("/hls-hevc")]) },
    ]));
    assert_eq!(select_live_url(&both).unwrap(), "https://h.example/hls-hevc?e=1");
    let no_hevc = live(Some(vec![
        LiveStream { format: Some(vec![format("/flv-avc")]) },
        LiveStream { format: Some(vec![format("/hls-avc")]) },
    ]));
    assert_eq!(select_live_url(&no_hevc).unwrap(), "https://h.example/hls-avc?e=1");
    let flv_only = live(Some(vec![LiveStream {
        format: Some(vec![format("/flv-avc"), LiveFormat { codec: Some(vec![]) }]),
    }]));
    assert_eq!(select_live_url(&flv_only).unwrap(), "https://h.example/flv-avc?e=1");
    assert_eq!(
        select_live_url(&live(None)).unwrap_err(),
        "Cannot get live stream URL from response"
    );
    assert_eq!(
        select_live_url(&LiveRoomResponse { data: None }).unwrap_err(),
        "Cannot get live playurl info"
    );
    assert_eq!(
        select_live_url(&LiveRoomResponse { data: Some(LiveRoomData { playurl_info: None }) })
            .unwrap_err(),
        "Cannot get live playurl info"
    );
}

#[test]
fn plans() {
    match plan_resolution(" av170001 ").unwrap() {
        ResolvePlan::Video(v) => {
            assert_eq!(v.bvid, "BV17x411w7KC");
            assert_eq!(v.page, 1);
        },
        ResolvePlan::Live(_) => panic!("a video was expected"),
    }
    match plan_resolution("https://live.bilibili.com/blanc/21452505?x=1").unwrap() {
        ResolvePlan::Live(room) => assert_eq!(room, "21452505"),
        ResolvePlan::Video(_) => panic!("a live room was expected"),
    }
    let parsed: Result<UrlParts, String> = Ok(UrlParts {
        host: Some("m.bilibili.com".into()),
        path: "/video/BV1Q541167Qg".into(),
        query_pairs: vec![],
        serialization: String::new(),
    });
    assert_eq!(check_parsed_host(&parsed), Ok(()));
    match plan_for_link("https://m.bilibili.com/video/BV1Q541167Qg?p=5", &parsed).unwrap() {
        ResolvePlan::Video(v) => assert_eq!((v.bvid.as_str(), v.page), ("BV1Q541167Qg", 5)),
        ResolvePlan::Live(_) => panic!("a video was expected"),
    }
    let broken: Result<UrlParts, String> = Err("empty host".into());
    assert_eq!(check_parsed_host(&broken).unwrap_err(), "invalid URL: empty host");
}

#[test]
fn resolution_of_a_video() {
    let counter = AtomicUsize::new(0);
    let begin = ResolveEvent::Begin("https://www.bilibili.com/video/BV17x411w7KC?p=2".into());
    assert!(awaits(&ResolveState::Start, &begin));
    let (state, action) = resolve_step(ResolveState::Start, begin, &counter);
    match action {
        ResolveAction::FetchPages { bvid } => assert_eq!(bvid, "BV17x411w7KC"),
        _ => panic!("the page list should be fetched"),
    }
    let pages = ResolveEvent::Pages(Ok(vec![PageItem { cid: 1 }, PageItem { cid: 2 }]));
    assert!(awaits(&state, &pages));
    let (state, action) = resolve_step(state, pages, &counter);
    match action {
        ResolveAction::FetchPlayUrl { bvid, cid } => {
            assert_eq!(bvid, "BV17x411w7KC");
            assert_eq!(cid, 2);
        },
        _ => panic!("the play URL should be fetched"),
    }
    let reply = ResolveEvent::PlayUrl(Ok(PlayUrlData {
        durl: vec![DurlItem { url: "https://cn-gd.bilivideo.com/x.mp4?e=1".into() }],
    }));
    let (state, action) = resolve_step(state, reply, &counter);
    assert!(matches!(state, ResolveState::Finished));
    match action {
        ResolveAction::Finish(r, _) => assert_eq!(r.unwrap(), "https://upos-sz-mirrorali.bilivideo.com/x.mp4?e=1"),
        _ => panic!("the resolution should be over"),
    }
}

#[test]
fn resolution_failures() {
    let counter = AtomicUsize::new(0);
    let (_, action) = resolve_step(ResolveState::Start, ResolveEvent::Begin("https://example.com/".into()), &counter);
    match action {
        ResolveAction::Finish(r, _) => assert_eq!(r.unwrap_err(), "URL hostname 'example.com' is not bilibili.com"),
        _ => panic!("the resolution should fail"),
    }
    let (state, _) = resolve_step(ResolveState::Start, ResolveEvent::Begin("BV17x411w7KC?p=9".into()), &counter);
    let (_, action) = resolve_step(state, ResolveEvent::Pages(Ok(vec![PageItem { cid: 1 }])), &counter);
    match action {
        ResolveAction::Finish(r, _) => assert_eq!(r.unwrap_err(), "Page 9 not found"),
        _ => panic!("the resolution should fail"),
    }
    let (state, action) = resolve_step(ResolveState::Start, ResolveEvent::Begin("https://live.bilibili.com/7".into()), &counter);
    match action {
        ResolveAction::FetchLiveRoom { room_id } => assert_eq!(room_id, "7"),
        _ => panic!("the live room should be fetched"),
    }
    assert!(!awaits(&state, &ResolveEvent::Pages(Ok(vec![]))));
    let (_, action) = resolve_step(state, ResolveEvent::LiveRoom(Err("request failed".into())), &counter);
    match action {
        ResolveAction::Finish(r, _) => assert_eq!(r.unwrap_err(), "request failed"),
        _ => panic!("the resolution should fail"),
    }
}

#[test]
fn shared_resolution_from_the_cache() {
    let (state, action) = dedup_step(DedupState::Start, DedupEvent::Begin(" av170001".into()));
    match action {
        DedupAction::LookupCache { key } => assert_eq!(key, "vid:BV17x411w7KC:1"),
        _ => panic!("the cache should be asked"),
    }
    let (_, action) = dedup_step(state, DedupEvent::Cached(Some("cdn".into())));
    match action {
        DedupAction::Finish(r) => assert_eq!(r.unwrap(), "cdn"),
        _ => panic!("the cached value should be the answer"),
    }
    let (_, action) = dedup_step(DedupState::Start, DedupEvent::Begin("https://example.com/".into()));
    assert!(matches!(action, DedupAction::Finish(Err(_))));
}

#[test]
fn shared_resolution_waits_then_resolves() {
    let (state, _) = dedup_step(DedupState::Start, DedupEvent::Begin("BV1Q541167Qg".into()));
    let (state, action) = dedup_step(state, DedupEvent::Cached(None));
    assert!(matches!(action, DedupAction::JoinInFlight { .. }));
    let (state, action) = dedup_step(state, DedupEvent::Joined { has_sender: true });
    assert!(matches!(action, DedupAction::AwaitShared { .. }));
    let (state, action) = dedup_step(state, DedupEvent::Shared(None));
    match action {
        DedupAction::Resolve { key, target } => {
            assert_eq!(key, "vid:BV1Q541167Qg:1");
            assert_eq!(target, "BV1Q541167Qg");
        },
        _ => panic!("a resolution of its own should start"),
    }
    let (_, action) = dedup_step(state, DedupEvent::Resolved(Ok("u".into())));
    match action {
        DedupAction::Complete { key, store, result } => {
            assert_eq!(key, "vid:BV1Q541167Qg:1");
            assert_eq!(store.as_deref(), Some("u"));
            assert_eq!(result.unwrap(), "u");
        },
        _ => panic!("the outcome should be published"),
    }
}

#[test]
fn shared_outcomes_and_failures() {
    let (state, _) = dedup_step(DedupState::Start, DedupEvent::Begin("BV1Q541167Qg".into()));
    let (state, _) = dedup_step(state, DedupEvent::Cached(None));
    let (state, _) = dedup_step(state, DedupEvent::Joined { has_sender: true });
    let (_, action) = dedup_step(state, DedupEvent::Shared(Some(Err("boom".into()))));
    match action {
        DedupAction::Finish(r) => assert_eq!(r.unwrap_err(), "boom"),
        _ => panic!("the shared failure should be the answer"),
    }
    let (state, _) = dedup_step(DedupState::Start, DedupEvent::Begin("BV1Q541167Qg".into()));
    let (state, _) = dedup_step(state, DedupEvent::Cached(None));
    let (state, action) = dedup_step(state, DedupEvent::Joined { has_sender: false });
    assert!(matches!(action, DedupAction::Resolve { .. }));
    let (_, action) = dedup_step(state, DedupEvent::Resolved(Err("bad".into())));
    match action {
        DedupAction::Complete { store, result, .. } => {
            assert!(store.is_none());
            assert_eq!(result.unwrap_err(), "bad");
        },
        _ => panic!("the failure should be published"),
    }
}

#[test]
fn watching_a_shared_resolution() {
    assert!(matches!(watch_poll(WatchObservation::Unchanged), WatchPoll::Pending));
    assert!(matches!(watch_poll(WatchObservation::Changed(None)), WatchPoll::Pending));
    match watch_poll(WatchObservation::Changed(Some(Ok("x".into())))) {
        WatchPoll::Ready(r) => assert_eq!(r.unwrap(), "x"),
        WatchPoll::Pending => panic!("the outcome is there"),
    }
    match watch_poll(WatchObservation::Closed) {
        WatchPoll::Ready(r) => assert_eq!(r.unwrap_err(), "fetch task panicked"),
        WatchPoll::Pending => panic!("the wait is over"),
    }
}

#[test]
fn redirect_requests() {
    let (_, action) = redirect_step(RedirectState::Start, RedirectEvent::Request(None));
    match action {
        RedirectAction::Reply(reply) => {
            assert_eq!(reply.status(), 400);
            match reply {
                Reply::BadRequest { error, usage } => {
                    assert_eq!(error, "Missing \"url\" parameter");
                    assert_eq!(usage, "GET /?url=<bilibili video or live URL>");
                },
                _ => panic!("a bad request was expected"),
            }
        },
        _ => panic!("a reply was expected"),
    }
    let (state, action) = redirect_step(RedirectState::Start, RedirectEvent::Request(Some("BV1".into())));
    match action {
        RedirectAction::LookupCache { key } => assert_eq!(key, "raw:BV1"),
        _ => panic!("the cache should be asked"),
    }
    let (state, action) = redirect_step(state, RedirectEvent::Cached(None));
    match action {
        RedirectAction::Resolve { url } => assert_eq!(url, "BV1"),
        _ => panic!("the link should be resolved"),
    }
    let (_, action) = redirect_step(state, RedirectEvent::Resolved(Ok("https://cdn/x".into())));
    match action {
        RedirectAction::StoreAndReply { key, value, reply } => {
            assert_eq!(key, "raw:BV1");
            assert_eq!(value, "https://cdn/x");
            assert_eq!(reply.status(), 302);
        },
        _ => panic!("the location should be stored"),
    }
    let (_, action) = redirect_step(
        RedirectState::Resolving { key: "raw:x".into() },
        RedirectEvent::Resolved(Err("no".into())),
    );
    match action {
        RedirectAction::Reply(Reply::BadGateway { error, detail }) => {
            assert_eq!(error, "Failed to resolve video URL");
            assert_eq!(detail, "no");
        },
        _ => panic!("a bad gateway was expected"),
    }
    let (_, action) = redirect_step(
        RedirectState::AwaitCache { url: "u".into(), key: "raw:u".into() },
        RedirectEvent::Cached(Some("loc".into())),
    );
    match action {
        RedirectAction::Reply(Reply::Redirect { location }) => assert_eq!(location, "loc"),
        _ => panic!("a redirect was expected"),
    }
}

#[test]
fn cache_key_names_what_is_resolved() {
    let counter = AtomicUsize::new(0);
    for target in [
        "https://www.bilibili.com/video/av170001?p=7",
        " BV1mK4y1C7Bz",
        "https://live.bilibili.com/blanc/99",
        "https://example.com/x",
    ] {
        let key = extract_cache_key(target);
        let (state, action) = resolve_step(ResolveState::Start, ResolveEvent::Begin(target.to_string()), &counter);
        match (state, action) {
            (ResolveState::AwaitPages { bvid, page }, ResolveAction::FetchPages { .. }) => {
                assert_eq!(key.unwrap(), format!("vid:{}:{}", bvid, page));
            },
            (ResolveState::AwaitLiveRoom, ResolveAction::FetchLiveRoom { room_id }) => {
                assert_eq!(key.unwrap(), format!("live:{}", room_id));
            },
            (_, ResolveAction::Finish(Err(e), _)) => assert_eq!(key.unwrap_err(), e),
            _ => panic!("unexpected first step"),
        }
    }
}

#[test]
fn api_requests() {
    use_requests();
}

fn use_requests() {
    let r = bilianalysis::resolve::page_list_request("BV17x411w7KC");
    assert_eq!(r.url, "https://api.bilibili.com/x/player/pagelist?bvid=BV17x411w7KC");
    assert!(r.params.is_empty());
    assert_eq!(r.referer, "https://www.bilibili.com/");
    let r = bilianalysis::resolve::play_url_request("BV17x411w7KC", 279786);
    assert_eq!(r.url, "https://api.bilibili.com/x/player/playurl");
    let params: Vec<(&str, &str)> = r.params.iter().map(|(k, v)| (k.as_str(), v.as_str())).collect();
    assert_eq!(
        params,
        vec![
            ("bvid", "BV17x411w7KC"),
            ("cid", "279786"),
            ("qn", "116"),
            ("otype", "json"),
            ("platform", "html5"),
            ("high_quality", "1"),
        ]
    );
    let r = bilianalysis::resolve::live_room_request("21452505");
    assert_eq!(r.url, "https://api.live.bilibili.com/xlive/web-room/v2/index/getRoomPlayInfo");
    assert_eq!(r.params[0], ("room_id".to_string(), "21452505".to_string()));
    assert_eq!(r.params.len(), 9);
    assert_eq!(r.referer, "https://live.bilibili.com/");
}

#[test]
fn an_unparsable_stream_url_is_kept_and_logged() {
    let counter = AtomicUsize::new(0);
    let (state, _) = resolve_step(ResolveState::Start, ResolveEvent::Begin("BV17x411w7KC".into()), &counter);
    let (state, _) = resolve_step(state, ResolveEvent::Pages(Ok(vec![PageItem { cid: 1 }])), &counter);
    let reply = ResolveEvent::PlayUrl(Ok(PlayUrlData { durl: vec![DurlItem { url: "no url".into() }] }));
    let (_, action) = resolve_step(state, reply, &counter);
    match action {
        ResolveAction::Finish(r, log) => {
            assert_eq!(r.unwrap(), "no url");
            assert_eq!(log.as_deref(), Some("[mirror-cdn] Failed to parse URL: relative URL without a base"));
        },
        _ => panic!("the resolution should be over"),
    }
    let (_, log) = bilianalysis::mirror_cdn::upgrade_cdn_hostname_logged("https://cn-x.bilivideo.com/a", &counter);
    assert!(log.is_none());
}
