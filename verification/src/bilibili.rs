//! Reading Bilibili links: which video or live room a link names, and the
//! key under which its resolution is cached.
use vstd::prelude::*;
use crate::bvid::{av2bv, av2bv_result};
use crate::patterns::{
    av_number_in, bv_id_in, find_av_number, find_bv_id, find_live_room_id, find_page_number,
    live_room_id_in, page_number_in,
};
use crate::text::{
    all_ascii_digits, ascii_digit, ascii_lowercase, chars_eq, chars_to_string, contains,
    contains_seq, decimal_repr, ends_with, has_prefix, has_suffix, i64_to_decimal,
    parse_unsigned, push_decimal, signed_decimal_repr, string_option, string_result, to_chars,
    trim, trimmed, unsigned_value,
};
use crate::weburl::{parse_url, parsed_view, spec_parse_url, UrlParts, UrlPartsView};

verus! {

/// The view of a result that carries nothing on success.
pub open spec fn unit_result(r: Result<(), String>) -> Result<(), Seq<char>> {
    match r {
        Ok(()) => Ok(()),
        Err(e) => Err(e@),
    }
}

/// `hostname` is `bilibili.com` or one of its subdomains.
pub open spec fn bilibili_domain(hostname: Seq<char>) -> bool {
    hostname == "bilibili.com"@ || has_suffix(hostname, ".bilibili.com"@)
}

pub fn is_bilibili_domain(hostname: &str) -> (b: bool)
    ensures
        b == bilibili_domain(hostname@),
{
    let h = to_chars(hostname);
    chars_eq(&h, &to_chars("bilibili.com")) || ends_with(&h, &to_chars(".bilibili.com"))
}

/// The verdict on a parsed link: it must parse and name a Bilibili host.
pub open spec fn host_check(parsed: Result<UrlPartsView, Seq<char>>) -> Result<(), Seq<char>> {
    match parsed {
        Err(e) => Err("invalid URL: "@ + e),
        Ok(p) => match p.host {
            None => Err("URL has no hostname"@),
            Some(h) => if bilibili_domain(h) {
                Ok(())
            } else {
                Err("URL hostname '"@ + h + "' is not bilibili.com"@)
            },
        },
    }
}

/// Checks the outcome of parsing a link: it must have parsed and name a
/// Bilibili host.
pub fn check_parsed_host(parsed: &Result<UrlParts, String>) -> (r: Result<(), String>)
    ensures
        unit_result(r) == host_check(parsed_view(*parsed)),
{
    match parsed {
        Err(e) => {
            let mut msg = "invalid URL: ".to_string();
            msg.append(e.as_str());
            Err(msg)
        },
        Ok(p) => match &p.host {
            None => Err("URL has no hostname".to_string()),
            Some(h) => {
                if is_bilibili_domain(h.as_str()) {
                    Ok(())
                } else {
                    let mut msg = "URL hostname '".to_string();
                    msg.append(h.as_str());
                    msg.append("' is not bilibili.com");
                    Err(msg)
                }
            },
        },
    }
}

/// Checks that `url` parses as a URL whose host is a Bilibili host.
pub fn validate_bilibili_url(url: &str) -> (r: Result<(), String>)
    ensures
        unit_result(r) == host_check(spec_parse_url(url@)),
{
    let parsed = parse_url(url);
    check_parsed_host(&parsed)
}

/// The status fields of a JSON reply of the Bilibili API: `code` as a
/// 64-bit integer and `message` as a string, each where the reply holds one.
pub struct ApiStatus {
    pub code: Option<i64>,
    pub message: Option<String>,
}

/// The verdict on an API reply: a code other than 0 is an error.
pub open spec fn api_check(code: Option<i64>, message: Option<Seq<char>>) -> Result<(), Seq<char>> {
    match code {
        Some(c) => if c != 0 {
            Err(
                "API error (code="@ + signed_decimal_repr(c as int) + "): "@ + match message {
                    Some(m) => m,
                    None => "unknown error"@,
                },
            )
        } else {
            Ok(())
        },
        None => Ok(()),
    }
}

pub fn check_api_response(body: &ApiStatus) -> (r: Result<(), String>)
    ensures
        unit_result(r) == api_check(body.code, string_option(body.message)),
{
    if let Some(code) = body.code {
        if code != 0 {
            let mut msg = "API error (code=".to_string();
            msg.append(i64_to_decimal(code).as_str());
            msg.append("): ");
            match &body.message {
                Some(m) => msg.append(m.as_str()),
                None => msg.append("unknown error"),
            }
            return Err(msg);
        }
    }
    Ok(())
}

/// Only the code decides: a reply whose code is 0, or that has none, is
/// accepted whatever its message says; one with any other code is refused,
/// with its code and its message (or `unknown error`) in the error.
pub proof fn lemma_api_code_decides(code: Option<i64>, message: Option<Seq<char>>)
    ensures
        code is None ==> api_check(code, message) == Ok::<(), Seq<char>>(()),
        code == Some(0i64) ==> api_check(code, message) == Ok::<(), Seq<char>>(()),
        (match code {
            Some(c) => c != 0 ==> api_check(code, message) == Err::<(), Seq<char>>(
                "API error (code="@ + signed_decimal_repr(c as int) + "): "@ + match message {
                    Some(m) => m,
                    None => "unknown error"@,
                },
            ),
            None => true,
        }),
        forall|other: Option<Seq<char>>|
            (#[trigger] api_check(code, other)) is Ok <==> api_check(code, message) is Ok,
{
}

/// A video and the page of it that a link names.
#[derive(Debug)]
pub struct VideoInfo {
    pub bvid: String,
    pub page: usize,
}

/// The page that `url` names: the number after its first `?p=` or `&p=`,
/// at least 1, and 1 where there is none or it does not fit a `usize`.
pub open spec fn page_of(url: Seq<char>) -> nat {
    match page_number_in(url) {
        Some(d) => match unsigned_value(d, usize::MAX as nat) {
            Some(p) => if p >= 1 {
                p
            } else {
                1
            },
            None => 1,
        },
        None => 1,
    }
}

/// The video that `url` names: its first BV identifier, else the BV
/// identifier of its first AV number; and its page.
pub open spec fn video_of(url: Seq<char>) -> Result<(Seq<char>, nat), Seq<char>> {
    let bvid = match bv_id_in(url) {
        Some(bv) => Ok(bv),
        None => match av_number_in(url) {
            Some(av) => av2bv_result(av),
            None => Err("Cannot find BV/AV ID"@),
        },
    };
    match bvid {
        Ok(b) => Ok((b, page_of(url))),
        Err(e) => Err(e),
    }
}

pub open spec fn video_result(r: Result<VideoInfo, String>) -> Result<(Seq<char>, nat), Seq<char>> {
    match r {
        Ok(v) => Ok((v.bvid@, v.page as nat)),
        Err(e) => Err(e@),
    }
}

pub fn extract_video_info(url: &str) -> (r: Result<VideoInfo, String>)
    ensures
        video_result(r) == video_of(url@),
{
    let s = to_chars(url);
    let bvid = match find_bv_id(&s) {
        Some(bv) => chars_to_string(&bv),
        None => match find_av_number(&s) {
            Some(av) => {
                let av = chars_to_string(&av);
                av2bv(av.as_str())?
            },
            None => {
                return Err("Cannot find BV/AV ID".to_string());
            },
        },
    };
    let page: usize = match find_page_number(&s) {
        Some(d) => match parse_unsigned(&d, usize::MAX as u128) {
            Some(p) => if p >= 1 {
                p as usize
            } else {
                1
            },
            None => 1,
        },
        None => 1,
    };
    Ok(VideoInfo { bvid, page })
}

pub fn extract_live_room_id(url: &str) -> (r: Option<String>)
    ensures
        string_option(r) == live_room_id_in(url@),
{
    let s = to_chars(url);
    match find_live_room_id(&s) {
        Some(id) => Some(chars_to_string(&id)),
        None => None,
    }
}

/// `input` is a bare video identifier rather than a link: it starts with
/// `BV` or `bv`, or it is `av` (in either case) followed by ASCII digits.
pub open spec fn bare_id(input: Seq<char>) -> bool {
    ||| has_prefix(input, "BV"@)
    ||| has_prefix(input, "bv"@)
    ||| {
        let lower = ascii_lowercase(input);
        &&& has_prefix(lower, "av"@)
        &&& lower.len() > 2
        &&& all_ascii_digits(lower.skip(2))
    }
}

pub fn is_bare_id(input: &str) -> (b: bool)
    ensures
        b == bare_id(input@),
{
    let s = to_chars(input);
    proof {
        reveal_strlit("BV");
        reveal_strlit("bv");
        reveal_strlit("av");
        assert("BV"@ =~= seq!['B', 'V']);
        assert("bv"@ =~= seq!['b', 'v']);
        assert("av"@ =~= seq!['a', 'v']);
    }
    if s.len() >= 2 && ((s[0] == 'B' && s[1] == 'V') || (s[0] == 'b' && s[1] == 'v')) {
        assert(s@.subrange(0, 2) =~= seq![s@[0], s@[1]]);
        return true;
    }
    let ghost lower = ascii_lowercase(s@);
    assert(!has_prefix(s@, "BV"@) && !has_prefix(s@, "bv"@)) by {
        if s@.len() >= 2 {
            assert(s@.subrange(0, 2) =~= seq![s@[0], s@[1]]);
        }
    }
    if s.len() < 3 || !(s[0] == 'a' || s[0] == 'A') || !(s[1] == 'v' || s[1] == 'V') {
        assert(!has_prefix(lower, "av"@) || lower.len() <= 2) by {
            if s@.len() >= 2 {
                assert(lower.subrange(0, 2) =~= seq![lower[0], lower[1]]);
            }
        }
        return false;
    }
    assert(has_prefix(lower, "av"@)) by {
        assert(lower.subrange(0, 2) =~= seq!['a', 'v']);
    }
    let mut i: usize = 2;
    while i < s.len()
        invariant
            2 <= i <= s@.len(),
            lower == ascii_lowercase(s@),
            !has_prefix(s@, "BV"@),
            !has_prefix(s@, "bv"@),
            s@ == input@,
            forall|k: int| 2 <= k < i ==> crate::text::is_ascii_digit(#[trigger] s@[k]),
        decreases s@.len() - i,
    {
        if !ascii_digit(s[i]) {
            assert(lower.skip(2)[i - 2] == lower[i as int]);
            assert(!crate::text::is_ascii_digit(lower[i as int]));
            return false;
        }
        i += 1;
    }
    assert(all_ascii_digits(lower.skip(2))) by {
        assert forall|k: int| 0 <= k < lower.skip(2).len() implies crate::text::is_ascii_digit(
            #[trigger] lower.skip(2)[k],
        ) by {
            assert(lower.skip(2)[k] == lower[k + 2]);
            assert(crate::text::is_ascii_digit(s@[k + 2]));
        }
    }
    true
}

/// What a link asks to have resolved: a page of a video, or a live room.
#[derive(Debug)]
pub enum ResolvePlan {
    Video(VideoInfo),
    Live(String),
}

pub enum PlanView {
    Video(Seq<char>, nat),
    Live(Seq<char>),
}

pub open spec fn plan_view(p: ResolvePlan) -> PlanView {
    match p {
        ResolvePlan::Video(v) => PlanView::Video(v.bvid@, v.page as nat),
        ResolvePlan::Live(r) => PlanView::Live(r@),
    }
}

pub open spec fn plan_result(r: Result<ResolvePlan, String>) -> Result<PlanView, Seq<char>> {
    match r {
        Ok(p) => Ok(plan_view(p)),
        Err(e) => Err(e@),
    }
}

/// The video plan for `s`.
pub open spec fn video_plan_of(s: Seq<char>) -> Result<PlanView, Seq<char>> {
    match video_of(s) {
        Ok((bvid, page)) => Ok(PlanView::Video(bvid, page)),
        Err(e) => Err(e),
    }
}

/// The plan for a link `link` that parsed as `parsed`: it must name a
/// Bilibili host; a link to `live.bilibili.com` names a live room, any
/// other a video.
pub open spec fn link_plan_of(link: Seq<char>, parsed: Result<UrlPartsView, Seq<char>>) -> Result<
    PlanView,
    Seq<char>,
> {
    match host_check(parsed) {
        Err(e) => Err(e),
        Ok(()) => if contains_seq(link, "live.bilibili.com"@) {
            match live_room_id_in(link) {
                Some(room) => Ok(PlanView::Live(room)),
                None => Err("Cannot find live room ID"@),
            }
        } else {
            video_plan_of(link)
        },
    }
}

/// The plan for what a user asked to have resolved: surrounding whitespace
/// is ignored, and a bare identifier names a video without being parsed as
/// a link.
pub open spec fn plan_of(target: Seq<char>) -> Result<PlanView, Seq<char>> {
    let t = trimmed(target);
    if bare_id(t) {
        video_plan_of(t)
    } else {
        link_plan_of(t, spec_parse_url(t))
    }
}

/// The cache key of a plan: `vid:<bvid>:<page>` or `live:<room>`.
pub open spec fn plan_key(plan: PlanView) -> Seq<char> {
    match plan {
        PlanView::Video(bvid, page) => "vid:"@ + bvid + ":"@ + decimal_repr(page),
        PlanView::Live(room) => "live:"@ + room,
    }
}

/// The cache key of what a user asked to have resolved.
pub open spec fn cache_key_of(target: Seq<char>) -> Result<Seq<char>, Seq<char>> {
    match plan_of(target) {
        Ok(plan) => Ok(plan_key(plan)),
        Err(e) => Err(e),
    }
}

fn video_plan(s: &str) -> (r: Result<ResolvePlan, String>)
    ensures
        plan_result(r) == video_plan_of(s@),
{
    let info = extract_video_info(s)?;
    Ok(ResolvePlan::Video(info))
}

/// The plan for the link `link`, which parsed as `parsed`.
pub fn plan_for_link(link: &str, parsed: &Result<UrlParts, String>) -> (r: Result<ResolvePlan, String>)
    ensures
        plan_result(r) == link_plan_of(link@, parsed_view(*parsed)),
{
    check_parsed_host(parsed)?;
    let s = to_chars(link);
    if contains(&s, &to_chars("live.bilibili.com")) {
        match extract_live_room_id(link) {
            Some(room) => Ok(ResolvePlan::Live(room)),
            None => Err("Cannot find live room ID".to_string()),
        }
    } else {
        video_plan(link)
    }
}

/// The plan for what a user asked to have resolved.
pub fn plan_resolution(target_url: &str) -> (r: Result<ResolvePlan, String>)
    ensures
        plan_result(r) == plan_of(target_url@),
{
    let t = chars_to_string(&trim(&to_chars(target_url)));
    if is_bare_id(t.as_str()) {
        return video_plan(t.as_str());
    }
    let parsed = parse_url(t.as_str());
    plan_for_link(t.as_str(), &parsed)
}

/// The cache key of a plan.
pub fn plan_cache_key(plan: &ResolvePlan) -> (key: String)
    ensures
        key@ == plan_key(plan_view(*plan)),
{
    match plan {
        ResolvePlan::Video(v) => {
            let mut key = "vid:".to_string();
            key.append(v.bvid.as_str());
            key.append(":");
            push_decimal(&mut key, v.page as u128);
            key
        },
        ResolvePlan::Live(room) => {
            let mut key = "live:".to_string();
            key.append(room.as_str());
            key
        },
    }
}

/// The key under which the resolution of `target_url` is cached.
pub fn extract_cache_key(target_url: &str) -> (r: Result<String, String>)
    ensures
        string_result(r) == cache_key_of(target_url@),
{
    let plan = plan_resolution(target_url)?;
    Ok(plan_cache_key(&plan))
}

/// Whitespace around what a user asks for changes neither the plan of its
/// resolution nor its cache key.
pub proof fn lemma_surrounding_whitespace_ignored(target: Seq<char>)
    ensures
        plan_of(trimmed(target)) == plan_of(target),
        cache_key_of(trimmed(target)) == cache_key_of(target),
{
    crate::text::lemma_trimmed_idempotent(target);
}

/// Every page that a link names is at least page 1.
pub proof fn lemma_page_at_least_one(url: Seq<char>)
    ensures
        page_of(url) >= 1,
{
}

} // verus!
