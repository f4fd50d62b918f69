//! The answers of the redirect service: which reply a request gets, and
//! when the cache of raw links is consulted and filled.
use vstd::prelude::*;

verus! {

/// The reply to a redirect request.
pub enum Reply {
    /// `302 Found` to `location`.
    Redirect { location: String },
    /// `400 Bad Request` with a JSON body of `error` and `usage`.
    BadRequest { error: String, usage: String },
    /// `502 Bad Gateway` with a JSON body of `error` and `detail`.
    BadGateway { error: String, detail: String },
}

pub enum ReplyView {
    Redirect(Seq<char>),
    BadRequest(Seq<char>, Seq<char>),
    BadGateway(Seq<char>, Seq<char>),
}

pub open spec fn reply_view(r: Reply) -> ReplyView {
    match r {
        Reply::Redirect { location } => ReplyView::Redirect(location@),
        Reply::BadRequest { error, usage } => ReplyView::BadRequest(error@, usage@),
        Reply::BadGateway { error, detail } => ReplyView::BadGateway(error@, detail@),
    }
}

pub open spec fn reply_status(r: ReplyView) -> u16 {
    match r {
        ReplyView::Redirect(_) => 302,
        ReplyView::BadRequest(_, _) => 400,
        ReplyView::BadGateway(_, _) => 502,
    }
}

impl Reply {
    /// The HTTP status code of the reply.
    pub fn status(&self) -> (code: u16)
        ensures
            code == reply_status(reply_view(*self)),
    {
        match self {
            Reply::Redirect { .. } => 302,
            Reply::BadRequest { .. } => 400,
            Reply::BadGateway { .. } => 502,
        }
    }
}

/// The key under which the resolution of the raw link `url` is cached.
pub open spec fn raw_cache_key(url: Seq<char>) -> Seq<char> {
    "raw:"@ + url
}

/// Where the handling of a redirect request stands.
pub enum RedirectState {
    Start,
    AwaitCache { url: String, key: String },
    Resolving { key: String },
    Finished,
}

/// What happened: a request came (with or without its `url` parameter),
/// the cache answered, or the resolution ended.
pub enum RedirectEvent {
    Request(Option<String>),
    Cached(Option<String>),
    Resolved(Result<String, String>),
}

/// What to do next.
pub enum RedirectAction {
    LookupCache { key: String },
    Resolve { url: String },
    /// Cache `value` under `key`, then send `reply`.
    StoreAndReply { key: String, value: String, reply: Reply },
    Reply(Reply),
}

pub enum RedirectStageView {
    Start,
    AwaitCache(Seq<char>, Seq<char>),
    Resolving(Seq<char>),
    Finished,
}

pub enum RedirectStepView {
    LookupCache(Seq<char>),
    Resolve(Seq<char>),
    StoreAndReply(Seq<char>, Seq<char>, ReplyView),
    Reply(ReplyView),
}

pub open spec fn redirect_stage_view(s: RedirectState) -> RedirectStageView {
    match s {
        RedirectState::Start => RedirectStageView::Start,
        RedirectState::AwaitCache { url, key } => RedirectStageView::AwaitCache(url@, key@),
        RedirectState::Resolving { key } => RedirectStageView::Resolving(key@),
        RedirectState::Finished => RedirectStageView::Finished,
    }
}

pub open spec fn redirect_step_view(a: RedirectAction) -> RedirectStepView {
    match a {
        RedirectAction::LookupCache { key } => RedirectStepView::LookupCache(key@),
        RedirectAction::Resolve { url } => RedirectStepView::Resolve(url@),
        RedirectAction::StoreAndReply { key, value, reply } => RedirectStepView::StoreAndReply(
            key@,
            value@,
            reply_view(reply),
        ),
        RedirectAction::Reply(reply) => RedirectStepView::Reply(reply_view(reply)),
    }
}

pub open spec fn redirect_awaited(state: RedirectState, event: RedirectEvent) -> bool {
    match (state, event) {
        (RedirectState::Start, RedirectEvent::Request(_)) => true,
        (RedirectState::AwaitCache { .. }, RedirectEvent::Cached(_)) => true,
        (RedirectState::Resolving { .. }, RedirectEvent::Resolved(_)) => true,
        _ => false,
    }
}

pub open spec fn missing_url_reply() -> ReplyView {
    ReplyView::BadRequest("Missing \"url\" parameter"@, "GET /?url=<bilibili video or live URL>"@)
}

pub open spec fn reply_once(r: ReplyView) -> (RedirectStageView, RedirectStepView) {
    (RedirectStageView::Finished, RedirectStepView::Reply(r))
}

/// The next stage and step of a redirect request: a request without a
/// `url` is refused; a cached resolution of the same raw link is answered
/// at once; otherwise the link is resolved, a success is cached and
/// redirected to, and a failure is reported as a bad gateway.
pub open spec fn redirect_transition(state: RedirectState, event: RedirectEvent) -> (
    RedirectStageView,
    RedirectStepView,
) {
    match (state, event) {
        (RedirectState::Start, RedirectEvent::Request(url)) => match url {
            None => reply_once(missing_url_reply()),
            Some(u) => (
                RedirectStageView::AwaitCache(u@, raw_cache_key(u@)),
                RedirectStepView::LookupCache(raw_cache_key(u@)),
            ),
        },
        (RedirectState::AwaitCache { url, key }, RedirectEvent::Cached(hit)) => match hit {
            Some(location) => reply_once(ReplyView::Redirect(location@)),
            None => (RedirectStageView::Resolving(key@), RedirectStepView::Resolve(url@)),
        },
        (RedirectState::Resolving { key }, RedirectEvent::Resolved(r)) => match r {
            Ok(cdn) => (
                RedirectStageView::Finished,
                RedirectStepView::StoreAndReply(key@, cdn@, ReplyView::Redirect(cdn@)),
            ),
            Err(e) => reply_once(ReplyView::BadGateway("Failed to resolve video URL"@, e@)),
        },
        _ => reply_once(missing_url_reply()),
    }
}

pub fn redirect_awaits(state: &RedirectState, event: &RedirectEvent) -> (b: bool)
    ensures
        b == redirect_awaited(*state, *event),
{
    match (state, event) {
        (RedirectState::Start, RedirectEvent::Request(_)) => true,
        (RedirectState::AwaitCache { .. }, RedirectEvent::Cached(_)) => true,
        (RedirectState::Resolving { .. }, RedirectEvent::Resolved(_)) => true,
        _ => false,
    }
}

fn missing_url() -> (r: Reply)
    ensures
        reply_view(r) == missing_url_reply(),
{
    Reply::BadRequest {
        error: "Missing \"url\" parameter".to_string(),
        usage: "GET /?url=<bilibili video or live URL>".to_string(),
    }
}

/// Takes one step of the handling of a redirect request.
pub fn redirect_step(state: RedirectState, event: RedirectEvent) -> (r: (RedirectState, RedirectAction))
    requires
        redirect_awaited(state, event),
    ensures
        (redirect_stage_view(r.0), redirect_step_view(r.1)) == redirect_transition(state, event),
{
    match (state, event) {
        (RedirectState::Start, RedirectEvent::Request(url)) => match url {
            None => (RedirectState::Finished, RedirectAction::Reply(missing_url())),
            Some(url) => {
                let mut key = "raw:".to_string();
                key.append(url.as_str());
                let k = key.clone();
                (RedirectState::AwaitCache { url, key }, RedirectAction::LookupCache { key: k })
            },
        },
        (RedirectState::AwaitCache { url, key }, RedirectEvent::Cached(hit)) => match hit {
            Some(location) => (
                RedirectState::Finished,
                RedirectAction::Reply(Reply::Redirect { location }),
            ),
            None => (RedirectState::Resolving { key }, RedirectAction::Resolve { url }),
        },
        (RedirectState::Resolving { key }, RedirectEvent::Resolved(r)) => match r {
            Ok(cdn) => {
                let location = cdn.clone();
                (
                    RedirectState::Finished,
                    RedirectAction::StoreAndReply {
                        key,
                        value: cdn,
                        reply: Reply::Redirect { location },
                    },
                )
            },
            Err(e) => (
                RedirectState::Finished,
                RedirectAction::Reply(
                    Reply::BadGateway { error: "Failed to resolve video URL".to_string(), detail: e },
                ),
            ),
        },
        _ => (RedirectState::Finished, RedirectAction::Reply(missing_url())),
    }
}

/// A request for a raw link looks up the key under which a successful
/// resolution of that same link is stored, and a stored location is
/// answered with a redirect to it, without resolving again.
pub proof fn lemma_redirect_cache_round_trip(url: String, key: String, location: String)
    requires
        key@ == raw_cache_key(url@),
    ensures
        redirect_transition(RedirectState::Start, RedirectEvent::Request(Some(url)))
            == (RedirectStageView::AwaitCache(url@, key@), RedirectStepView::LookupCache(key@)),
        redirect_transition(RedirectState::AwaitCache { url, key }, RedirectEvent::Cached(None))
            == (RedirectStageView::Resolving(key@), RedirectStepView::Resolve(url@)),
        redirect_transition(RedirectState::Resolving { key }, RedirectEvent::Resolved(Ok(location)))
            == (
            RedirectStageView::Finished,
            RedirectStepView::StoreAndReply(key@, location@, ReplyView::Redirect(location@)),
        ),
        redirect_transition(
            RedirectState::AwaitCache { url, key },
            RedirectEvent::Cached(Some(location)),
        ) == reply_once(ReplyView::Redirect(location@)),
{
}

} // verus!
