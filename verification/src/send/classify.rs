//! What an error of the chat service means for a send.
use super::task::{Task, TaskView};
use crate::text::{contains, lowercase};
use rand::Rng;
use vstd::prelude::*;

verus! {

/// An error that the chat service answered with.
#[derive(Debug)]
pub struct ApiError {
    /// The words of the error.
    pub description: String,
    /// The service said that the request was too large.
    pub entity_too_large: bool,
}

/// A request that failed.
#[derive(Debug)]
pub struct RequestError {
    pub kind: RequestErrorKind,
    /// The error in words, as it is shown.
    pub text: String,
}

#[derive(Debug)]
pub enum RequestErrorKind {
    /// The service asks to wait this many seconds.
    RetryAfter(u32),
    /// The service was not reached.
    Network,
    Api(ApiError),
    /// Anything else, such as an answer that cannot be read.
    Other,
}

// ---- delays ----

/// The longest wait before a retry, in milliseconds.
pub const MAX_RETRY_DELAY_MS: u64 = 30000;

/// Bounds of the jitter of a retry, in milliseconds.
pub const JITTER_FROM_MS: u64 = 200;

pub const JITTER_TO_MS: u64 = 800;

/// A number drawn by `rand::Rng::gen_range` from the range that starts at `from`
/// and ends before `to`. Which one is left to chance.
#[verifier::external_body]
fn random_between(from: u64, to: u64) -> (r: u64)
    requires
        from < to,
    ensures
        from <= r < to,
{
    rand::thread_rng().gen_range(from..to)
}

/// The wait before a retry: a second, doubled for each attempt, plus a jitter,
/// capped.
pub open spec fn backoff_ms(attempts: nat, jitter: int) -> int {
    let wait = 1000 * crate::queue::power_of_two(attempts) + jitter;
    if wait < MAX_RETRY_DELAY_MS {
        wait
    } else {
        MAX_RETRY_DELAY_MS as int
    }
}

proof fn lemma_power_at_least(n: nat)
    requires
        n >= 5,
    ensures
        crate::queue::power_of_two(n) >= 32,
    decreases n,
{
    reveal_with_fuel(crate::queue::power_of_two, 6);
    if n > 5 {
        lemma_power_at_least((n - 1) as nat);
    }
}

/// The wait before a retry with a given jitter.
pub fn jittered_delay(attempts: u32, jitter: u64) -> (r: u64)
    requires
        jitter <= JITTER_TO_MS,
    ensures
        r == backoff_ms(attempts as nat, jitter as int),
{
    if attempts >= 5 {
        proof {
            lemma_power_at_least(attempts as nat);
        }
        return MAX_RETRY_DELAY_MS;
    }
    proof {
        reveal_with_fuel(crate::queue::power_of_two, 6);
    }
    let wait: u64 = if attempts == 0 {
        1000 + jitter
    } else if attempts == 1 {
        2000 + jitter
    } else if attempts == 2 {
        4000 + jitter
    } else if attempts == 3 {
        8000 + jitter
    } else {
        16000 + jitter
    };
    if wait < MAX_RETRY_DELAY_MS {
        wait
    } else {
        MAX_RETRY_DELAY_MS
    }
}

/// A jitter for the next retry.
pub fn draw_jitter() -> (r: u64)
    ensures
        JITTER_FROM_MS <= r < JITTER_TO_MS,
{
    random_between(JITTER_FROM_MS, JITTER_TO_MS)
}

/// The wait before a retry, in milliseconds.
pub fn retry_delay_ms(attempts: u32) -> (r: u64)
    ensures
        exists|jitter: int|
            JITTER_FROM_MS <= jitter < JITTER_TO_MS && r == #[trigger] backoff_ms(
                attempts as nat,
                jitter,
            ),
{
    let jitter: u64 = draw_jitter();
    let wait: u64 = jittered_delay(attempts, jitter);
    assert(wait == backoff_ms(attempts as nat, jitter as int));
    wait
}

/// The waits stay within bounds, and grow with the attempts.
pub proof fn law_backoff_is_bounded(attempts: nat, jitter: int)
    requires
        JITTER_FROM_MS <= jitter < JITTER_TO_MS,
    ensures
        1000 < backoff_ms(attempts, jitter) <= MAX_RETRY_DELAY_MS,
        backoff_ms(attempts, jitter) <= backoff_ms(attempts + 1, jitter),
{
    if attempts >= 5 {
        lemma_power_at_least(attempts);
    } else {
        reveal_with_fuel(crate::queue::power_of_two, 7);
    }
    assert(crate::queue::power_of_two(attempts + 1) == 2 * crate::queue::power_of_two(attempts));
}

// ---- what an error says ----

/// The words that tell that the service could not fetch a medium itself.
pub open spec fn fetch_markers() -> Seq<Seq<char>> {
    seq![
        "webpage_media_empty"@,
        "media_empty"@,
        "empty_web_media"@,
        "webpage_curl_failed"@,
        "timeout"@,
        "photo_invalid_dimensions"@,
    ]
}

/// The words that tell that a medium is too large.
pub open spec fn size_markers() -> Seq<Seq<char>> {
    seq!["too large"@, "too big"@]
}

/// Whether a text holds one of some words.
pub open spec fn mentions(s: Seq<char>, markers: Seq<Seq<char>>) -> bool {
    exists|i: int| 0 <= i < markers.len() && crate::text::has(s, #[trigger] markers[i])
}

/// Whether lower-cased words tell that the service could not fetch a medium.
pub fn mentions_fetch_failure(lowered: &str) -> (r: bool)
    ensures
        r == mentions(lowered@, fetch_markers()),
{
    let r = contains(lowered, "webpage_media_empty") || contains(lowered, "media_empty")
        || contains(lowered, "empty_web_media") || contains(lowered, "webpage_curl_failed")
        || contains(lowered, "timeout") || contains(lowered, "photo_invalid_dimensions");
    proof {
        let m = fetch_markers();
        assert(m[0] == "webpage_media_empty"@);
        assert(m[1] == "media_empty"@);
        assert(m[2] == "empty_web_media"@);
        assert(m[3] == "webpage_curl_failed"@);
        assert(m[4] == "timeout"@);
        assert(m[5] == "photo_invalid_dimensions"@);
        assert(m.len() == 6);
    }
    r
}

/// Whether lower-cased words tell that a medium is too large.
pub fn mentions_size(lowered: &str) -> (r: bool)
    ensures
        r == mentions(lowered@, size_markers()),
{
    let r = contains(lowered, "too large") || contains(lowered, "too big");
    proof {
        let m = size_markers();
        assert(m[0] == "too large"@);
        assert(m[1] == "too big"@);
        assert(m.len() == 2);
    }
    r
}

/// The service failed to fetch a URL: downloading the medium and uploading it is
/// the way out, sending the URL again is not.
pub open spec fn fetch_failure(e: ApiError) -> bool {
    mentions(crate::text::lowercase_of(e.description@), fetch_markers())
}

pub fn is_media_fetch_failure(e: &ApiError) -> (r: bool)
    ensures
        r == fetch_failure(*e),
{
    let lowered = lowercase(e.description.as_str());
    mentions_fetch_failure(lowered.as_str())
}

/// The service found a medium too large: a smaller variant is the way out.
pub open spec fn size_failure(e: ApiError) -> bool {
    e.entity_too_large || mentions(crate::text::lowercase_of(e.description@), size_markers())
}

pub fn is_size_error(e: &ApiError) -> (r: bool)
    ensures
        r == size_failure(*e),
{
    if e.entity_too_large {
        return true;
    }
    let lowered = lowercase(e.description.as_str());
    mentions_size(lowered.as_str())
}

/// Whether a failed send is to be tried again as an upload.
pub open spec fn asks_for_upload(e: RequestError) -> bool {
    match e.kind {
        RequestErrorKind::Api(api) => fetch_failure(api) || size_failure(api),
        _ => false,
    }
}

pub fn needs_upload(e: &RequestError) -> (r: bool)
    ensures
        r == asks_for_upload(*e),
{
    match &e.kind {
        RequestErrorKind::Api(api) => is_media_fetch_failure(api) || is_size_error(api),
        _ => false,
    }
}

/// What is to be done about a failed request.
#[derive(Debug)]
pub enum Classification {
    /// Try again after this many milliseconds.
    Retryable { delay_ms: u64 },
    /// Give up.
    Permanent { message: String },
    /// The service could not fetch the medium.
    MediaFetchFailure,
}

/// [`Classification`] over mathematical text.
pub enum ClassView {
    Retryable { delay_ms: int },
    Permanent { message: Seq<char> },
    MediaFetchFailure,
}

impl View for Classification {
    type V = ClassView;

    open spec fn view(&self) -> ClassView {
        match self {
            Classification::Retryable { delay_ms } => ClassView::Retryable {
                delay_ms: *delay_ms as int,
            },
            Classification::Permanent { message } => ClassView::Permanent { message: message@ },
            Classification::MediaFetchFailure => ClassView::MediaFetchFailure,
        }
    }
}

/// What is to be done about a failed request, given the jitter of a retry.
pub open spec fn classified(e: RequestError, jitter: int) -> ClassView {
    match e.kind {
        RequestErrorKind::RetryAfter(seconds) => ClassView::Retryable {
            delay_ms: seconds * 1000,
        },
        RequestErrorKind::Network => ClassView::Retryable { delay_ms: backoff_ms(0, jitter) },
        RequestErrorKind::Api(api) => if fetch_failure(api) {
            ClassView::MediaFetchFailure
        } else {
            ClassView::Permanent { message: api.description@ }
        },
        RequestErrorKind::Other => ClassView::Permanent { message: e.text@ },
    }
}

/// Classifies a failed request with a given jitter.
pub fn classify_with(e: &RequestError, jitter: u64) -> (r: Classification)
    requires
        jitter <= JITTER_TO_MS,
    ensures
        r@ == classified(*e, jitter as int),
{
    match &e.kind {
        RequestErrorKind::RetryAfter(seconds) => Classification::Retryable {
            delay_ms: *seconds as u64 * 1000,
        },
        RequestErrorKind::Network => Classification::Retryable {
            delay_ms: jittered_delay(0, jitter),
        },
        RequestErrorKind::Api(api) => if is_media_fetch_failure(api) {
            Classification::MediaFetchFailure
        } else {
            Classification::Permanent { message: api.description.clone() }
        },
        RequestErrorKind::Other => Classification::Permanent { message: e.text.clone() },
    }
}

/// Classifies a failed request.
pub fn classify_request_error(e: &RequestError) -> (r: Classification)
    ensures
        exists|jitter: int|
            JITTER_FROM_MS <= jitter < JITTER_TO_MS && r@ == #[trigger] classified(*e, jitter),
{
    let jitter: u64 = draw_jitter();
    let r = classify_with(e, jitter);
    assert(r@ == classified(*e, jitter as int));
    r
}

// ---- a failed task ----

/// A task that did not go through. It carries its own state for the next
/// attempt.
#[derive(Debug)]
pub enum SendError {
    Retryable { delay_ms: u64, task: Task },
    Permanent { message: String, task: Task },
}

/// [`SendError`] over mathematical values.
pub enum SendErrorView {
    Retryable { delay_ms: int, task: TaskView },
    Permanent { message: Seq<char>, task: TaskView },
}

impl View for SendError {
    type V = SendErrorView;

    open spec fn view(&self) -> SendErrorView {
        match self {
            SendError::Retryable { delay_ms, task } => SendErrorView::Retryable {
                delay_ms: *delay_ms as int,
                task: task@,
            },
            SendError::Permanent { message, task } => SendErrorView::Permanent {
                message: message@,
                task: task@,
            },
        }
    }
}

/// What a failed request makes of a task. `label` is said where the service could
/// not fetch a medium and there is no way left.
pub open spec fn task_error(
    e: RequestError,
    task: TaskView,
    label: Seq<char>,
    jitter: int,
) -> SendErrorView {
    match classified(e, jitter) {
        ClassView::Retryable { delay_ms } => SendErrorView::Retryable { delay_ms, task },
        ClassView::Permanent { message } => SendErrorView::Permanent { message, task },
        ClassView::MediaFetchFailure => SendErrorView::Permanent { message: label, task },
    }
}

pub fn classify_to_send_error(e: &RequestError, task: Task, label: &str, jitter: u64) -> (r:
    SendError)
    requires
        jitter <= JITTER_TO_MS,
    ensures
        r@ == task_error(*e, task@, label@, jitter as int),
{
    match classify_with(e, jitter) {
        Classification::Retryable { delay_ms } => SendError::Retryable { delay_ms, task },
        Classification::Permanent { message } => SendError::Permanent { message, task },
        Classification::MediaFetchFailure => SendError::Permanent {
            message: label.to_owned(),
            task,
        },
    }
}

/// A failed attempt to prepare a medium for upload.
#[derive(Debug)]
pub enum FallbackError {
    Retryable { delay_ms: u64 },
    Permanent { message: String },
}

/// [`FallbackError`] over mathematical text.
pub enum FallbackView {
    Retryable { delay_ms: int },
    Permanent { message: Seq<char> },
}

impl View for FallbackError {
    type V = FallbackView;

    open spec fn view(&self) -> FallbackView {
        match self {
            FallbackError::Retryable { delay_ms } => FallbackView::Retryable {
                delay_ms: *delay_ms as int,
            },
            FallbackError::Permanent { message } => FallbackView::Permanent { message: message@ },
        }
    }
}

/// A preparation error with the task it concerns.
pub open spec fn with_task(f: FallbackView, task: TaskView) -> SendErrorView {
    match f {
        FallbackView::Retryable { delay_ms } => SendErrorView::Retryable { delay_ms, task },
        FallbackView::Permanent { message } => SendErrorView::Permanent { message, task },
    }
}

impl SendError {
    pub fn from_fallback(f: FallbackError, task: Task) -> (r: SendError)
        ensures
            r@ == with_task(f@, task@),
    {
        match f {
            FallbackError::Retryable { delay_ms } => SendError::Retryable { delay_ms, task },
            FallbackError::Permanent { message } => SendError::Permanent { message, task },
        }
    }
}

/// A wait that the service asked for is kept to the second.
pub proof fn law_requested_waits_are_kept(
    seconds: u32,
    text: String,
    task: TaskView,
    label: Seq<char>,
    jitter: int,
)
    ensures
        task_error(
            RequestError { kind: RequestErrorKind::RetryAfter(seconds), text },
            task,
            label,
            jitter,
        ) == (SendErrorView::Retryable { delay_ms: seconds * 1000, task }),
{
}

/// A wait starts at a second and doubles with each attempt, on top of its jitter, until
/// it reaches half a minute.
pub proof fn law_waits_double(jitter: int)
    requires
        200 <= jitter < 800,
    ensures
        backoff_ms(0, jitter) == 1000 + jitter,
        backoff_ms(1, jitter) == 2000 + jitter,
        backoff_ms(2, jitter) == 4000 + jitter,
        backoff_ms(3, jitter) == 8000 + jitter,
        backoff_ms(4, jitter) == 16000 + jitter,
        forall|n: nat| n >= 5 ==> #[trigger] backoff_ms(n, jitter) == 30000,
{
    reveal_with_fuel(crate::queue::power_of_two, 6);
    assert forall|n: nat| n >= 5 implies #[trigger] backoff_ms(n, jitter) == 30000 by {
        lemma_power_at_least(n);
    }
}

/// A request is repeated only where the service asked for it or was not reached; what
/// the service refused is refused for good, in its own words. A medium that the service
/// could not fetch, or that is too large for it, is uploaded, and nothing else is.
pub proof fn law_refusals_are_final(e: RequestError, jitter: int)
    ensures
        match e.kind {
            RequestErrorKind::RetryAfter(seconds) => classified(e, jitter)
                matches ClassView::Retryable { delay_ms } && delay_ms == 1000 * seconds,
            RequestErrorKind::Network => classified(e, jitter) matches ClassView::Retryable {
                delay_ms,
            } && delay_ms == backoff_ms(0, jitter),
            RequestErrorKind::Api(api) => if fetch_failure(api) {
                classified(e, jitter) is MediaFetchFailure
            } else {
                classified(e, jitter) matches ClassView::Permanent { message } && message
                    == api.description@
            },
            RequestErrorKind::Other => classified(e, jitter) matches ClassView::Permanent {
                message,
            } && message == e.text@,
        },
        asks_for_upload(e) ==> e.kind is Api,
        e.kind matches RequestErrorKind::Api(api) ==> (asks_for_upload(e) <==> fetch_failure(api)
            || size_failure(api)),
{
}

/// Any of the words that tell of a failed fetch, or of a medium that is too large, is
/// found wherever it stands and however it is capitalised.
pub proof fn law_telling_words_are_found(api: ApiError)
    ensures
        ({
            let said = crate::text::lowercase_of(api.description@);
            &&& fetch_failure(api) <==> crate::text::has(said, "webpage_media_empty"@)
                || crate::text::has(said, "media_empty"@) || crate::text::has(
                said,
                "empty_web_media"@,
            ) || crate::text::has(said, "webpage_curl_failed"@) || crate::text::has(
                said,
                "timeout"@,
            ) || crate::text::has(said, "photo_invalid_dimensions"@)
            &&& size_failure(api) <==> api.entity_too_large || crate::text::has(said, "too large"@)
                || crate::text::has(said, "too big"@)
        }),
{
    let m = fetch_markers();
    assert(m[0] == "webpage_media_empty"@);
    assert(m[1] == "media_empty"@);
    assert(m[2] == "empty_web_media"@);
    assert(m[3] == "webpage_curl_failed"@);
    assert(m[4] == "timeout"@);
    assert(m[5] == "photo_invalid_dimensions"@);
    assert(m.len() == 6);
    let s = size_markers();
    assert(s[0] == "too large"@);
    assert(s[1] == "too big"@);
    assert(s.len() == 2);
}

/// A failure never touches the task it is about, and keeps its wait or its reason.
pub proof fn law_failures_keep_their_task(
    e: RequestError,
    f: FallbackView,
    t: TaskView,
    label: Seq<char>,
    jitter: int,
)
    ensures
        match task_error(e, t, label, jitter) {
            SendErrorView::Retryable { delay_ms, task } => task == t && classified(e, jitter) == (
            ClassView::Retryable { delay_ms }),
            SendErrorView::Permanent { message, task } => task == t && match classified(e, jitter) {
                ClassView::Retryable { .. } => false,
                ClassView::Permanent { message: said } => message == said,
                ClassView::MediaFetchFailure => message == label,
            },
        },
        match (f, with_task(f, t)) {
            (
                FallbackView::Retryable { delay_ms: wait },
                SendErrorView::Retryable { delay_ms, task },
            ) => task == t && delay_ms == wait,
            (
                FallbackView::Permanent { message: said },
                SendErrorView::Permanent { message, task },
            ) => task == t && message == said,
            _ => false,
        },
{
}

} // verus!
