//! Links in messages: which of them count, and what is sent for one.
use crate::link_cache::{CachedMedia, CachedMediaKind, CachedPost, MediaView, PostView};
use crate::send::classify::{SendError, SendErrorView};
use crate::send::task::{Delivery, ItemView, MediaItemPayload, Task, TaskView};
use crate::site::{cached_snapshot, fetch_error_message, payloads, FetchError, Fetched};
use crate::state::{ChatData, ChatView};
use crate::text::{chars_of, decimal, same};
use vstd::prelude::*;

verus! {

// ---- the links of a message ----

/// What a part of a message is.
#[derive(Debug)]
pub enum EntityKind {
    /// A URL that is its own text.
    Url,
    /// Words that link somewhere.
    TextLink(String),
    /// Anything without a link, such as a hashtag.
    Other,
}

/// A part of a message and its text.
#[derive(Debug)]
pub struct Entity {
    pub kind: EntityKind,
    pub text: String,
    /// The key of the post that its link leads to, where it has one that a site
    /// knows.
    pub key: Option<String>,
}

/// The link that a part of a message carries.
pub open spec fn link_in(e: Entity) -> Option<Seq<char>> {
    match e.kind {
        EntityKind::Url => Some(e.text@),
        EntityKind::TextLink(url) => Some(url@),
        EntityKind::Other => None,
    }
}

pub fn url_of(kind: &EntityKind, text: &str) -> (r: Option<String>)
    ensures
        crate::json::text_option(r) == match *kind {
            EntityKind::Url => Some(text@),
            EntityKind::TextLink(url) => Some(url@),
            EntityKind::Other => None,
        },
{
    match kind {
        EntityKind::Url => Some(text.to_owned()),
        EntityKind::TextLink(url) => Some(url.clone()),
        EntityKind::Other => None,
    }
}

/// A link, and the key of the post it leads to where a site knows it.
#[derive(Debug)]
pub struct PostLink {
    pub url: String,
    pub key: Option<String>,
}

/// [`PostLink`] over mathematical text.
#[verifier::ext_equal]
pub struct LinkView {
    pub url: Seq<char>,
    pub key: Option<Seq<char>>,
}

impl View for PostLink {
    type V = LinkView;

    open spec fn view(&self) -> LinkView {
        LinkView { url: self.url@, key: crate::json::text_option(self.key) }
    }
}

pub open spec fn link_views(v: Seq<PostLink>) -> Seq<LinkView> {
    v.map_values(|l: PostLink| l@)
}

/// What tells links apart: the post where it is known, else the link itself.
pub open spec fn link_id(l: LinkView) -> Seq<char> {
    match l.key {
        Some(key) => key,
        None => l.url,
    }
}

/// Whether a link's post was linked to before.
pub open spec fn repeated(s: Seq<LinkView>, l: LinkView) -> bool {
    exists|j: int| 0 <= j < s.len() && link_id(#[trigger] s[j]) == link_id(l)
}

/// The first link to each post, in order.
pub open spec fn deduped(s: Seq<LinkView>) -> Seq<LinkView>
    decreases s.len(),
{
    if s.len() == 0 {
        Seq::empty()
    } else if repeated(s.drop_last(), s.last()) {
        deduped(s.drop_last())
    } else {
        deduped(s.drop_last()).push(s.last())
    }
}

/// The links that some site knows.
pub open spec fn supported(s: Seq<LinkView>) -> Seq<LinkView> {
    s.filter(|l: LinkView| l.key is Some)
}

pub open spec fn link_urls(s: Seq<LinkView>) -> Seq<Seq<char>> {
    s.map_values(|l: LinkView| l.url)
}

fn id_of(l: &PostLink) -> (r: String)
    ensures
        r@ == link_id(l@),
{
    match &l.key {
        Some(key) => key.clone(),
        None => l.url.clone(),
    }
}

fn was_seen(links: &Vec<PostLink>, i: usize) -> (r: bool)
    requires
        i < links@.len(),
    ensures
        r == repeated(link_views(links@).take(i as int), links@[i as int]@),
{
    let id = id_of(&links[i]);
    let ghost before = link_views(links@).take(i as int);
    let mut j: usize = 0;
    while j < i
        invariant
            i < links@.len(),
            j <= i,
            before == link_views(links@).take(i as int),
            id@ == link_id(links@[i as int]@),
            forall|k: int| 0 <= k < j ==> link_id(#[trigger] before[k]) != id@,
        decreases i - j,
    {
        assert(before[j as int] == links@[j as int]@);
        if same(id_of(&links[j]).as_str(), id.as_str()) {
            assert(link_id(before[j as int]) == id@);
            return true;
        }
        j = j + 1;
    }
    false
}

/// Which of some links are the first to their post.
fn first_links(links: &Vec<PostLink>, only_supported: bool) -> (r: Vec<String>)
    ensures
        crate::text::texts(r@) == link_urls(
            if only_supported {
                supported(deduped(link_views(links@)))
            } else {
                deduped(link_views(links@))
            },
        ),
{
    let ghost all = link_views(links@);
    let ghost known = |l: LinkView| l.key is Some;
    let mut out: Vec<String> = Vec::new();
    let mut i: usize = 0;
    proof {
        reveal(Seq::filter);
        assert(deduped(all.take(0)) =~= Seq::<LinkView>::empty());
        assert(supported(deduped(all.take(0))) =~= Seq::<LinkView>::empty());
        assert(crate::text::texts(out@) =~= link_urls(Seq::<LinkView>::empty()));
    }
    while i < links.len()
        invariant
            all == link_views(links@),
            known == (|l: LinkView| l.key is Some),
            i <= links@.len(),
            crate::text::texts(out@) == link_urls(
                if only_supported {
                    supported(deduped(all.take(i as int)))
                } else {
                    deduped(all.take(i as int))
                },
            ),
        decreases links@.len() - i,
    {
        let ghost before = deduped(all.take(i as int));
        let ghost l = links@[i as int]@;
        proof {
            assert(all.take(i + 1).drop_last() =~= all.take(i as int));
            assert(all.take(i + 1).last() == l);
        }
        if !was_seen(links, i) {
            proof {
                assert(deduped(all.take(i + 1)) == before.push(l));
                reveal(Seq::filter);
                assert(before.push(l).drop_last() =~= before);
            }
            if !only_supported || links[i].key.is_some() {
                let ghost had = out@;
                out.push(links[i].url.clone());
                proof {
                    assert(crate::text::texts(out@) =~= crate::text::texts(had).push(l.url));
                    assert(link_urls(before.push(l)) =~= link_urls(before).push(l.url));
                    assert(link_urls(supported(before).push(l)) =~= link_urls(
                        supported(before),
                    ).push(l.url));
                }
            }
        }
        i = i + 1;
    }
    assert(all.take(i as int) =~= all);
    out
}

/// Keeps the first link to each post.
pub fn dedupe_urls(links: &Vec<PostLink>) -> (r: Vec<String>)
    ensures
        crate::text::texts(r@) == link_urls(deduped(link_views(links@))),
{
    first_links(links, false)
}

/// The links of a message, in order.
pub open spec fn links_in(s: Seq<Entity>) -> Seq<LinkView>
    decreases s.len(),
{
    if s.len() == 0 {
        Seq::empty()
    } else {
        match link_in(s.last()) {
            Some(url) => links_in(s.drop_last()).push(
                LinkView { url, key: crate::json::text_option(s.last().key) },
            ),
            None => links_in(s.drop_last()),
        }
    }
}

/// The links of a message, each post's first one, in order.
pub fn extract_urls(entities: &Vec<Entity>) -> (r: Vec<String>)
    ensures
        crate::text::texts(r@) == link_urls(deduped(links_in(entities@))),
{
    let mut links: Vec<PostLink> = Vec::new();
    let mut i: usize = 0;
    assert(link_views(links@) =~= links_in(entities@.take(0)));
    while i < entities.len()
        invariant
            i <= entities@.len(),
            link_views(links@) == links_in(entities@.take(i as int)),
        decreases entities@.len() - i,
    {
        proof {
            assert(entities@.take(i + 1).drop_last() =~= entities@.take(i as int));
            assert(entities@.take(i + 1).last() == entities@[i as int]);
        }
        let ghost had = links@;
        match url_of(&entities[i].kind, entities[i].text.as_str()) {
            Some(url) => {
                let key = match &entities[i].key {
                    Some(key) => Some(key.clone()),
                    None => None,
                };
                let link = PostLink { url, key };
                let ghost seen = link@;
                links.push(link);
                assert(link_views(links@) =~= link_views(had).push(seen));
            },
            None => {},
        }
        i = i + 1;
    }
    assert(entities@.take(i as int) =~= entities@);
    dedupe_urls(&links)
}

/// The first link to each post that some site knows.
pub fn supported_urls(links: &Vec<PostLink>) -> (r: Vec<String>)
    ensures
        crate::text::texts(r@) == link_urls(supported(deduped(link_views(links@)))),
{
    first_links(links, true)
}

// ---- the task for a link ----

/// Whether what follows a send in the chat follows this one.
#[derive(Clone, Copy, Debug, PartialEq, Eq, Structural)]
pub enum PostSend {
    /// As the chat is set.
    FromChat,
    /// Send only.
    Suppressed,
}

/// How a link's media are delivered.
pub open spec fn delivery(c: ChatView, chat_id: i64, reply_to: i64, post_send: PostSend) -> Delivery {
    Delivery {
        chat_id,
        reply_to_message_id: reply_to,
        edit_before_forward: post_send == PostSend::FromChat && c.edit_before_forward,
        forward_channel_id: if post_send == PostSend::FromChat {
            c.forward_channel_id
        } else {
            None
        },
        notify_chat_id: Some(chat_id),
        notify_message_id: Some(reply_to),
    }
}

pub fn build_send_task(
    chat: &ChatData,
    chat_id: i64,
    reply_to: i64,
    source_url: String,
    caption: String,
    items: Vec<MediaItemPayload>,
    cache_data: Option<CachedPost>,
    post_send: PostSend,
) -> (r: Task)
    ensures
        r@ == crate::send::task::task_of(
            delivery(chat@, chat_id, reply_to, post_send),
            source_url@,
            caption@,
            crate::send::task::item_views(items@),
            crate::link_cache::post_option(cache_data),
        ),
{
    let from_chat = post_send == PostSend::FromChat;
    Task::from_items(
        Delivery {
            chat_id,
            reply_to_message_id: reply_to,
            edit_before_forward: from_chat && chat.edit_before_forward,
            forward_channel_id: if from_chat {
                chat.forward_channel_id
            } else {
                None
            },
            notify_chat_id: Some(chat_id),
            notify_message_id: Some(reply_to),
        },
        source_url,
        caption,
        items,
        cache_data,
    )
}

/// A cached medium as part of a task: by its file id where it still has one, else
/// by its URL.
pub open spec fn cached_item(m: MediaView, sensitive: bool) -> ItemView {
    let by_id = m.file_id.len() > 0;
    let media = if by_id {
        m.file_id
    } else {
        m.url
    };
    match m.kind {
        CachedMediaKind::Photo => ItemView::Photo {
            media,
            has_spoiler: sensitive,
            fallback_url: None,
            file_id: by_id,
        },
        CachedMediaKind::Video => ItemView::Video {
            media,
            has_spoiler: sensitive,
            thumbnail: None,
            fallback_url: None,
            file_id: by_id,
        },
        CachedMediaKind::Animation => ItemView::Animation {
            media,
            has_spoiler: sensitive,
            file_id: by_id,
        },
    }
}

pub fn cached_media_payload(m: &CachedMedia, sensitive: bool) -> (r: MediaItemPayload)
    ensures
        r@ == cached_item(m@, sensitive),
{
    let by_id = chars_of(m.file_id.as_str()).len() > 0;
    let media = if by_id {
        m.file_id.clone()
    } else {
        m.url.clone()
    };
    match m.kind {
        CachedMediaKind::Photo => MediaItemPayload::Photo {
            media,
            has_spoiler: sensitive,
            fallback_url: None,
            file_id: by_id,
        },
        CachedMediaKind::Video => MediaItemPayload::Video {
            media,
            has_spoiler: sensitive,
            thumbnail: None,
            fallback_url: None,
            file_id: by_id,
        },
        CachedMediaKind::Animation => MediaItemPayload::Animation {
            media,
            has_spoiler: sensitive,
            file_id: by_id,
        },
    }
}

pub open spec fn cached_items(media: Seq<MediaView>, sensitive: bool) -> Seq<ItemView> {
    media.map_values(|m: MediaView| cached_item(m, sensitive))
}

fn cached_payloads(media: &Vec<CachedMedia>, sensitive: bool) -> (r: Vec<MediaItemPayload>)
    ensures
        crate::send::task::item_views(r@) == cached_items(
            crate::link_cache::media_views(media@),
            sensitive,
        ),
{
    let mut out: Vec<MediaItemPayload> = Vec::new();
    let mut i: usize = 0;
    while i < media.len()
        invariant
            i <= media@.len(),
            out@.len() == i,
            forall|j: int|
                0 <= j < i ==> (#[trigger] out@[j])@ == cached_item(media@[j]@, sensitive),
        decreases media@.len() - i,
    {
        out.push(cached_media_payload(&media[i], sensitive));
        i = i + 1;
    }
    assert(crate::send::task::item_views(out@) =~= cached_items(
        crate::link_cache::media_views(media@),
        sensitive,
    ));
    out
}

/// What the chat sees the bot doing.
#[derive(Clone, Copy, Debug, PartialEq, Eq, Structural)]
pub enum ActionHint {
    Typing,
    Photo,
    Video,
}

pub open spec fn hint_for(items: Seq<ItemView>) -> ActionHint {
    if exists|i: int| 0 <= i < items.len() && (#[trigger] items[i]) is Photo {
        ActionHint::Photo
    } else {
        ActionHint::Video
    }
}

impl ActionHint {
    /// A post with a photo is labelled as one: albums lead with their photos.
    pub fn for_items(items: &Vec<MediaItemPayload>) -> (r: ActionHint)
        ensures
            r == hint_for(crate::send::task::item_views(items@)),
    {
        let ghost all = crate::send::task::item_views(items@);
        let mut i: usize = 0;
        while i < items.len()
            invariant
                i <= items@.len(),
                all == crate::send::task::item_views(items@),
                forall|j: int| 0 <= j < i ==> !((#[trigger] all[j]) is Photo),
            decreases items@.len() - i,
        {
            assert(all[i as int] == items@[i as int]@);
            match &items[i] {
                MediaItemPayload::Photo { .. } => {
                    assert(all[i as int] is Photo);
                    return ActionHint::Photo;
                },
                _ => {},
            }
            i = i + 1;
        }
        ActionHint::Video
    }
}

// ---- what a link comes to ----

/// What a link comes to.
#[derive(Debug)]
pub enum UrlStep {
    /// No site knows it, and nobody is told.
    Ignore,
    Reply(String),
    Send { task: Task, hint: ActionHint },
}

/// [`UrlStep`] over mathematical values.
pub enum UrlStepView {
    Ignore,
    Reply(Seq<char>),
    Send { task: TaskView, hint: ActionHint },
}

impl View for UrlStep {
    type V = UrlStepView;

    open spec fn view(&self) -> UrlStepView {
        match self {
            UrlStep::Ignore => UrlStepView::Ignore,
            UrlStep::Reply(t) => UrlStepView::Reply(t@),
            UrlStep::Send { task, hint } => UrlStepView::Send { task: task@, hint: *hint },
        }
    }
}

/// Where a link is sent to.
#[derive(Clone, Copy, Debug)]
pub struct Target {
    pub chat_id: i64,
    pub reply_to: i64,
    pub post_send: PostSend,
}

/// What a post in the cache comes to, given the caption it gets.
pub open spec fn cached_step(
    c: ChatView,
    t: Target,
    post: PostView,
    caption: Seq<char>,
) -> UrlStepView {
    let items = cached_items(post.media, post.sensitive);
    UrlStepView::Send {
        task: crate::send::task::task_of(
            delivery(c, t.chat_id, t.reply_to, t.post_send),
            post.url,
            caption,
            items,
            Some(post),
        ),
        hint: hint_for(items),
    }
}

/// Sends a post out of the cache. `rendered` is its caption in the chat's format,
/// and `text` its title and content, which are quoted within the caption where
/// they are at least `quote_chars` long.
pub fn send_cached(
    chat: &ChatData,
    target: Target,
    post: CachedPost,
    rendered: &str,
    text: &str,
    quote_chars: usize,
) -> (r: UrlStep)
    ensures
        exists|caption: Seq<char>|
            #[trigger] crate::caption::quotes(rendered@, text@, quote_chars as int, caption) && r@
                == cached_step(chat@, target, post@, caption),
{
    let caption = crate::caption::quote_long_caption(rendered, text, quote_chars);
    let ghost shown = caption@;
    let items = cached_payloads(&post.media, post.sensitive);
    let hint = ActionHint::for_items(&items);
    let ghost view = post@;
    let url = post.url.clone();
    let task = build_send_task(
        chat,
        target.chat_id,
        target.reply_to,
        url,
        caption,
        items,
        Some(post),
        target.post_send,
    );
    let r = UrlStep::Send { task, hint };
    assert(r@ == cached_step(chat@, target, view, shown));
    r
}

pub const NO_MEDIA_TEXT: &'static str = "No media found or media type is not supported.";

/// What a post that was fetched comes to, given the caption it gets.
pub open spec fn fetched_step(
    c: ChatView,
    t: Target,
    f: Fetched,
    caption: Seq<char>,
) -> UrlStepView {
    if f.media@.len() == 0 {
        UrlStepView::Reply(NO_MEDIA_TEXT@)
    } else {
        let items = crate::site::as_items(
            crate::site::site_media_views(f.media@),
            f.sensitive,
        );
        UrlStepView::Send {
            task: crate::send::task::task_of(
                delivery(c, t.chat_id, t.reply_to, t.post_send),
                f.source_url@,
                caption,
                items,
                crate::site::snapshot_of(f),
            ),
            hint: hint_for(items),
        }
    }
}

/// What came back for a link: a post, nothing, or an error; the caption of a post
/// is the quoted one.
pub open spec fn url_step(
    c: ChatView,
    t: Target,
    outcome: Result<Option<Fetched>, FetchError>,
    caption: Seq<char>,
) -> UrlStepView {
    match outcome {
        Ok(None) => UrlStepView::Ignore,
        Err(e) => UrlStepView::Reply(crate::site::fetch_error_words(e)),
        Ok(Some(f)) => fetched_step(c, t, f, caption),
    }
}

/// Sends what was fetched for a link. `rendered`, `text` and `quote_chars` are as
/// in [`send_cached`].
pub fn url_media(
    chat: &ChatData,
    target: Target,
    outcome: &Result<Option<Fetched>, FetchError>,
    rendered: &str,
    text: &str,
    quote_chars: usize,
) -> (r: UrlStep)
    ensures
        exists|caption: Seq<char>|
            #[trigger] crate::caption::quotes(rendered@, text@, quote_chars as int, caption) && r@
                == url_step(chat@, target, *outcome, caption),
{
    let caption = crate::caption::quote_long_caption(rendered, text, quote_chars);
    let ghost shown = caption@;
    let r = match outcome {
        Ok(None) => UrlStep::Ignore,
        Err(e) => UrlStep::Reply(fetch_error_message(e)),
        Ok(Some(f)) => {
            if f.media.len() == 0 {
                UrlStep::Reply(NO_MEDIA_TEXT.to_owned())
            } else {
                let items = payloads(&f.media, f.sensitive);
                let hint = ActionHint::for_items(&items);
                let task = build_send_task(
                    chat,
                    target.chat_id,
                    target.reply_to,
                    f.source_url.clone(),
                    caption,
                    items,
                    cached_snapshot(f),
                    target.post_send,
                );
                UrlStep::Send { task, hint }
            }
        },
    };
    assert(r@ == url_step(chat@, target, *outcome, shown));
    r
}

// ---- after the send ----

/// What follows the attempt to send a link.
#[derive(Debug)]
pub enum DispatchStep {
    /// The messages are followed by their post-send actions.
    Sent(Vec<i64>),
    /// Queue the task; [`retry_reply`] says what the user is told.
    Enqueue { task: Task, delay_ms: u64 },
    /// Give the task up. `invalidate` says that the cache entry it was sent from
    /// stopped working.
    Failed { task: Task, invalidate: bool, reply: String },
}

/// [`DispatchStep`] over mathematical values.
pub enum DispatchView {
    Sent(Seq<i64>),
    Enqueue { task: TaskView, delay_ms: int },
    Failed { task: TaskView, invalidate: bool, reply: Seq<char> },
}

impl View for DispatchStep {
    type V = DispatchView;

    open spec fn view(&self) -> DispatchView {
        match self {
            DispatchStep::Sent(ids) => DispatchView::Sent(ids@),
            DispatchStep::Enqueue { task, delay_ms } => DispatchView::Enqueue {
                task: task@,
                delay_ms: *delay_ms as int,
            },
            DispatchStep::Failed { task, invalidate, reply } => DispatchView::Failed {
                task: task@,
                invalidate: *invalidate,
                reply: reply@,
            },
        }
    }
}

pub open spec fn dispatched(result: Result<Seq<i64>, SendErrorView>) -> DispatchView {
    match result {
        Ok(ids) => DispatchView::Sent(ids),
        Err(SendErrorView::Retryable { delay_ms, task }) => DispatchView::Enqueue {
            task,
            delay_ms,
        },
        Err(SendErrorView::Permanent { message, task }) => DispatchView::Failed {
            task,
            invalidate: crate::send::run::invalidated(task),
            reply: "Send failed: "@ + message,
        },
    }
}

pub fn dispatch_send(result: Result<Vec<i64>, SendError>) -> (r: DispatchStep)
    ensures
        r@ == dispatched(crate::send::post::ids_result(result)),
{
    match result {
        Ok(ids) => DispatchStep::Sent(ids),
        Err(SendError::Retryable { delay_ms, task }) => DispatchStep::Enqueue { task, delay_ms },
        Err(SendError::Permanent { message, task }) => {
            let invalidate = crate::send::run::invalidates_cache(&task);
            let mut reply = "Send failed: ".to_owned();
            reply.append(message.as_str());
            DispatchStep::Failed { task, invalidate, reply }
        },
    }
}

/// A number of milliseconds in whole seconds, to the nearest; a half goes to the
/// even one.
pub open spec fn nearest_second(ms: nat) -> nat {
    let whole = ms / 1000;
    let rest = ms % 1000;
    if rest > 500 || (rest == 500 && whole % 2 == 1) {
        whole + 1
    } else {
        whole
    }
}

pub fn rounded_seconds(ms: u64) -> (r: u64)
    ensures
        r == nearest_second(ms as nat),
{
    let whole: u64 = ms / 1000;
    let rest: u64 = ms % 1000;
    if rest > 500 || (rest == 500 && whole % 2 == 1) {
        whole + 1
    } else {
        whole
    }
}

/// What the user reads of a send that is to be tried again. A retry is promised
/// only where it was queued.
pub open spec fn retry_words(key: Seq<char>, delay_ms: nat, queued: bool) -> Seq<char> {
    if queued {
        "Send failed for "@ + key + " — retrying in "@ + crate::text::digits(
            nearest_second(delay_ms),
        ) + "s."@
    } else {
        "Send failed for "@ + key
            + " and the retry could not be queued — please send the link again."@
    }
}

pub fn retry_reply(key: Option<&str>, delay_ms: u64, queued: bool) -> (r: String)
    ensures
        r@ == retry_words(
            crate::queue::log_key_of(crate::queue::token_view(key)),
            delay_ms as nat,
            queued,
        ),
{
    let mut out = "Send failed for ".to_owned();
    out.append(crate::queue::log_key(key).as_str());
    if queued {
        out.append(" — retrying in ");
        out.append(decimal(rounded_seconds(delay_ms)).as_str());
        out.append("s.");
    } else {
        out.append(" and the retry could not be queued — please send the link again.");
    }
    out
}

// ---- laws ----

/// After the links were deduplicated no two lead to the same post, and every post
/// that was linked to is still there.
pub proof fn law_each_post_is_sent_once(s: Seq<LinkView>)
    ensures
        forall|i: int, j: int|
            0 <= i < j < deduped(s).len() ==> link_id(#[trigger] deduped(s)[i]) != link_id(
                #[trigger] deduped(s)[j],
            ),
        forall|i: int| 0 <= i < s.len() ==> repeated(deduped(s), #[trigger] s[i]),
        forall|i: int|
            0 <= i < deduped(s).len() ==> s.contains(#[trigger] deduped(s)[i]),
    decreases s.len(),
{
    if s.len() > 0 {
        let front = s.drop_last();
        let l = s.last();
        law_each_post_is_sent_once(front);
        assert forall|i: int| 0 <= i < deduped(s).len() implies s.contains(
            #[trigger] deduped(s)[i],
        ) by {
            if i < deduped(front).len() {
                assert(deduped(s)[i] == deduped(front)[i]);
                let k = front.index_of(deduped(front)[i]);
                assert(s[k] == deduped(s)[i]);
            } else {
                assert(s[s.len() - 1] == deduped(s)[i]);
            }
        }
        if repeated(front, l) {
            let j = choose|j: int| 0 <= j < front.len() && link_id(#[trigger] front[j]) == link_id(l);
            assert(repeated(deduped(front), front[j]));
            let k = choose|k: int|
                0 <= k < deduped(front).len() && link_id(#[trigger] deduped(front)[k]) == link_id(
                    front[j],
                );
            assert(link_id(deduped(s)[k]) == link_id(l));
            assert forall|i: int| 0 <= i < s.len() implies repeated(deduped(s), #[trigger] s[i]) by {
                if i < front.len() {
                    assert(repeated(deduped(front), front[i]));
                }
            }
        } else {
            let out = deduped(front).push(l);
            assert(deduped(s) == out);
            assert forall|i: int, j: int| 0 <= i < j < out.len() implies link_id(
                #[trigger] out[i],
            ) != link_id(#[trigger] out[j]) by {
                if j == out.len() - 1 {
                    assert(front.contains(deduped(front)[i]));
                    let k = front.index_of(deduped(front)[i]);
                    assert(link_id(front[k]) == link_id(out[i]));
                }
            }
            assert forall|i: int| 0 <= i < s.len() implies repeated(out, #[trigger] s[i]) by {
                if i < front.len() {
                    assert(repeated(deduped(front), front[i]));
                    let k = choose|k: int|
                        0 <= k < deduped(front).len() && link_id(#[trigger] deduped(front)[k])
                            == link_id(front[i]);
                    assert(link_id(out[k]) == link_id(s[i]));
                } else {
                    assert(link_id(out[out.len() - 1]) == link_id(s[i]));
                }
            }
        }
    }
}

/// A send whose post-send actions are suppressed neither opens a prompt nor
/// forwards, however the chat is set; whoever asked is still told of a failure.
pub proof fn law_test_sends_stay_in_the_chat(
    c: ChatView,
    chat_id: i64,
    reply_to: i64,
    source_url: Seq<char>,
    caption: Seq<char>,
    items: Seq<ItemView>,
    cache_data: Option<PostView>,
    ids: Seq<i64>,
    ttl: nat,
)
    ensures
        ({
            let t = crate::send::task::task_of(
                delivery(c, chat_id, reply_to, PostSend::Suppressed),
                source_url,
                caption,
                items,
                cache_data,
            );
            crate::send::post::follows_send(t, ids, c.template, ttl)
                == crate::send::post::PostSendView::Nothing && t.notify() == (
                Some(chat_id),
                Some(reply_to),
            )
        }),
{
}

/// A fetched post whose only medium is a moving picture goes out as an animation,
/// and in no album.
pub proof fn law_a_lone_gif_is_an_animation(
    c: ChatView,
    t: Target,
    f: Fetched,
    caption: Seq<char>,
)
    requires
        f.media@.len() == 1,
        f.media@[0]@.kind == CachedMediaKind::Animation,
    ensures
        fetched_step(c, t, f, caption) matches UrlStepView::Send { task, .. } && task
            matches TaskView::SendAnimation { animation, .. } && animation.url()
            == f.media@[0]@.url,
{
    assert(crate::site::site_media_views(f.media@)[0] == f.media@[0]@);
}

/// A post that comes out of the cache with its file ids is sent by them alone, in
/// order: no medium of it is fetched anew.
pub proof fn law_cached_posts_are_sent_by_file_id(media: Seq<MediaView>, sensitive: bool)
    requires
        forall|i: int| 0 <= i < media.len() ==> (#[trigger] media[i]).file_id.len() > 0,
    ensures
        cached_items(media, sensitive).len() == media.len(),
        forall|i: int|
            0 <= i < media.len() ==> (#[trigger] cached_items(media, sensitive)[i]).by_id()
                && cached_items(media, sensitive)[i].url() == media[i].file_id,
{
}

/// Of the links to one post the first one counts, and the links that count keep
/// their order; a link's post is what a site takes it for, whatever it looks like.
/// The result says where each of them stands.
pub proof fn law_links_keep_their_order(s: Seq<LinkView>) -> (at: Seq<int>)
    ensures
        forall|l: LinkView| #[trigger]
            link_id(l) == (if l.key is Some {
                l.key->0
            } else {
                l.url
            }),
        at.len() == deduped(s).len(),
        forall|i: int|
            0 <= i < at.len() ==> 0 <= #[trigger] at[i] < s.len() && deduped(s)[i] == s[at[i]],
        forall|i: int, j: int| 0 <= i < j < at.len() ==> #[trigger] at[i] < #[trigger] at[j],
        forall|i: int, c: int|
            0 <= i < at.len() && 0 <= c < at[i] ==> link_id(#[trigger] s[c]) != link_id(
                s[#[trigger] at[i]],
            ),
    decreases s.len(),
{
    if s.len() == 0 {
        Seq::empty()
    } else {
        let front = s.drop_last();
        let before = law_links_keep_their_order(front);
        assert forall|i: int| 0 <= i < before.len() implies deduped(front)[i]
            == s[#[trigger] before[i]] by {
            assert(front[before[i]] == s[before[i]]);
        }
        assert forall|i: int, c: int| 0 <= i < before.len() && 0 <= c < before[i] implies link_id(
            #[trigger] s[c],
        ) != link_id(s[#[trigger] before[i]]) by {
            assert(front[c] == s[c]);
            assert(front[before[i]] == s[before[i]]);
        }
        if repeated(front, s.last()) {
            before
        } else {
            let at = before.push(s.len() - 1);
            assert forall|i: int, c: int| 0 <= i < at.len() && 0 <= c < at[i] implies link_id(
                #[trigger] s[c],
            ) != link_id(s[#[trigger] at[i]]) by {
                if i == at.len() - 1 {
                    assert(front[c] == s[c]);
                } else {
                    assert(at[i] == before[i]);
                }
            }
            at
        }
    }
}

/// Of the links that count, those that no site knows are left out; the others stay,
/// in order.
pub proof fn law_only_known_links_are_sent(s: Seq<LinkView>)
    ensures
        forall|i: int| 0 <= i < supported(s).len() ==> (#[trigger] supported(s)[i]).key is Some,
        forall|i: int|
            0 <= i < s.len() && (#[trigger] s[i]).key is Some ==> supported(s).contains(s[i]),
        (forall|i: int| 0 <= i < s.len() ==> (#[trigger] s[i]).key is Some) ==> supported(s) == s,
    decreases s.len(),
{
    let known = |l: LinkView| l.key is Some;
    assert forall|i: int| 0 <= i < supported(s).len() implies (
    #[trigger] supported(s)[i]).key is Some by {
        s.lemma_filter_pred(known, i);
    }
    assert forall|i: int| 0 <= i < s.len() && (#[trigger] s[i]).key is Some implies supported(
        s,
    ).contains(s[i]) by {
        s.lemma_filter_contains(known, i);
    }
    if forall|i: int| 0 <= i < s.len() ==> (#[trigger] s[i]).key is Some {
        reveal(Seq::filter);
        if s.len() > 0 {
            assert forall|i: int| 0 <= i < s.drop_last().len() implies (
            #[trigger] s.drop_last()[i]).key is Some by {
                assert(s[i].key is Some);
            }
            law_only_known_links_are_sent(s.drop_last());
            assert(s[s.len() - 1].key is Some);
            assert(s.drop_last().push(s.last()) =~= s);
        } else {
            assert(supported(s) =~= s);
        }
    }
}

/// A message's links are read in the order of its parts: a URL in the text is its own
/// link, a linked word carries the one behind it, and nothing else is a link. The
/// result says which part each link came from.
pub proof fn law_links_are_read_in_order(parts: Seq<Entity>) -> (at: Seq<int>)
    ensures
        at.len() == links_in(parts).len(),
        forall|i: int| 0 <= i < at.len() ==> 0 <= #[trigger] at[i] < parts.len(),
        forall|i: int, j: int| 0 <= i < j < at.len() ==> #[trigger] at[i] < #[trigger] at[j],
        forall|i: int|
            0 <= i < at.len() ==> match parts[#[trigger] at[i]].kind {
                EntityKind::Url => links_in(parts)[i].url == parts[at[i]].text@,
                EntityKind::TextLink(url) => links_in(parts)[i].url == url@,
                EntityKind::Other => false,
            },
        forall|i: int|
            0 <= i < at.len() ==> links_in(parts)[i].key == crate::json::text_option(
                parts[#[trigger] at[i]].key,
            ),
        forall|k: int|
            0 <= k < parts.len() && !((#[trigger] parts[k]).kind is Other) ==> at.contains(k),
    decreases parts.len(),
{
    if parts.len() == 0 {
        Seq::empty()
    } else {
        let front = parts.drop_last();
        let before = law_links_are_read_in_order(front);
        assert forall|i: int| 0 <= i < before.len() implies front[#[trigger] before[i]]
            == parts[before[i]] by {}
        let at = if parts.last().kind is Other {
            before
        } else {
            before.push(parts.len() - 1)
        };
        assert forall|k: int|
            0 <= k < parts.len() && !((#[trigger] parts[k]).kind is Other) implies at.contains(
            k,
        ) by {
            if k < front.len() {
                assert(front[k] == parts[k]);
                let j = before.index_of(k);
                assert(at[j] == k);
            } else {
                assert(at[at.len() - 1] == k);
            }
        }
        at
    }
}

/// What follows a send is what the chat is set to, and whoever sent the link is told
/// of a failure, in reply to it.
pub proof fn law_sends_follow_the_chat(c: ChatView, chat: i64, reply_to: i64)
    ensures
        ({
            let d = delivery(c, chat, reply_to, PostSend::FromChat);
            &&& d.chat_id == chat
            &&& d.reply_to_message_id == reply_to
            &&& d.edit_before_forward == c.edit_before_forward
            &&& d.forward_channel_id == c.forward_channel_id
            &&& d.notify_chat_id == Some(chat)
            &&& d.notify_message_id == Some(reply_to)
        }),
        delivery(c, chat, reply_to, PostSend::Suppressed).chat_id == chat,
        delivery(c, chat, reply_to, PostSend::Suppressed).reply_to_message_id == reply_to,
{
}

/// Whether a post's media are all photos, or none is.
pub open spec fn of_one_kind(f: Fetched) -> bool {
    (forall|i: int|
        0 <= i < f.media@.len() ==> (#[trigger] f.media@[i])@.kind == CachedMediaKind::Photo) || (
    forall|i: int|
        0 <= i < f.media@.len() ==> (#[trigger] f.media@[i])@.kind != CachedMediaKind::Photo)
}

/// A post that was fetched is sent whole and in its own order. Its media, photos
/// first, fill albums of nine; a post of photos only, or without any, is sent in the
/// order of the post. It goes to the chat of the link, in reply to it, with the given
/// caption, and each medium is hidden exactly where the post is sensitive.
pub proof fn law_posts_are_sent_in_order(c: ChatView, t: Target, f: Fetched, words: Seq<char>)
    requires
        f.media@.len() > 0,
        f.media@.len() > 1 || f.media@[0]@.kind != CachedMediaKind::Animation,
    ensures
        fetched_step(c, t, f, words) matches UrlStepView::Send { task, .. } && task
            matches TaskView::SendMediaSequence {
            chat_id,
            reply_to_message_id,
            caption,
            media_batches,
            batch_index,
            sent_message_ids,
            source_url,
            cache_data,
            ..
        } && {
            &&& chat_id == t.chat_id
            &&& reply_to_message_id == t.reply_to
            &&& caption == words
            &&& source_url == f.source_url@
            &&& batch_index == 0
            &&& sent_message_ids.len() == 0
            &&& cache_data == crate::site::snapshot_of(f)
            &&& media_batches.len() == (f.media@.len() + 8) / 9
            &&& forall|k: int|
                0 <= k < media_batches.len() ==> (#[trigger] media_batches[k]).len() == if 9 * k + 9
                    <= f.media@.len() {
                    9
                } else {
                    f.media@.len() - 9 * k
                }
            &&& of_one_kind(f) ==> forall|k: int, j: int|
                0 <= k < media_batches.len() && 0 <= j < media_batches[k].len() ==> {
                    &&& (#[trigger] media_batches[k][j]).url() == f.media@[9 * k + j]@.url
                    &&& media_batches[k][j].spoiler() == f.sensitive
                    &&& media_batches[k][j] is Photo <==> f.media@[9 * k + j]@.kind
                        == CachedMediaKind::Photo
                }
        },
{
    let items = crate::site::as_items(crate::site::site_media_views(f.media@), f.sensitive);
    assert(stand_for(items, f)) by {
        lemma_items_of_post(f);
    }
    lemma_albums_of_post(f, items);
}

/// Whether parts of a task are the media of a post, one for one.
pub open spec fn stand_for(items: Seq<ItemView>, f: Fetched) -> bool {
    &&& items.len() == f.media@.len()
    &&& forall|i: int|
        0 <= i < items.len() ==> (#[trigger] items[i]) is Photo == (f.media@[i]@.kind
            == CachedMediaKind::Photo) && items[i].url() == f.media@[i]@.url && items[i].spoiler()
            == f.sensitive && (items[i] is Animation ==> items.len() == 1 && f.media@[i]@.kind
            == CachedMediaKind::Animation)
}

proof fn lemma_items_of_post(f: Fetched)
    ensures
        stand_for(
            crate::site::as_items(crate::site::site_media_views(f.media@), f.sensitive),
            f,
        ),
{
    let media = crate::site::site_media_views(f.media@);
    let items = crate::site::as_items(media, f.sensitive);
    crate::site::law_media_keep_their_order(media, f.sensitive);
    assert forall|i: int| 0 <= i < items.len() implies (#[trigger] items[i]) is Photo == (
    f.media@[i]@.kind == CachedMediaKind::Photo) && items[i].url() == f.media@[i]@.url
        && items[i].spoiler() == f.sensitive && (items[i] is Animation ==> items.len() == 1
        && f.media@[i]@.kind == CachedMediaKind::Animation) by {
        assert(media[i] == f.media@[i]@);
    }
}

proof fn lemma_order_of_post(f: Fetched, items: Seq<ItemView>)
    requires
        stand_for(items, f),
    ensures
        crate::send::task::photos_then_rest(items).len() == items.len(),
        of_one_kind(f) ==> forall|i: int|
            0 <= i < items.len() ==> #[trigger] crate::send::task::photos_then_rest(items)[i]
                == items[i],
{
    assert(crate::send::task::photos_then_rest(items).len() == items.len()) by {
        crate::send::task::law_photos_come_first(items);
    }
    if of_one_kind(f) {
        assert(crate::send::task::photos_then_rest(items) == items) by {
            lemma_one_kind(f, items);
            crate::send::task::law_media_of_one_kind_stay_in_order(items);
        }
    }
}

proof fn lemma_one_kind(f: Fetched, items: Seq<ItemView>)
    requires
        stand_for(items, f),
        of_one_kind(f),
    ensures
        (forall|i: int| 0 <= i < items.len() ==> (#[trigger] items[i]) is Photo) || (forall|i: int|
            0 <= i < items.len() ==> !((#[trigger] items[i]) is Photo)),
{
    if forall|i: int|
        0 <= i < f.media@.len() ==> (#[trigger] f.media@[i])@.kind == CachedMediaKind::Photo {
        assert forall|i: int| 0 <= i < items.len() implies (#[trigger] items[i]) is Photo by {
            assert(f.media@[i]@.kind == CachedMediaKind::Photo);
        }
    } else {
        assert forall|i: int| 0 <= i < items.len() implies !((#[trigger] items[i]) is Photo) by {
            assert(f.media@[i]@.kind != CachedMediaKind::Photo);
        }
    }
}

proof fn lemma_albums_of_post(f: Fetched, items: Seq<ItemView>)
    requires
        stand_for(items, f),
    ensures
        ({
            let albums = crate::send::task::chunks(crate::send::task::photos_then_rest(items));
            &&& albums.len() == (f.media@.len() + 8) / 9
            &&& forall|k: int|
                0 <= k < albums.len() ==> (#[trigger] albums[k]).len() == if 9 * k + 9
                    <= f.media@.len() {
                    9
                } else {
                    f.media@.len() - 9 * k
                }
            &&& of_one_kind(f) ==> forall|k: int, j: int|
                0 <= k < albums.len() && 0 <= j < albums[k].len() ==> {
                    &&& (#[trigger] albums[k][j]).url() == f.media@[9 * k + j]@.url
                    &&& albums[k][j].spoiler() == f.sensitive
                    &&& albums[k][j] is Photo <==> f.media@[9 * k + j]@.kind
                        == CachedMediaKind::Photo
                }
        }),
{
    let ordered = crate::send::task::photos_then_rest(items);
    lemma_order_of_post(f, items);
    lemma_in_albums(f, items, ordered);
}

proof fn lemma_in_albums(f: Fetched, items: Seq<ItemView>, ordered: Seq<ItemView>)
    requires
        stand_for(items, f),
        ordered.len() == items.len(),
        of_one_kind(f) ==> forall|i: int|
            0 <= i < items.len() ==> #[trigger] ordered[i] == items[i],
    ensures
        ({
            let albums = crate::send::task::chunks(ordered);
            &&& albums.len() == (f.media@.len() + 8) / 9
            &&& forall|k: int|
                0 <= k < albums.len() ==> (#[trigger] albums[k]).len() == if 9 * k + 9
                    <= f.media@.len() {
                    9
                } else {
                    f.media@.len() - 9 * k
                }
            &&& of_one_kind(f) ==> forall|k: int, j: int|
                0 <= k < albums.len() && 0 <= j < albums[k].len() ==> {
                    &&& (#[trigger] albums[k][j]).url() == f.media@[9 * k + j]@.url
                    &&& albums[k][j].spoiler() == f.sensitive
                    &&& albums[k][j] is Photo <==> f.media@[9 * k + j]@.kind
                        == CachedMediaKind::Photo
                }
        }),
{
    let albums = crate::send::task::chunks(ordered);
    crate::send::task::law_albums_are_filled_in_order(ordered);
    if of_one_kind(f) {
        assert forall|k: int, j: int| 0 <= k < albums.len() && 0 <= j < albums[k].len() implies {
            &&& (#[trigger] albums[k][j]).url() == f.media@[9 * k + j]@.url
            &&& albums[k][j].spoiler() == f.sensitive
            &&& albums[k][j] is Photo <==> f.media@[9 * k + j]@.kind == CachedMediaKind::Photo
        } by {
            assert(albums[k][j] == ordered[9 * k + j]);
            assert(ordered[9 * k + j] == items[9 * k + j]);
        }
    }
}

/// A post that was fetched is sent whole: the task's media are the post's, photos
/// first, each once; it goes where the link came from, under the post's own link, and
/// leaves the post for the cache.
pub proof fn law_fetched_posts_are_sent_whole(c: ChatView, t: Target, f: Fetched, words: Seq<char>)
    requires
        f.media@.len() > 0,
    ensures
        fetched_step(c, t, f, words) matches UrlStepView::Send { task, .. } && {
            &&& task.source() == Some(f.source_url@)
            &&& task.chat() == Some(t.chat_id)
            &&& task.notify() == (Some(t.chat_id), Some(t.reply_to))
            &&& task.cache() == crate::site::snapshot_of(f)
            &&& task.items() == crate::send::task::photos_then_rest(
                crate::site::as_items(crate::site::site_media_views(f.media@), f.sensitive),
            )
            &&& match task {
                TaskView::SendMediaSequence { caption, reply_to_message_id, .. } => caption == words
                    && reply_to_message_id == t.reply_to,
                TaskView::SendAnimation { caption, reply_to_message_id, .. } => caption == words
                    && reply_to_message_id == t.reply_to,
                TaskView::ForwardMessages { .. } => false,
            }
        },
{
    crate::send::task::law_task_sends_all_media(
        delivery(c, t.chat_id, t.reply_to, t.post_send),
        f.source_url@,
        words,
        crate::site::as_items(crate::site::site_media_views(f.media@), f.sensitive),
        crate::site::snapshot_of(f),
    );
}

/// A post out of the cache is sent as it was sent before: all its media in their
/// order, each of its own kind and hidden where the post is sensitive, by its file id
/// or, where that is gone, by its URL; under the link of the post, with the given
/// caption. The task remembers the entry that it came from.
pub proof fn law_cached_posts_are_sent_whole(c: ChatView, t: Target, post: PostView, words: Seq<char>)
    ensures
        cached_items(post.media, post.sensitive).len() == post.media.len(),
        forall|i: int|
            0 <= i < post.media.len() ==> {
                let item = #[trigger] cached_items(post.media, post.sensitive)[i];
                let m = post.media[i];
                &&& item.kind() == m.kind
                &&& item.spoiler() == post.sensitive
                &&& item.by_id() == (m.file_id.len() > 0)
                &&& item.url() == if m.file_id.len() > 0 {
                    m.file_id
                } else {
                    m.url
                }
                &&& item.fallback() is None
            },
        cached_step(c, t, post, words) matches UrlStepView::Send { task, .. } && {
            &&& task.source() == Some(post.url)
            &&& task.chat() == Some(t.chat_id)
            &&& task.notify() == (Some(t.chat_id), Some(t.reply_to))
            &&& task.cache() == Some(post)
            &&& task.items() == crate::send::task::photos_then_rest(
                cached_items(post.media, post.sensitive),
            )
            &&& match task {
                TaskView::SendMediaSequence { caption, reply_to_message_id, .. } => caption == words
                    && reply_to_message_id == t.reply_to,
                TaskView::SendAnimation { caption, reply_to_message_id, .. } => caption == words
                    && reply_to_message_id == t.reply_to,
                TaskView::ForwardMessages { .. } => false,
            }
        },
{
    crate::send::task::law_task_sends_all_media(
        delivery(c, t.chat_id, t.reply_to, t.post_send),
        post.url,
        words,
        cached_items(post.media, post.sensitive),
        Some(post),
    );
}

/// Where there is nothing to send, nothing is: an error and a post without media are
/// answered in words, and a link that no site knows is not answered at all.
pub proof fn law_nothing_is_sent_for_nothing(
    c: ChatView,
    t: Target,
    outcome: Result<Option<Fetched>, FetchError>,
    caption: Seq<char>,
)
    ensures
        url_step(c, t, outcome, caption) is Send <==> (outcome matches Ok(Some(f))
            && f.media@.len() > 0),
        url_step(c, t, outcome, caption) is Ignore <==> outcome == Ok::<
            Option<Fetched>,
            FetchError,
        >(None),
{
}

/// What the chat sees the bot doing is sending photos exactly where there is a photo
/// to send.
pub proof fn law_the_hint_tells_what_is_sent(items: Seq<ItemView>)
    ensures
        hint_for(items) == ActionHint::Photo || hint_for(items) == ActionHint::Video,
        hint_for(items) == ActionHint::Photo <==> exists|i: int|
            0 <= i < items.len() && (#[trigger] items[i]) is Photo,
{
}

/// A failed send is queued with its own task and wait, or given up for good with the
/// reason; a cache entry is given up only by a task that was sent from it.
pub proof fn law_failures_are_queued_or_told(result: Result<Seq<i64>, SendErrorView>)
    ensures
        match result {
            Ok(ids) => dispatched(result) matches DispatchView::Sent(sent) && sent == ids,
            Err(SendErrorView::Retryable { delay_ms: wait, task: t }) => dispatched(result)
                matches DispatchView::Enqueue { task, delay_ms } && task == t && delay_ms == wait,
            Err(SendErrorView::Permanent { message, task: t }) => dispatched(result)
                matches DispatchView::Failed { task, invalidate, reply } && task == t && (invalidate
                <==> t.cached_send()) && crate::text::has(reply, message),
        },
{
    if let Err(SendErrorView::Permanent { message, task }) = result {
        let reply = "Send failed: "@ + message;
        let at = "Send failed: "@.len();
        assert(reply.subrange(at as int, (at + message.len()) as int) =~= message);
        assert(crate::text::occurs_at(reply, message, at as int));
    }
}

/// A wait is told in the nearest whole second.
pub proof fn law_waits_are_told_to_the_nearest_second(ms: nat)
    ensures
        -500 <= 1000 * nearest_second(ms) - ms <= 500,
        ms % 1000 == 500 ==> nearest_second(ms) % 2 == 0,
{
}

/// What the user is told of a send that failed names the post, and tells of the wait
/// only where there will be a retry.
pub proof fn law_retries_are_promised_only_where_queued(key: Seq<char>, delay_ms: nat)
    ensures
        crate::text::has(retry_words(key, delay_ms, true), key),
        crate::text::has(retry_words(key, delay_ms, false), key),
        crate::text::has(
            retry_words(key, delay_ms, true),
            crate::text::digits(nearest_second(delay_ms)),
        ),
        crate::text::has(retry_words(key, delay_ms, false), "could not be queued"@),
{
    let none = Seq::<char>::empty();
    let front = "Send failed for "@;
    let seconds = crate::text::digits(nearest_second(delay_ms));
    let wait = " — retrying in "@;
    let queued = retry_words(key, delay_ms, true);
    crate::text::law_texts_are_found_where_they_stand(front, key, wait + seconds + "s."@, none);
    assert(queued =~= front + key + (wait + seconds + "s."@));
    crate::text::law_texts_are_found_where_they_stand(front + key + wait, seconds, "s."@, none);
    let lost = " and the retry could not be queued — please send the link again."@;
    crate::text::law_texts_are_found_where_they_stand(front, key, lost, none);
    reveal_strlit(" and the retry could not be queued — please send the link again.");
    reveal_strlit("could not be queued");
    let words = "could not be queued"@;
    assert(lost.subrange(15, 15 + words.len() as int) =~= words);
    assert(crate::text::occurs_at(lost, words, 15));
    crate::text::law_parts_of_parts_stand_in_the_whole(front + key, lost, none, words);
    assert(front + key + lost + none =~= front + key + lost);
}

} // verus!
