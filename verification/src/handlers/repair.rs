//! Queued retries whose files did not survive a restart: their posts are fetched
//! again.
use crate::link_cache::{CachedPost, PostView};
use crate::send::post::{notify_failure, Notice, NoticeView};
use crate::send::task::{duplicate_items, Delivery, ItemView, MediaItemPayload, Task, TaskView};
use crate::site::{cached_snapshot, payloads, Fetched};
use crate::text::same;
use vstd::prelude::*;

verus! {

/// A post that was fetched again.
#[derive(Debug)]
pub struct Refetched {
    pub caption: String,
    pub items: Vec<MediaItemPayload>,
    pub cache_data: Option<CachedPost>,
}

/// [`Refetched`] over mathematical values.
#[verifier::ext_equal]
pub struct RefetchedView {
    pub caption: Seq<char>,
    pub items: Seq<ItemView>,
    pub cache_data: Option<PostView>,
}

impl View for Refetched {
    type V = RefetchedView;

    open spec fn view(&self) -> RefetchedView {
        RefetchedView {
            caption: self.caption@,
            items: crate::send::task::item_views(self.items@),
            cache_data: crate::link_cache::post_option(self.cache_data),
        }
    }
}

/// Whether part of a task was delivered already.
pub open spec fn partly_sent(t: TaskView) -> bool {
    t matches TaskView::SendMediaSequence { batch_index, sent_message_ids, .. } && (batch_index > 0
        || sent_message_ids.len() > 0)
}

/// Whether a file that a task needs is not among those that are there.
pub open spec fn lacks_a_file(t: TaskView, present: Seq<Seq<char>>) -> bool {
    exists|i: int|
        0 <= i < crate::send::task::local_paths(t).len() && !present.contains(
            #[trigger] crate::send::task::local_paths(t)[i],
        )
}

fn is_listed(files: &Vec<String>, path: &str) -> (r: bool)
    ensures
        r == crate::text::texts(files@).contains(path@),
{
    let ghost all = crate::text::texts(files@);
    let mut i: usize = 0;
    while i < files.len()
        invariant
            all == crate::text::texts(files@),
            i <= files@.len(),
            forall|j: int| 0 <= j < i ==> #[trigger] all[j] != path@,
        decreases files@.len() - i,
    {
        assert(all[i as int] == files@[i as int]@);
        if same(files[i].as_str(), path) {
            assert(all[i as int] == path@);
            return true;
        }
        i = i + 1;
    }
    false
}

/// Whether a task's post has to be fetched again: a file it needs is gone. A task
/// that was delivered in part is left alone, so that nothing comes twice.
pub fn needs_refetch(task: &Task, present: &Vec<String>) -> (r: bool)
    ensures
        r == (!partly_sent(task@) && lacks_a_file(task@, crate::text::texts(present@))),
{
    match task {
        Task::SendMediaSequence { batch_index, sent_message_ids, .. } => {
            if *batch_index > 0 || sent_message_ids.len() > 0 {
                return false;
            }
        },
        _ => {},
    }
    let paths = task.local_media_paths();
    let ghost files = crate::send::task::local_paths(task@);
    let mut i: usize = 0;
    while i < paths.len()
        invariant
            !partly_sent(task@),
            files == crate::send::task::local_paths(task@),
            files == crate::text::texts(paths@),
            i <= paths@.len(),
            forall|j: int|
                0 <= j < i ==> crate::text::texts(present@).contains(#[trigger] files[j]),
        decreases paths@.len() - i,
    {
        assert(files[i as int] == paths@[i as int]@);
        if !is_listed(present, paths[i].as_str()) {
            assert(!crate::text::texts(present@).contains(files[i as int]));
            return true;
        }
        i = i + 1;
    }
    false
}

/// How a task is delivered.
pub open spec fn delivery_of(t: TaskView) -> Option<Delivery> {
    match t {
        TaskView::SendMediaSequence {
            chat_id,
            reply_to_message_id,
            edit_before_forward,
            forward_channel_id,
            notify_chat_id,
            notify_message_id,
            ..
        } => Some(
            Delivery {
                chat_id,
                reply_to_message_id,
                edit_before_forward,
                forward_channel_id,
                notify_chat_id,
                notify_message_id,
            },
        ),
        TaskView::SendAnimation {
            chat_id,
            reply_to_message_id,
            edit_before_forward,
            forward_channel_id,
            notify_chat_id,
            notify_message_id,
            ..
        } => Some(
            Delivery {
                chat_id,
                reply_to_message_id,
                edit_before_forward,
                forward_channel_id,
                notify_chat_id,
                notify_message_id,
            },
        ),
        TaskView::ForwardMessages { .. } => None,
    }
}

pub open spec fn task_option(t: Option<Task>) -> Option<TaskView> {
    match t {
        Some(t) => Some(t@),
        None => None,
    }
}

/// A task with the fresh media in place of the lost ones, delivered as before.
pub open spec fn refreshed(t: TaskView, fresh: RefetchedView) -> Option<TaskView> {
    match (delivery_of(t), t.source()) {
        (Some(d), Some(url)) => Some(
            crate::send::task::task_of(d, url, fresh.caption, fresh.items, fresh.cache_data),
        ),
        _ => None,
    }
}

pub fn apply_refresh(task: &Task, fresh: &Refetched) -> (r: Option<Task>)
    ensures
        task_option(r) == refreshed(task@, fresh@),
{
    let (d, url) = match task {
        Task::SendMediaSequence {
            chat_id,
            reply_to_message_id,
            edit_before_forward,
            forward_channel_id,
            notify_chat_id,
            notify_message_id,
            source_url,
            ..
        } => (
            Delivery {
                chat_id: *chat_id,
                reply_to_message_id: *reply_to_message_id,
                edit_before_forward: *edit_before_forward,
                forward_channel_id: *forward_channel_id,
                notify_chat_id: *notify_chat_id,
                notify_message_id: *notify_message_id,
            },
            source_url,
        ),
        Task::SendAnimation {
            chat_id,
            reply_to_message_id,
            edit_before_forward,
            forward_channel_id,
            notify_chat_id,
            notify_message_id,
            source_url,
            ..
        } => (
            Delivery {
                chat_id: *chat_id,
                reply_to_message_id: *reply_to_message_id,
                edit_before_forward: *edit_before_forward,
                forward_channel_id: *forward_channel_id,
                notify_chat_id: *notify_chat_id,
                notify_message_id: *notify_message_id,
            },
            source_url,
        ),
        Task::ForwardMessages { .. } => {
            return None;
        },
    };
    let cache_data = match &fresh.cache_data {
        Some(post) => Some(post.duplicate()),
        None => None,
    };
    Some(
        Task::from_items(
            d,
            url.clone(),
            fresh.caption.clone(),
            duplicate_items(&fresh.items),
            cache_data,
        ),
    )
}

pub open spec fn refetched_option(r: Option<Refetched>) -> Option<RefetchedView> {
    match r {
        Some(r) => Some(r@),
        None => None,
    }
}

/// What a fetched post gives a repair; nothing where it has no media.
pub open spec fn refetch_of(f: Fetched, caption: Seq<char>) -> Option<RefetchedView> {
    if f.media@.len() == 0 {
        None
    } else {
        Some(
            RefetchedView {
                caption,
                items: crate::site::as_items(
                    crate::site::site_media_views(f.media@),
                    f.sensitive,
                ),
                cache_data: crate::site::snapshot_of(f),
            },
        )
    }
}

/// What a fetched post gives a repair, so that it looks like a first send.
/// `rendered` is its caption in the chat's format and `text` its title and
/// content, which are quoted where the post is long.
pub fn refetch(f: &Fetched, rendered: &str, text: &str, quote_chars: usize) -> (r: Option<
    Refetched,
>)
    ensures
        exists|caption: Seq<char>|
            #[trigger] crate::caption::quotes(rendered@, text@, quote_chars as int, caption)
                && refetched_option(r) == refetch_of(*f, caption),
{
    let caption = crate::caption::quote_long_caption(rendered, text, quote_chars);
    if f.media.len() == 0 {
        return None;
    }
    Some(
        Refetched {
            caption,
            items: payloads(&f.media, f.sensitive),
            cache_data: cached_snapshot(f),
        },
    )
}

/// What the user reads where a post could not be fetched again.
pub open spec fn lost_words(key: Seq<char>) -> Seq<char> {
    key
        + " — the media held for retry was lost when the bot restarted and the post could not be fetched again. Please send the link again."@
}

/// The notice about a task that could not be repaired.
pub fn lost_notice(task: &Task, key: Option<&str>) -> (r: Option<Notice>)
    ensures
        crate::send::post::notice_option(r) == crate::send::post::notice_of(
            task@.notify().0,
            task@.notify().1,
            lost_words(crate::queue::log_key_of(crate::queue::token_view(key))),
        ),
{
    let (chat, reply) = task.notify_target();
    let mut out = crate::queue::log_key(key);
    out.append(
        " — the media held for retry was lost when the bot restarted and the post could not be fetched again. Please send the link again.",
    );
    notify_failure(chat, reply, out.as_str())
}

/// The post that has to be fetched again for a queued task, and the chat that it
/// goes to.
pub open spec fn repair_of(t: TaskView, present: Seq<Seq<char>>) -> Option<(Seq<char>, i64)> {
    if !partly_sent(t) && lacks_a_file(t, present) {
        match (t.source(), t.chat()) {
            (Some(url), Some(chat)) => Some((url, chat)),
            _ => None,
        }
    } else {
        None
    }
}

pub open spec fn target_option(r: Option<(String, i64)>) -> Option<(Seq<char>, i64)> {
    match r {
        Some((url, chat)) => Some((url@, chat)),
        None => None,
    }
}

/// Looks at a queued task after a restart. `present` lists the files that are
/// still there.
pub fn repair_lost_local_media(task: &Task, present: &Vec<String>) -> (r: Option<(String, i64)>)
    ensures
        target_option(r) == repair_of(task@, crate::text::texts(present@)),
{
    if !needs_refetch(task, present) {
        return None;
    }
    match task {
        Task::SendMediaSequence { source_url, chat_id, .. } => Some((source_url.clone(), *chat_id)),
        Task::SendAnimation { source_url, chat_id, .. } => Some((source_url.clone(), *chat_id)),
        Task::ForwardMessages { .. } => None,
    }
}

/// What follows the attempt to fetch a lost post again.
#[derive(Debug)]
pub enum RepairStep {
    /// Write the task back with its fresh media.
    Rewrite(Task),
    /// Tell whoever asked for it.
    Notify(Notice),
    Nothing,
}

/// [`RepairStep`] over mathematical values.
pub enum RepairView {
    Rewrite(TaskView),
    Notify(NoticeView),
    Nothing,
}

impl View for RepairStep {
    type V = RepairView;

    open spec fn view(&self) -> RepairView {
        match self {
            RepairStep::Rewrite(t) => RepairView::Rewrite(t@),
            RepairStep::Notify(n) => RepairView::Notify(n@),
            RepairStep::Nothing => RepairView::Nothing,
        }
    }
}

/// A post that could be fetched rewrites its task; one that could not is told.
pub open spec fn repair_step(
    t: TaskView,
    fresh: Option<RefetchedView>,
    key: Option<Seq<char>>,
) -> RepairView {
    match fresh {
        Some(fresh) => match refreshed(t, fresh) {
            Some(n) => RepairView::Rewrite(n),
            None => RepairView::Nothing,
        },
        None => match crate::send::post::notice_of(
            t.notify().0,
            t.notify().1,
            lost_words(crate::queue::log_key_of(key)),
        ) {
            Some(n) => RepairView::Notify(n),
            None => RepairView::Nothing,
        },
    }
}

pub fn after_refetch(task: &Task, fresh: Option<Refetched>, key: Option<&str>) -> (r: RepairStep)
    ensures
        r@ == repair_step(task@, refetched_option(fresh), crate::queue::token_view(key)),
{
    match fresh {
        Some(fresh) => match apply_refresh(task, &fresh) {
            Some(t) => RepairStep::Rewrite(t),
            None => RepairStep::Nothing,
        },
        None => match lost_notice(task, key) {
            Some(n) => RepairStep::Notify(n),
            None => RepairStep::Nothing,
        },
    }
}

// ---- laws ----

/// A repaired task is delivered as it was queued: to the same chat, with the same
/// settings and the same people told.
pub proof fn law_repairs_keep_the_delivery(t: TaskView, fresh: RefetchedView)
    ensures
        refreshed(t, fresh) matches Some(n) ==> delivery_of(n) == delivery_of(t) && n.source()
            == t.source() && n.notify() == t.notify() && !partly_sent(n),
{
}

/// A task whose media are all URLs or file ids never needs a repair.
pub proof fn law_remote_media_need_no_repair(t: TaskView, present: Seq<Seq<char>>)
    requires
        forall|i: int|
            0 <= i < t.items().len() ==> !crate::send::task::is_local(#[trigger] t.items()[i]),
    ensures
        !lacks_a_file(t, present),
{
    let local = |m: ItemView| crate::send::task::is_local(m);
    let kept = t.items().filter(local);
    if kept.len() > 0 {
        t.items().lemma_filter_pred(local, 0);
        t.items().lemma_filter_contains_rev(local, kept[0]);
        let i = t.items().index_of(kept[0]);
        assert(t.items()[i] == kept[0]);
    }
}

/// A repaired task carries the fresh media, photos first, with the fresh caption, and
/// leaves the fresh post for the cache; only a copy cannot be repaired.
pub proof fn law_repairs_carry_the_fresh_media(t: TaskView, fresh: RefetchedView)
    ensures
        refreshed(t, fresh) is None <==> t is ForwardMessages,
        refreshed(t, fresh) matches Some(n) ==> {
            &&& n.items() == crate::send::task::photos_then_rest(fresh.items)
            &&& n.cache() == fresh.cache_data
            &&& n.chat() == t.chat()
            &&& match n {
                TaskView::SendMediaSequence { caption, .. } => caption == fresh.caption,
                TaskView::SendAnimation { caption, .. } => caption == fresh.caption,
                TaskView::ForwardMessages { .. } => false,
            }
            &&& match (t, n) {
                (
                    TaskView::SendMediaSequence { reply_to_message_id: a, .. },
                    TaskView::SendMediaSequence { reply_to_message_id: b, .. },
                ) => a == b,
                (
                    TaskView::SendMediaSequence { reply_to_message_id: a, .. },
                    TaskView::SendAnimation { reply_to_message_id: b, .. },
                ) => a == b,
                (
                    TaskView::SendAnimation { reply_to_message_id: a, .. },
                    TaskView::SendMediaSequence { reply_to_message_id: b, .. },
                ) => a == b,
                (
                    TaskView::SendAnimation { reply_to_message_id: a, .. },
                    TaskView::SendAnimation { reply_to_message_id: b, .. },
                ) => a == b,
                _ => false,
            }
        },
{
    if let Some(d) = delivery_of(t) {
        crate::send::task::law_task_sends_all_media(
            d,
            t.source()->0,
            fresh.caption,
            fresh.items,
            fresh.cache_data,
        );
    }
}

/// A post that is fetched again gives a repair what it gave the first send: its media in
/// order, each hidden where the post is sensitive, and what the cache keeps of it. One
/// without media gives nothing.
pub proof fn law_a_refetch_is_a_first_send(f: Fetched, caption: Seq<char>)
    ensures
        refetch_of(f, caption) is None <==> f.media@.len() == 0,
        refetch_of(f, caption) matches Some(r) ==> {
            &&& r.caption == caption
            &&& r.cache_data == crate::site::snapshot_of(f)
            &&& r.items.len() == f.media@.len()
            &&& forall|i: int|
                0 <= i < r.items.len() ==> (#[trigger] r.items[i]).url() == f.media@[i]@.url
                    && r.items[i].spoiler() == f.sensitive && !r.items[i].by_id() && (
                r.items[i] is Photo <==> f.media@[i]@.kind
                    == crate::link_cache::CachedMediaKind::Photo)
        },
{
    let media = crate::site::site_media_views(f.media@);
    crate::site::law_media_keep_their_order(media, f.sensitive);
    if let Some(r) = refetch_of(f, caption) {
        assert forall|i: int| 0 <= i < r.items.len() implies (#[trigger] r.items[i]).url()
            == f.media@[i]@.url && r.items[i].spoiler() == f.sensitive && !r.items[i].by_id() && (
        r.items[i] is Photo <==> f.media@[i]@.kind
            == crate::link_cache::CachedMediaKind::Photo) by {
            assert(media[i] == f.media@[i]@);
        }
    }
}

/// A queued task is repaired exactly where nothing of it was delivered and a file of it
/// is gone: the post that it is about is fetched, for the chat that it goes to. A copy
/// has no post.
pub proof fn law_only_lost_tasks_are_repaired(t: TaskView, present: Seq<Seq<char>>)
    ensures
        repair_of(t, present) is Some <==> !(t is ForwardMessages) && !(t
            matches TaskView::SendMediaSequence { batch_index, sent_message_ids, .. } && (
        batch_index > 0 || sent_message_ids.len() > 0)) && (exists|i: int|
            0 <= i < crate::send::task::local_paths(t).len() && !present.contains(
                #[trigger] crate::send::task::local_paths(t)[i],
            )),
        repair_of(t, present) matches Some(found) ==> t.source() == Some(found.0) && t.chat()
            == Some(found.1),
{
}

/// A post that could be fetched again rewrites its task; where it could not, whoever
/// asked for it is told, in reply, which post it was.
pub proof fn law_lost_posts_are_told(
    t: TaskView,
    fresh: Option<RefetchedView>,
    key: Option<Seq<char>>,
)
    ensures
        fresh matches Some(f) ==> match refreshed(t, f) {
            Some(n) => repair_step(t, fresh, key) matches RepairView::Rewrite(w) && w == n,
            None => repair_step(t, fresh, key) is Nothing,
        },
        fresh is None ==> match t.notify().0 {
            Some(chat) => repair_step(t, fresh, key) matches RepairView::Notify(n) && n.chat_id
                == chat && n.reply_to == t.notify().1 && (key matches Some(k) ==> crate::text::has(
                n.text,
                k,
            )),
            None => repair_step(t, fresh, key) is Nothing,
        },
{
    if let Some(k) = key {
        let text = lost_words(crate::queue::log_key_of(key));
        assert(text.subrange(0, k.len() as int) =~= k);
        assert(crate::text::occurs_at(text, k, 0));
    }
}

} // verus!
