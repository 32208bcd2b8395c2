//! The machines that drive a send. The program around them performs what a step
//! asks for and hands back how it went.
use super::classify::{
    classify_to_send_error, needs_upload, FallbackError, FallbackView, RequestError, SendError,
    SendErrorView, JITTER_TO_MS,
};
use super::media::{
    build_media_group, input_file, GroupItem, GroupView, InputSource, InputView,
};
use super::task::{is_remote, ItemView, MediaItemPayload, Task, TaskView};
use crate::link_cache::{CachedMedia, CachedPost, MediaView, PostView};
use crate::state::duplicate_ids;
use vstd::prelude::*;

verus! {

// ---- what was sent ----

/// A message that the service made of a medium.
#[derive(Debug)]
pub struct SentMessage {
    pub id: i64,
    /// The file ids of a photo, from the smallest size to the largest.
    pub photo_file_ids: Vec<String>,
    pub video_file_id: Option<String>,
    pub animation_file_id: Option<String>,
}

/// [`SentMessage`] over mathematical text.
pub struct SentView {
    pub id: i64,
    pub photos: Seq<Seq<char>>,
    pub video: Option<Seq<char>>,
    pub animation: Option<Seq<char>>,
}

impl View for SentMessage {
    type V = SentView;

    open spec fn view(&self) -> SentView {
        SentView {
            id: self.id,
            photos: crate::text::texts(self.photo_file_ids@),
            video: crate::json::text_option(self.video_file_id),
            animation: crate::json::text_option(self.animation_file_id),
        }
    }
}

pub open spec fn sent_views(v: Seq<SentMessage>) -> Seq<SentView> {
    v.map_values(|m: SentMessage| m@)
}

/// The file id of a medium: that of the largest size for a photo.
pub open spec fn file_id_of(m: SentView, item: ItemView) -> Option<Seq<char>> {
    match item {
        ItemView::Photo { .. } => if m.photos.len() > 0 {
            Some(m.photos.last())
        } else {
            None
        },
        ItemView::Video { .. } => m.video,
        ItemView::Animation { .. } => m.animation,
    }
}

pub fn file_id_of_message(m: &SentMessage, item: &MediaItemPayload) -> (r: Option<String>)
    ensures
        crate::json::text_option(r) == file_id_of(m@, item@),
{
    match item {
        MediaItemPayload::Photo { .. } => {
            let n: usize = m.photo_file_ids.len();
            if n > 0 {
                Some(m.photo_file_ids[n - 1].clone())
            } else {
                None
            }
        },
        MediaItemPayload::Video { .. } => super::task::duplicate_text(&m.video_file_id),
        MediaItemPayload::Animation { .. } => super::task::duplicate_text(&m.animation_file_id),
    }
}

/// The URL that a medium can be sent from again; empty where there is none.
pub open spec fn known_url(item: ItemView) -> Seq<char> {
    if !item.by_id() && super::task::remote(item.url()) {
        item.url()
    } else {
        Seq::empty()
    }
}

fn url_to_keep(item: &MediaItemPayload) -> (r: String)
    ensures
        r@ == known_url(item@),
{
    if !item.is_file_id() && is_remote(item.item_url().as_str()) {
        item.item_url().clone()
    } else {
        String::new()
    }
}

/// What a sent medium leaves for the cache, if the service told its file id.
pub open spec fn kept_media(m: SentView, item: ItemView) -> Seq<MediaView> {
    match file_id_of(m, item) {
        Some(file_id) => seq![MediaView { kind: item.kind(), file_id, url: known_url(item) }],
        None => Seq::empty(),
    }
}

/// What the first `n` media of an album leave for the cache.
pub open spec fn collected(messages: Seq<SentView>, batch: Seq<ItemView>, n: int) -> Seq<
    MediaView,
>
    decreases n,
{
    if n <= 0 {
        Seq::empty()
    } else {
        collected(messages, batch, n - 1) + kept_media(messages[n - 1], batch[n - 1])
    }
}

/// As many media as both the messages and the album have.
pub open spec fn paired(messages: Seq<SentView>, batch: Seq<ItemView>) -> int {
    if messages.len() < batch.len() {
        messages.len() as int
    } else {
        batch.len() as int
    }
}

/// Adds what an album leaves for the cache.
pub fn collect_file_ids(
    messages: &Vec<SentMessage>,
    batch: &Vec<MediaItemPayload>,
    out: &mut Vec<CachedMedia>,
)
    ensures
        ({
            let sent = sent_views(messages@);
            let items = super::task::item_views(batch@);
            crate::link_cache::media_views(final(out)@) == crate::link_cache::media_views(
                old(out)@,
            ) + collected(sent, items, paired(sent, items))
        }),
{
    let ghost sent = sent_views(messages@);
    let ghost items = super::task::item_views(batch@);
    let ghost before = crate::link_cache::media_views(out@);
    let mut i: usize = 0;
    proof {
        assert(before + collected(sent, items, 0) =~= before);
    }
    while i < messages.len() && i < batch.len()
        invariant
            sent == sent_views(messages@),
            items == super::task::item_views(batch@),
            i <= messages@.len(),
            i <= batch@.len(),
            crate::link_cache::media_views(out@) == before + collected(sent, items, i as int),
        decreases messages@.len() - i,
    {
        assert(sent[i as int] == messages@[i as int]@);
        assert(items[i as int] == batch@[i as int]@);
        let ghost had = out@;
        let ghost done = collected(sent, items, i as int);
        match file_id_of_message(&messages[i], &batch[i]) {
            Some(file_id) => {
                let media = CachedMedia {
                    kind: batch[i].kind_of_item(),
                    file_id,
                    url: url_to_keep(&batch[i]),
                };
                out.push(media);
                proof {
                    assert(crate::link_cache::media_views(out@)
                        =~= crate::link_cache::media_views(had).push(media@));
                    assert((before + done).push(media@) =~= before + (done + seq![media@]));
                }
            },
            None => {
                assert(done + Seq::<MediaView>::empty() =~= done);
            },
        }
        i = i + 1;
    }
}

/// What a finished send leaves in the cache: its post with the media that were
/// sent. A post that came out of the cache is not stored again.
pub open spec fn to_cache(t: TaskView, media: Seq<MediaView>) -> Option<PostView> {
    match t.cache() {
        Some(p) => if p.media.len() == 0 && media.len() > 0 {
            Some(PostView { media, ..p })
        } else {
            None
        },
        None => None,
    }
}

pub fn cache_sent_task(task: &Task, media: Vec<CachedMedia>) -> (r: Option<CachedPost>)
    ensures
        crate::link_cache::post_option(r) == to_cache(
            task@,
            crate::link_cache::media_views(media@),
        ),
{
    match task.cache_data() {
        Some(post) => if post.media.len() == 0 && media.len() > 0 {
            let mut copy = post.duplicate();
            copy.media = media;
            Some(copy)
        } else {
            None
        },
        None => None,
    }
}

/// The cache key's entry to give up or to keep by URL, once a send out of the
/// cache failed for good: nothing is done for other tasks.
pub open spec fn invalidated(t: TaskView) -> bool {
    t.cached_send() && t.source() is Some
}

/// Whether a failed task means that its cache entry stopped working.
pub fn invalidates_cache(task: &Task) -> (r: bool)
    ensures
        r == invalidated(task@),
{
    task.is_cached_send() && task.source_url().is_some()
}

/// Gives up the file ids of a cached post: it is kept by URL where that is
/// possible, else dropped.
pub fn invalidate_cache_with(cache: &mut crate::link_cache::LinkCache, key: &str, now: i64)
    requires
        old(cache).wf(),
    ensures
        final(cache).wf(),
        final(cache)@ == invalidated_cache(old(cache)@, key@, now as int),
{
    let name = key.to_owned();
    let kept: Option<CachedPost> = match cache.entries.get(&name) {
        Some(entry) => match &entry.post {
            Some(post) => post.degraded(),
            None => None,
        },
        None => None,
    };
    match kept {
        Some(post) => {
            cache.put(key, post, now);
        },
        None => {
            cache.remove(key);
        },
    }
}

/// The cache after an entry's file ids were given up.
pub open spec fn invalidated_cache(
    m: Map<Seq<char>, crate::link_cache::EntryView>,
    key: Seq<char>,
    now: int,
) -> Map<Seq<char>, crate::link_cache::EntryView> {
    let kept = if m.contains_key(key) {
        match m[key].post {
            Some(p) => crate::link_cache::degraded_post(p),
            None => None,
        }
    } else {
        None
    };
    match kept {
        Some(p) => m.insert(
            key,
            crate::link_cache::EntryView { post: Some(p), created_at: now },
        ),
        None => m.remove(key),
    }
}

// ---- a sequence of albums ----

/// A sequence of albums that is being sent.
#[derive(Debug)]
pub struct SequenceRun {
    pub task: Task,
    /// The album to send next.
    pub index: usize,
    pub sent: Vec<i64>,
    /// What goes into the cache at the end.
    pub media: Vec<CachedMedia>,
    /// Nothing of the task was sent before this run.
    pub fresh: bool,
}

/// [`SequenceRun`] over mathematical values.
#[verifier::ext_equal]
pub struct RunView {
    pub task: TaskView,
    pub index: int,
    pub sent: Seq<i64>,
    pub media: Seq<MediaView>,
    pub fresh: bool,
}

impl View for SequenceRun {
    type V = RunView;

    open spec fn view(&self) -> RunView {
        RunView {
            task: self.task@,
            index: self.index as int,
            sent: self.sent@,
            media: crate::link_cache::media_views(self.media@),
            fresh: self.fresh,
        }
    }
}

/// The albums of a task.
pub open spec fn batches(t: TaskView) -> Seq<Seq<ItemView>> {
    match t {
        TaskView::SendMediaSequence { media_batches, .. } => media_batches,
        _ => Seq::empty(),
    }
}

/// The run of a task: it goes on where the task's state says.
pub open spec fn begun(t: TaskView) -> RunView {
    match t {
        TaskView::SendMediaSequence { batch_index, sent_message_ids, .. } => RunView {
            task: t,
            index: batch_index,
            sent: sent_message_ids,
            media: Seq::empty(),
            fresh: batch_index == 0 && sent_message_ids.len() == 0,
        },
        _ => RunView { task: t, index: 0, sent: Seq::empty(), media: Seq::empty(), fresh: true },
    }
}

/// The task of a run with what was sent so far: what a retry goes on with.
pub open spec fn resumable(r: RunView) -> TaskView {
    super::task::progressed(r.task, r.index, r.sent)
}

/// What a run asks for next.
#[derive(Debug)]
pub enum SequenceStep {
    /// Send these media as one album.
    SendGroup { items: Vec<GroupItem> },
    /// Everything is sent.
    Done,
    Fail { error: SendError },
}

/// [`SequenceStep`] over mathematical values.
pub enum SequenceStepView {
    SendGroup { items: Seq<GroupView> },
    Done,
    Fail { error: SendErrorView },
}

impl View for SequenceStep {
    type V = SequenceStepView;

    open spec fn view(&self) -> SequenceStepView {
        match self {
            SequenceStep::SendGroup { items } => SequenceStepView::SendGroup {
                items: super::media::group_views(items@),
            },
            SequenceStep::Done => SequenceStepView::Done,
            SequenceStep::Fail { error } => SequenceStepView::Fail { error: error@ },
        }
    }
}

/// The caption of a task's album: only the first one has it.
pub open spec fn album_caption(t: TaskView, index: int) -> Option<Seq<char>> {
    match t {
        TaskView::SendMediaSequence { caption, .. } => if index == 0 {
            Some(caption)
        } else {
            None
        },
        _ => None,
    }
}

/// The caption that a medium of the current album is uploaded with.
pub open spec fn medium_caption(r: RunView, i: int) -> Option<Seq<char>> {
    if i == 0 {
        album_caption(r.task, r.index)
    } else {
        None
    }
}

/// What a finished run comes to: its messages, and what it leaves in the cache.
pub open spec fn run_result(r: RunView) -> (Seq<i64>, Option<PostView>) {
    (
        r.sent,
        if r.fresh {
            to_cache(r.task, r.media)
        } else {
            None
        },
    )
}

pub open spec fn next_step(r: RunView, present: Seq<Seq<char>>) -> SequenceStepView {
    if r.index >= batches(r.task).len() {
        SequenceStepView::Done
    } else {
        match super::media::group_of(
            batches(r.task)[r.index],
            album_caption(r.task, r.index),
            present,
        ) {
            Ok(items) => SequenceStepView::SendGroup { items },
            Err(message) => SequenceStepView::Fail {
                error: SendErrorView::Permanent { message, task: resumable(r) },
            },
        }
    }
}

/// The run after an album went out.
pub open spec fn album_sent(r: RunView, messages: Seq<SentView>) -> RunView {
    let batch = batches(r.task)[r.index];
    RunView {
        index: r.index + 1,
        sent: r.sent + messages.map_values(|m: SentView| m.id),
        media: r.media + collected(messages, batch, paired(messages, batch)),
        ..r
    }
}

/// How preparing and uploading an album failed.
#[derive(Debug)]
pub enum UploadFailure {
    /// A medium could not be prepared.
    Prepare(FallbackError),
    /// The work on a medium broke off.
    Panicked(String),
    /// The upload itself failed.
    Request(RequestError),
}

pub open spec fn upload_error(f: UploadFailure, task: TaskView, jitter: int) -> SendErrorView {
    match f {
        UploadFailure::Prepare(e) => super::classify::with_task(e@, task),
        UploadFailure::Panicked(e) => SendErrorView::Permanent {
            message: "upload worker panicked: "@ + e@,
            task,
        },
        UploadFailure::Request(e) => super::classify::task_error(
            e,
            task,
            "upload failed"@,
            jitter,
        ),
    }
}

/// What a failed album asks for: an upload, or nothing more.
#[derive(Debug)]
pub enum FailedAlbum {
    /// Download the media and upload them.
    Upload,
    Fail { error: SendError },
}

impl SequenceRun {
    /// Starts or resumes a task.
    pub fn start(task: Task) -> (r: SequenceRun)
        ensures
            r@ == begun(task@),
    {
        let (index, sent) = match &task {
            Task::SendMediaSequence { batch_index, sent_message_ids, .. } => (
                *batch_index,
                duplicate_ids(sent_message_ids),
            ),
            _ => {
                let none: Vec<i64> = Vec::new();
                assert(none@ =~= Seq::<i64>::empty());
                (0, none)
            },
        };
        let fresh = index == 0 && sent.len() == 0;
        let media: Vec<CachedMedia> = Vec::new();
        assert(crate::link_cache::media_views(media@) =~= Seq::<MediaView>::empty());
        SequenceRun { task, index, sent, media, fresh }
    }

    /// The caption that a medium of the current album is uploaded with: only the
    /// first one of the first album has it.
    pub fn upload_caption(&self, i: usize) -> (r: Option<String>)
        ensures
            crate::json::text_option(r) == if i == 0 {
                album_caption(self@.task, self@.index)
            } else {
                None
            },
            crate::json::text_option(r) == medium_caption(self@, i as int),
    {
        match &self.task {
            Task::SendMediaSequence { caption, .. } => {
                if i == 0 && self.index == 0 {
                    Some(caption.clone())
                } else {
                    None
                }
            },
            _ => None,
        }
    }

    /// What to do next. `present` lists the files of the task that exist.
    pub fn next(&self, present: &Vec<String>) -> (r: SequenceStep)
        ensures
            r@ == next_step(self@, crate::text::texts(present@)),
    {
        match &self.task {
            Task::SendMediaSequence { caption, media_batches, .. } => {
                if self.index >= media_batches.len() {
                    return SequenceStep::Done;
                }
                assert(batches(self.task@)[self.index as int] == super::task::item_views(
                    media_batches@[self.index as int]@,
                ));
                let caption: Option<&str> = if self.index == 0 {
                    Some(caption.as_str())
                } else {
                    None
                };
                match build_media_group(&media_batches[self.index], caption, present) {
                    Ok(items) => SequenceStep::SendGroup { items },
                    Err(message) => SequenceStep::Fail {
                        error: SendError::Permanent { message, task: self.resumable_task() },
                    },
                }
            },
            _ => SequenceStep::Done,
        }
    }

    /// The task with what was sent so far.
    pub fn resumable_task(&self) -> (r: Task)
        ensures
            r@ == resumable(self@),
    {
        self.task.updated_sequence_task(self.index, duplicate_ids(&self.sent))
    }

    /// Records an album that went out.
    pub fn on_sent(&mut self, messages: &Vec<SentMessage>)
        requires
            old(self)@.index < batches(old(self)@.task).len(),
        ensures
            final(self)@ == album_sent(old(self)@, sent_views(messages@)),
    {
        let ghost before = self@;
        let ghost sent = sent_views(messages@);
        let index: usize = self.index;
        let next: usize = match &self.task {
            Task::SendMediaSequence { media_batches, .. } => {
                let count: usize = media_batches.len();
                assert(index < count);
                assert(batches(self.task@)[index as int] == super::task::item_views(
                    media_batches@[index as int]@,
                ));
                collect_file_ids(messages, &media_batches[index], &mut self.media);
                index + 1
            },
            _ => index,
        };
        let mut i: usize = 0;
        proof {
            assert(before.sent + sent.take(0).map_values(|m: SentView| m.id) =~= before.sent);
        }
        let ghost media = crate::link_cache::media_views(self.media@);
        while i < messages.len()
            invariant
                sent == sent_views(messages@),
                i <= messages@.len(),
                self.sent@ == before.sent + sent.take(i as int).map_values(|m: SentView| m.id),
                self.task@ == before.task,
                self.index == before.index,
                self.fresh == before.fresh,
                crate::link_cache::media_views(self.media@) == media,
            decreases messages@.len() - i,
        {
            self.sent.push(messages[i].id);
            proof {
                let done = sent.take(i as int).map_values(|m: SentView| m.id);
                let next = sent.take(i + 1).map_values(|m: SentView| m.id);
                assert(next =~= done.push(messages@[i as int]@.id));
                assert((before.sent + done).push(messages@[i as int].id) =~= before.sent + next);
            }
            i = i + 1;
        }
        self.index = next;
        proof {
            assert(sent.take(i as int) =~= sent);
        }
    }

    /// What follows an album that did not go out.
    pub fn on_failed(&self, e: &RequestError, jitter: u64) -> (r: FailedAlbum)
        requires
            jitter <= JITTER_TO_MS,
        ensures
            match r {
                FailedAlbum::Upload => super::classify::asks_for_upload(*e),
                FailedAlbum::Fail { error } => !super::classify::asks_for_upload(*e) && error@
                    == super::classify::task_error(
                    *e,
                    resumable(self@),
                    "media fetch failed"@,
                    jitter as int,
                ),
            },
    {
        if needs_upload(e) {
            FailedAlbum::Upload
        } else {
            FailedAlbum::Fail {
                error: classify_to_send_error(
                    e,
                    self.resumable_task(),
                    "media fetch failed",
                    jitter,
                ),
            }
        }
    }

    /// What a failed upload of the album means.
    pub fn on_upload_failed(&self, f: UploadFailure, jitter: u64) -> (r: SendError)
        requires
            jitter <= JITTER_TO_MS,
        ensures
            r@ == upload_error(f, resumable(self@), jitter as int),
    {
        let task = self.resumable_task();
        match f {
            UploadFailure::Prepare(e) => SendError::from_fallback(e, task),
            UploadFailure::Panicked(e) => {
                let mut message = "upload worker panicked: ".to_owned();
                message.append(e.as_str());
                SendError::Permanent { message, task }
            },
            UploadFailure::Request(e) => classify_to_send_error(
                &e,
                task,
                "upload failed",
                jitter,
            ),
        }
    }

    /// The messages of a finished run, and what it leaves in the cache: only a
    /// run that sent everything itself knows all file ids.
    pub fn finish(self) -> (r: (Vec<i64>, Option<CachedPost>))
        ensures
            r.0@ == self@.sent,
            crate::link_cache::post_option(r.1) == if self@.fresh {
                to_cache(self@.task, self@.media)
            } else {
                None
            },
            (r.0@, crate::link_cache::post_option(r.1)) == run_result(self@),
    {
        let post = if self.fresh {
            cache_sent_task(&self.task, self.media)
        } else {
            None
        };
        (self.sent, post)
    }
}

/// A run after several albums went out.
pub open spec fn after_albums(r: RunView, albums: Seq<Seq<SentView>>) -> RunView
    decreases albums.len(),
{
    if albums.len() == 0 {
        r
    } else {
        album_sent(after_albums(r, albums.drop_last()), albums.last())
    }
}

/// Each album that goes out takes the run one album further, and only adds to
/// what was sent.
pub proof fn law_a_run_only_moves_forward(r: RunView, albums: Seq<Seq<SentView>>)
    ensures
        after_albums(r, albums).index == r.index + albums.len(),
        after_albums(r, albums).task == r.task,
        r.sent.is_prefix_of(after_albums(r, albums).sent),
    decreases albums.len(),
{
    if albums.len() > 0 {
        law_a_run_only_moves_forward(r, albums.drop_last());
        let mid = after_albums(r, albums.drop_last());
        assert(after_albums(r, albums).sent.take(r.sent.len() as int) =~= r.sent) by {
            assert(mid.sent.take(r.sent.len() as int) =~= r.sent);
        }
    }
}

/// Whether the service made one message of each medium of an album and told a file id
/// for each.
pub open spec fn all_told(messages: Seq<SentView>, batch: Seq<ItemView>) -> bool {
    &&& messages.len() == batch.len()
    &&& forall|i: int|
        0 <= i < batch.len() ==> match #[trigger] batch[i] {
            ItemView::Photo { .. } => messages[i].photos.len() > 0,
            ItemView::Video { .. } => messages[i].video is Some,
            ItemView::Animation { .. } => messages[i].animation is Some,
        }
}

/// Whether an entry of the cache is what a sent medium leaves: the file id that the
/// service told for it (of a photo, that of the largest size) under the medium's kind,
/// and the URL that it was sent from, where that is one.
pub open spec fn remembers(kept: MediaView, m: SentView, item: ItemView) -> bool {
    match item {
        ItemView::Photo { media, file_id, .. } => {
            &&& kept.kind == crate::link_cache::CachedMediaKind::Photo
            &&& kept.file_id == m.photos[m.photos.len() - 1]
            &&& kept.url == if !file_id && super::task::remote(media) {
                media
            } else {
                Seq::empty()
            }
        },
        ItemView::Video { media, file_id, .. } => {
            &&& kept.kind == crate::link_cache::CachedMediaKind::Video
            &&& Some(kept.file_id) == m.video
            &&& kept.url == if !file_id && super::task::remote(media) {
                media
            } else {
                Seq::empty()
            }
        },
        ItemView::Animation { media, file_id, .. } => {
            &&& kept.kind == crate::link_cache::CachedMediaKind::Animation
            &&& Some(kept.file_id) == m.animation
            &&& kept.url == if !file_id && super::task::remote(media) {
                media
            } else {
                Seq::empty()
            }
        },
    }
}

/// What an album leaves is added after what the earlier albums left, message by message
/// and medium by medium, and what they left stays. Where the service told every file
/// id, every medium of the album is there, in the album's order.
pub proof fn law_albums_add_to_what_was_sent(r: RunView, messages: Seq<SentView>)
    requires
        0 <= r.index < batches(r.task).len(),
    ensures
        ({
            let batch = batches(r.task)[r.index];
            let next = album_sent(r, messages);
            &&& next.task == r.task
            &&& next.fresh == r.fresh
            &&& next.index == r.index + 1
            &&& next.sent.len() == r.sent.len() + messages.len()
            &&& forall|i: int| 0 <= i < r.sent.len() ==> #[trigger] next.sent[i] == r.sent[i]
            &&& forall|i: int|
                0 <= i < messages.len() ==> #[trigger] next.sent[r.sent.len() + i]
                    == messages[i].id
            &&& r.media.len() <= next.media.len() <= r.media.len() + batch.len()
            &&& forall|i: int| 0 <= i < r.media.len() ==> #[trigger] next.media[i] == r.media[i]
            &&& all_told(messages, batch) ==> next.media.len() == r.media.len() + batch.len()
            &&& all_told(messages, batch) ==> forall|i: int|
                0 <= i < batch.len() ==> remembers(
                    #[trigger] next.media[r.media.len() + i],
                    messages[i],
                    batch[i],
                )
        }),
{
    let batch = batches(r.task)[r.index];
    lemma_collected(messages, batch, paired(messages, batch));
}

proof fn lemma_collected(messages: Seq<SentView>, batch: Seq<ItemView>, n: int)
    requires
        0 <= n <= messages.len(),
        n <= batch.len(),
    ensures
        collected(messages, batch, n).len() <= n,
        all_told(messages, batch) ==> collected(messages, batch, n).len() == n && forall|i: int|
            0 <= i < n ==> remembers(
                #[trigger] collected(messages, batch, n)[i],
                messages[i],
                batch[i],
            ),
    decreases n,
{
    if n > 0 {
        lemma_collected(messages, batch, n - 1);
        if all_told(messages, batch) {
            let last = batch[n - 1];
            assert forall|i: int| 0 <= i < n implies remembers(
                #[trigger] collected(messages, batch, n)[i],
                messages[i],
                batch[i],
            ) by {
                if i < n - 1 {
                    assert(collected(messages, batch, n)[i] == collected(messages, batch, n - 1)[i]);
                }
            }
        }
    }
}

/// After a run that sent all its albums itself, where the service told a file id for
/// every medium, what goes to the cache is the task's post with exactly the task's
/// media, in their order: as many as the task has, however many albums they took.
pub proof fn law_a_whole_run_is_cached(t: TaskView, albums: Seq<Seq<SentView>>)
    requires
        t matches TaskView::SendMediaSequence { batch_index, sent_message_ids, .. } && batch_index
            == 0 && sent_message_ids.len() == 0,
        albums.len() <= batches(t).len(),
        forall|k: int| 0 <= k < albums.len() ==> all_told(#[trigger] albums[k], batches(t)[k]),
    ensures
        ({
            let done = after_albums(begun(t), albums);
            let items = super::task::concatenated(batches(t).take(albums.len() as int));
            let told = super::task::concatenated(albums);
            &&& done.fresh
            &&& done.task == t
            &&& done.index == albums.len()
            &&& done.media.len() == items.len()
            &&& told.len() == items.len()
            &&& forall|i: int|
                0 <= i < items.len() ==> remembers(#[trigger] done.media[i], told[i], items[i])
            &&& done.sent.len() == told.len()
            &&& forall|i: int| 0 <= i < told.len() ==> #[trigger] done.sent[i] == told[i].id
            &&& albums.len() == batches(t).len() ==> items == t.items()
            &&& (t.cache() matches Some(post) && post.media.len() == 0) && items.len() > 0 ==> (
            to_cache(done.task, done.media) matches Some(kept) && kept.media == done.media
                && kept.url == t.cache()->0.url)
        }),
    decreases albums.len(),
{
    let all = batches(t);
    assert(all.take(all.len() as int) =~= all);
    if albums.len() > 0 {
        let n = albums.len() as int;
        let before = albums.drop_last();
        assert forall|k: int| 0 <= k < before.len() implies all_told(
            #[trigger] before[k],
            all[k],
        ) by {
            assert(all_told(albums[k], all[k]));
        }
        law_a_whole_run_is_cached(t, before);
        let mid = after_albums(begun(t), before);
        assert(all_told(albums[n - 1], all[n - 1]));
        law_albums_add_to_what_was_sent(mid, albums.last());
        assert(all.take(n).drop_last() =~= all.take(n - 1));
        assert(all.take(n).last() == all[n - 1]);
        let done = after_albums(begun(t), albums);
        let items = super::task::concatenated(all.take(n));
        let told = super::task::concatenated(albums);
        let had = mid.media.len() as int;
        assert(mid.sent.len() == had);
        assert forall|i: int| 0 <= i < items.len() implies remembers(
            #[trigger] done.media[i],
            told[i],
            items[i],
        ) by {
            if i < had {
                assert(done.media[i] == mid.media[i]);
            } else {
                assert(done.media[had + (i - had)] == done.media[i]);
            }
        }
        assert forall|i: int| 0 <= i < told.len() implies #[trigger] done.sent[i]
            == told[i].id by {
            if i < had {
                assert(done.sent[i] == mid.sent[i]);
            } else {
                assert(done.sent[had + (i - had)] == done.sent[i]);
            }
        }
    } else {
        assert(all.take(0) =~= Seq::<Seq<ItemView>>::empty());
        assert(super::task::concatenated(all.take(0)) =~= Seq::<ItemView>::empty());
    }
}

/// What a send leaves in the cache is the post that the task carries, with the media
/// that were sent and all else as it was; a post that came out of the cache, and one
/// of which no file id is known, leaves nothing.
pub proof fn law_the_cache_keeps_the_post(t: TaskView, sent: Seq<MediaView>)
    ensures
        to_cache(t, sent) is Some <==> (t.cache() matches Some(post) && post.media.len() == 0
            && sent.len() > 0),
        to_cache(t, sent) matches Some(kept) ==> {
            let post = t.cache()->0;
            &&& kept.media == sent
            &&& kept.url == post.url
            &&& kept.caption == post.caption
            &&& kept.title == post.title
            &&& kept.content == post.content
            &&& kept.author == post.author
            &&& kept.author_url == post.author_url
            &&& kept.tags == post.tags
            &&& kept.sensitive == post.sensitive
        },
{
}

/// What a run asks for next is its album in full: as many media as the album has, in
/// its order, each with its own spoiler and kind; the caption goes with the first
/// medium of the first album and with no other. After the last album it is done.
pub proof fn law_a_run_sends_its_albums_in_turn(r: RunView, present: Seq<Seq<char>>)
    requires
        r.task is SendMediaSequence,
        0 <= r.index,
    ensures
        next_step(r, present) is Done <==> r.index >= batches(r.task).len(),
        next_step(r, present) matches SequenceStepView::SendGroup { items } ==> {
            let batch = batches(r.task)[r.index];
            &&& items.len() == batch.len()
            &&& forall|i: int|
                0 <= i < items.len() ==> {
                    &&& (#[trigger] items[i]).kind == batch[i].kind()
                    &&& items[i].spoiler == batch[i].spoiler()
                    &&& items[i].caption == if i == 0 && r.index == 0 {
                        Some(r.task->SendMediaSequence_caption)
                    } else {
                        None::<Seq<char>>
                    }
                    &&& super::media::item_input(batch[i], present) == Ok::<InputView, Seq<char>>(
                        items[i].source,
                    )
                }
        },
        next_step(r, present) matches SequenceStepView::Fail { error } ==> error
            matches SendErrorView::Permanent { task, .. } && task == resumable(r),
{
    if r.index < batches(r.task).len() {
        super::media::law_only_the_first_medium_is_captioned(
            batches(r.task)[r.index],
            album_caption(r.task, r.index),
            present,
        );
    }
}

/// What a run hands back for a retry is its own task, with the same media, caption,
/// destination and post, from the album that comes next, with the messages that were
/// sent.
pub proof fn law_a_retry_keeps_the_task(r: RunView)
    ensures
        match (r.task, resumable(r)) {
            (
                TaskView::SendMediaSequence {
                    chat_id,
                    reply_to_message_id,
                    caption,
                    media_batches,
                    batch_index,
                    sent_message_ids,
                    source_url,
                    edit_before_forward,
                    forward_channel_id,
                    notify_chat_id,
                    notify_message_id,
                    cache_data,
                },
                TaskView::SendMediaSequence {
                    chat_id: chat_id2,
                    reply_to_message_id: reply_to_message_id2,
                    caption: caption2,
                    media_batches: media_batches2,
                    batch_index: batch_index2,
                    sent_message_ids: sent_message_ids2,
                    source_url: source_url2,
                    edit_before_forward: edit_before_forward2,
                    forward_channel_id: forward_channel_id2,
                    notify_chat_id: notify_chat_id2,
                    notify_message_id: notify_message_id2,
                    cache_data: cache_data2,
                },
            ) => {
                &&& chat_id2 == chat_id
                &&& reply_to_message_id2 == reply_to_message_id
                &&& caption2 == caption
                &&& media_batches2 == media_batches
                &&& batch_index2 == r.index
                &&& sent_message_ids2 == r.sent
                &&& source_url2 == source_url
                &&& edit_before_forward2 == edit_before_forward
                &&& forward_channel_id2 == forward_channel_id
                &&& notify_chat_id2 == notify_chat_id
                &&& notify_message_id2 == notify_message_id
                &&& cache_data2 == cache_data
            },
            (TaskView::SendMediaSequence { .. }, _) => false,
            (task, kept) => kept == task,
        },
        begun(r.task).task == r.task,
        begun(r.task).media.len() == 0,
        r.task matches TaskView::SendMediaSequence { batch_index, sent_message_ids, .. } ==> {
            &&& begun(r.task).index == batch_index
            &&& begun(r.task).sent == sent_message_ids
            &&& begun(r.task).fresh <==> batch_index == 0 && sent_message_ids.len() == 0
        },
{
}

/// Giving up a cached post's file ids touches no other entry; the entry itself is kept,
/// as of now, only where it can still be sent by URL, and then holds no file id.
pub proof fn law_only_the_failed_entry_is_given_up(
    m: Map<Seq<char>, crate::link_cache::EntryView>,
    key: Seq<char>,
    other: Seq<char>,
    now: int,
)
    ensures
        other != key ==> invalidated_cache(m, key, now).contains_key(other) == m.contains_key(other)
            && invalidated_cache(m, key, now)[other] == m[other],
        invalidated_cache(m, key, now).contains_key(key) ==> {
            let left = invalidated_cache(m, key, now)[key];
            &&& m.contains_key(key)
            &&& left.created_at == now
            &&& left.post matches Some(post) && m[key].post matches Some(had) && Some(post)
                == crate::link_cache::degraded_post(had)
        },
{
}

/// A failed run loses nothing and repeats nothing: the task it hands back starts
/// at the album that failed, with the messages that were sent, and from there on
/// it goes as the run would have gone.
pub proof fn law_a_failed_run_is_resumed(
    t: TaskView,
    before: Seq<Seq<SentView>>,
    after: Seq<Seq<SentView>>,
)
    requires
        t is SendMediaSequence,
    ensures
        ({
            let stopped = after_albums(begun(t), before);
            let resumed = begun(resumable(stopped));
            &&& resumed.index == stopped.index
            &&& resumed.sent == stopped.sent
            &&& batches(resumed.task) == batches(t)
            &&& after_albums(resumed, after).sent == after_albums(stopped, after).sent
            &&& after_albums(resumed, after).index == after_albums(stopped, after).index
        }),
    decreases after.len(),
{
    law_a_run_only_moves_forward(begun(t), before);
    let stopped = after_albums(begun(t), before);
    let resumed = begun(resumable(stopped));
    if after.len() > 0 {
        law_a_failed_run_is_resumed(t, before, after.drop_last());
    }
}

// ---- a lone animation ----

/// What the send of an animation asks for next.
#[derive(Debug)]
pub enum AnimationStep {
    /// Send it from this source.
    Send { source: InputSource },
    /// Download it and prepare it for upload.
    PrepareUpload,
    /// It went out.
    Done { ids: Vec<i64>, cache: Option<CachedPost> },
    Fail { error: SendError },
}

/// [`AnimationStep`] over mathematical values.
pub enum AnimationStepView {
    Send { source: InputView },
    PrepareUpload,
    Done { ids: Seq<i64>, cache: Option<PostView> },
    Fail { error: SendErrorView },
}

impl View for AnimationStep {
    type V = AnimationStepView;

    open spec fn view(&self) -> AnimationStepView {
        match self {
            AnimationStep::Send { source } => AnimationStepView::Send { source: source@ },
            AnimationStep::PrepareUpload => AnimationStepView::PrepareUpload,
            AnimationStep::Done { ids, cache } => AnimationStepView::Done {
                ids: ids@,
                cache: crate::link_cache::post_option(*cache),
            },
            AnimationStep::Fail { error } => AnimationStepView::Fail { error: error@ },
        }
    }
}

/// An animation goes out by its file id, its URL or its file.
pub open spec fn animation_begins(t: TaskView, present: Seq<Seq<char>>) -> AnimationStepView {
    match t {
        TaskView::SendAnimation { animation, .. } => match super::media::item_input(
            animation,
            present,
        ) {
            Ok(source) => AnimationStepView::Send { source },
            Err(message) => AnimationStepView::Fail {
                error: SendErrorView::Permanent { message, task: t },
            },
        },
        _ => AnimationStepView::Done { ids: Seq::empty(), cache: None },
    }
}

pub fn start_animation(task: &Task, present: &Vec<String>) -> (r: AnimationStep)
    ensures
        r@ == animation_begins(task@, crate::text::texts(present@)),
{
    match task {
        Task::SendAnimation { animation, .. } => match input_file(animation, present) {
            Ok(source) => AnimationStep::Send { source },
            Err(message) => AnimationStep::Fail {
                error: SendError::Permanent { message, task: task.duplicate() },
            },
        },
        _ => {
            let ids: Vec<i64> = Vec::new();
            assert(ids@ =~= Seq::<i64>::empty());
            AnimationStep::Done { ids, cache: None }
        },
    }
}

/// What a sent animation leaves: its message, and its file id for the cache.
pub open spec fn animation_done(t: TaskView, m: SentView) -> AnimationStepView {
    AnimationStepView::Done {
        ids: seq![m.id],
        cache: match t {
            TaskView::SendAnimation { animation, .. } => to_cache(t, kept_media(m, animation)),
            _ => None,
        },
    }
}

fn finish_animation(task: &Task, m: &SentMessage) -> (r: AnimationStep)
    ensures
        r@ == animation_done(task@, m@),
{
    let mut ids: Vec<i64> = Vec::new();
    ids.push(m.id);
    assert(ids@ =~= seq![m@.id]);
    let cache = match task {
        Task::SendAnimation { animation, .. } => {
            let mut media: Vec<CachedMedia> = Vec::new();
            if let Some(file_id) = file_id_of_message(m, animation) {
                media.push(
                    CachedMedia {
                        kind: animation.kind_of_item(),
                        file_id,
                        url: url_to_keep(animation),
                    },
                );
            }
            assert(crate::link_cache::media_views(media@) =~= kept_media(m@, animation@));
            cache_sent_task(task, media)
        },
        _ => None,
    };
    AnimationStep::Done { ids, cache }
}

/// What follows the first attempt: where the service could not fetch the
/// animation, or found it too large, it is uploaded.
pub open spec fn animation_tried(
    t: TaskView,
    result: Result<SentMessage, RequestError>,
    jitter: int,
) -> AnimationStepView {
    match result {
        Ok(m) => animation_done(t, m@),
        Err(e) => if super::classify::asks_for_upload(e) {
            AnimationStepView::PrepareUpload
        } else {
            AnimationStepView::Fail {
                error: super::classify::task_error(e, t, "media fetch failed"@, jitter),
            }
        },
    }
}

pub fn after_animation(task: &Task, result: Result<SentMessage, RequestError>, jitter: u64) -> (r:
    AnimationStep)
    requires
        jitter <= JITTER_TO_MS,
    ensures
        r@ == animation_tried(task@, result, jitter as int),
{
    match result {
        Ok(m) => finish_animation(task, &m),
        Err(e) => if needs_upload(&e) {
            AnimationStep::PrepareUpload
        } else {
            AnimationStep::Fail {
                error: classify_to_send_error(&e, task.duplicate(), "media fetch failed", jitter),
            }
        },
    }
}

pub open spec fn prepared_result(r: Result<GroupItem, FallbackError>) -> Result<
    GroupView,
    FallbackView,
> {
    match r {
        Ok(i) => Ok(i@),
        Err(e) => Err(e@),
    }
}

/// What follows the preparation.
pub fn after_prepare(task: &Task, prepared: Result<GroupItem, FallbackError>) -> (r: AnimationStep)
    ensures
        r@ == match prepared_result(prepared) {
            Ok(item) => AnimationStepView::Send { source: item.source },
            Err(e) => AnimationStepView::Fail {
                error: super::classify::with_task(e, task@),
            },
        },
{
    match prepared {
        Ok(item) => AnimationStep::Send { source: item.source },
        Err(e) => AnimationStep::Fail { error: SendError::from_fallback(e, task.duplicate()) },
    }
}

/// What follows the upload: there is no further way.
pub open spec fn animation_uploaded(
    t: TaskView,
    result: Result<SentMessage, RequestError>,
    jitter: int,
) -> AnimationStepView {
    match result {
        Ok(m) => animation_done(t, m@),
        Err(e) => AnimationStepView::Fail {
            error: super::classify::task_error(e, t, "media fetch failed"@, jitter),
        },
    }
}

pub fn after_animation_upload(
    task: &Task,
    result: Result<SentMessage, RequestError>,
    jitter: u64,
) -> (r: AnimationStep)
    requires
        jitter <= JITTER_TO_MS,
    ensures
        r@ == animation_uploaded(task@, result, jitter as int),
{
    match result {
        Ok(m) => finish_animation(task, &m),
        Err(e) => AnimationStep::Fail {
            error: classify_to_send_error(&e, task.duplicate(), "media fetch failed", jitter),
        },
    }
}

// ---- forwarding ----

/// What copying messages to a channel came to: nothing is downloaded, the files
/// are with the service already.
pub fn forward_messages(task: &Task, result: Result<(), RequestError>, jitter: u64) -> (r: Result<
    (),
    SendError,
>)
    requires
        jitter <= JITTER_TO_MS,
    ensures
        match (result, r) {
            (Ok(_), Ok(_)) => true,
            (Err(e), Err(error)) => error@ == super::classify::task_error(
                e,
                task@,
                "media fetch failed"@,
                jitter as int,
            ),
            _ => false,
        },
{
    match result {
        Ok(()) => Ok(()),
        Err(e) => Err(classify_to_send_error(&e, task.duplicate(), "media fetch failed", jitter)),
    }
}

// ---- laws of a lone animation ----

/// An animation that went out, at the first attempt or after an upload, leaves its own
/// message and its own file id; one that failed for good hands its task back unchanged.
/// It is uploaded only after the service could not take it by its address, and only
/// once.
pub proof fn law_an_animation_is_sent_or_handed_back(
    t: TaskView,
    result: Result<SentMessage, RequestError>,
    jitter: int,
)
    requires
        t is SendAnimation,
    ensures
        ({
            let tried = animation_tried(t, result, jitter);
            let uploaded = animation_uploaded(t, result, jitter);
            &&& tried is Done <==> result is Ok
            &&& uploaded is Done <==> result is Ok
            &&& tried is PrepareUpload <==> (result matches Err(e)
                && super::classify::asks_for_upload(e))
            &&& !(uploaded is PrepareUpload) && !(uploaded is Send) && !(tried is Send)
            &&& tried matches AnimationStepView::Done { ids, cache } ==> ids == seq![
                result->Ok_0.id,
            ] && cache == to_cache(t, kept_media(result->Ok_0@, t->SendAnimation_animation))
            &&& uploaded matches AnimationStepView::Done { ids, cache } ==> ids == seq![
                result->Ok_0.id,
            ] && cache == to_cache(t, kept_media(result->Ok_0@, t->SendAnimation_animation))
            &&& tried matches AnimationStepView::Fail { error } ==> (match error {
                SendErrorView::Retryable { task, .. } => task == t,
                SendErrorView::Permanent { task, .. } => task == t,
            })
            &&& uploaded matches AnimationStepView::Fail { error } ==> (match error {
                SendErrorView::Retryable { task, .. } => task == t,
                SendErrorView::Permanent { task, .. } => task == t,
            })
        }),
{
}

/// What a lone medium leaves for the cache is its own file id, where the service told
/// one, and nothing else.
pub proof fn law_a_sent_medium_is_remembered(m: SentView, item: ItemView)
    ensures
        kept_media(m, item).len() <= 1,
        all_told(seq![m], seq![item]) <==> kept_media(m, item).len() == 1,
        kept_media(m, item).len() == 1 ==> remembers(kept_media(m, item)[0], m, item),
{
    let batch = seq![item];
    let messages = seq![m];
    assert(batch[0] == item && messages[0] == m);
}

/// A failed upload hands back the task it was given, and repeats only what can still
/// succeed; work that broke off is given up, with the reason.
pub proof fn law_failed_uploads_keep_the_task(f: UploadFailure, t: TaskView, jitter: int)
    ensures
        match upload_error(f, t, jitter) {
            SendErrorView::Retryable { task, .. } => task == t && !(f is Panicked),
            SendErrorView::Permanent { task, .. } => task == t,
        },
        f matches UploadFailure::Panicked(e) ==> (upload_error(f, t, jitter)
            matches SendErrorView::Permanent { message, .. } && e@.is_suffix_of(message)),
        f matches UploadFailure::Prepare(e) ==> (e is Retryable <==> upload_error(
            f,
            t,
            jitter,
        ) is Retryable),
{
    if let UploadFailure::Panicked(e) = f {
        let message = "upload worker panicked: "@ + e@;
        assert(message.subrange(message.len() - e@.len(), message.len() as int) =~= e@);
    }
}

/// A finished run hands over every message it sent, in order. Only a run that sent the
/// whole task leaves it in the cache, and then with all media that it collected.
pub proof fn law_a_finished_run_hands_over_everything(r: RunView)
    ensures
        run_result(r).0 == r.sent,
        !r.fresh ==> run_result(r).1 is None,
        r.fresh && (r.task.cache() matches Some(post) && post.media.len() == 0) && r.media.len()
            > 0 ==> (run_result(r).1 matches Some(kept) && kept.media == r.media),
{
}

/// The caption is uploaded with the first medium of the first album, and with no other.
pub proof fn law_the_caption_is_uploaded_once(r: RunView, i: int)
    ensures
        r.task matches TaskView::SendMediaSequence { caption, .. } ==> medium_caption(r, i) == if i
            == 0 && r.index == 0 {
            Some(caption)
        } else {
            None
        },
{
}

/// A lone animation goes out from where it is, and one that cannot be found fails with
/// its task.
pub proof fn law_an_animation_is_sent_from_where_it_is(t: TaskView, present: Seq<Seq<char>>)
    requires
        t is SendAnimation,
    ensures
        match super::media::item_input(t->SendAnimation_animation, present) {
            Ok(from) => animation_begins(t, present) matches AnimationStepView::Send { source }
                && source == from,
            Err(words) => animation_begins(t, present) matches AnimationStepView::Fail { error }
                && error matches SendErrorView::Permanent { message, task } && message == words
                && task == t,
        },
{
}

/// What is read of a message is what the service told of it, its photo sizes in their
/// order.
pub proof fn law_a_message_is_what_was_told(m: SentMessage)
    ensures
        m@.id == m.id,
        m@.photos.len() == m.photo_file_ids@.len(),
        forall|i: int|
            0 <= i < m@.photos.len() ==> #[trigger] m@.photos[i] == m.photo_file_ids@[i]@,
        m@.video == crate::json::text_option(m.video_file_id),
        m@.animation == crate::json::text_option(m.animation_file_id),
{
}

/// A medium whose file id the service did not tell is left out, and the others stay in
/// their order.
pub proof fn law_untold_media_are_left_out(
    messages: Seq<SentView>,
    batch: Seq<ItemView>,
    n: int,
)
    requires
        0 <= n < messages.len(),
        n < batch.len(),
    ensures
        ({
            let before = collected(messages, batch, n);
            let after = collected(messages, batch, n + 1);
            let told = match batch[n] {
                ItemView::Photo { .. } => messages[n].photos.len() > 0,
                ItemView::Video { .. } => messages[n].video is Some,
                ItemView::Animation { .. } => messages[n].animation is Some,
            };
            &&& collected(messages, batch, 0).len() == 0
            &&& told ==> after.drop_last() == before && remembers(
                after.last(),
                messages[n],
                batch[n],
            )
            &&& !told ==> after == before
        }),
        paired(messages, batch) <= messages.len(),
        paired(messages, batch) <= batch.len(),
        paired(messages, batch) == messages.len() || paired(messages, batch) == batch.len(),
{
    let before = collected(messages, batch, n);
    let after = collected(messages, batch, n + 1);
    assert(after == before + kept_media(messages[n], batch[n]));
    if kept_media(messages[n], batch[n]).len() == 1 {
        assert(after.drop_last() =~= before);
    } else {
        assert(after =~= before);
    }
}

} // verus!
