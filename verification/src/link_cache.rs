//! The cache of successfully sent posts.
//!
//! A repeated link is answered from here: the caption fields and the file ids of
//! the first send are enough to send the post again without touching its site.
//! Entries expire. Times are milliseconds since the Unix epoch.
use crate::table::Table;
use vstd::prelude::*;

verus! {

#[derive(Clone, Copy, Debug, PartialEq, Eq, Structural)]
pub enum CachedMediaKind {
    Photo,
    Video,
    Animation,
}

/// One medium of a cached post.
#[derive(Debug)]
pub struct CachedMedia {
    pub kind: CachedMediaKind,
    /// What the chat service calls the uploaded file; empty where that name
    /// stopped working.
    pub file_id: String,
    /// The URL it was sent from; empty where it is not known.
    pub url: String,
}

/// [`CachedMedia`] over mathematical text.
#[verifier::ext_equal]
pub struct MediaView {
    pub kind: CachedMediaKind,
    pub file_id: Seq<char>,
    pub url: Seq<char>,
}

impl View for CachedMedia {
    type V = MediaView;

    open spec fn view(&self) -> MediaView {
        MediaView { kind: self.kind, file_id: self.file_id@, url: self.url@ }
    }
}

impl CachedMedia {
    pub fn duplicate(&self) -> (r: CachedMedia)
        ensures
            r@ == self@,
    {
        CachedMedia { kind: self.kind, file_id: self.file_id.clone(), url: self.url.clone() }
    }
}

/// Everything that is needed to send a post again.
#[derive(Debug)]
pub struct CachedPost {
    pub url: String,
    /// The caption of the first send, used where the chat has no format of its
    /// own.
    pub caption: String,
    pub title: String,
    pub content: String,
    pub author: String,
    pub author_url: String,
    pub tags: String,
    pub sensitive: bool,
    pub media: Vec<CachedMedia>,
}

/// [`CachedPost`] over mathematical text.
#[verifier::ext_equal]
pub struct PostView {
    pub url: Seq<char>,
    pub caption: Seq<char>,
    pub title: Seq<char>,
    pub content: Seq<char>,
    pub author: Seq<char>,
    pub author_url: Seq<char>,
    pub tags: Seq<char>,
    pub sensitive: bool,
    pub media: Seq<MediaView>,
}

/// Media, seen mathematically.
pub open spec fn media_views(v: Seq<CachedMedia>) -> Seq<MediaView> {
    v.map_values(|m: CachedMedia| m@)
}

impl View for CachedPost {
    type V = PostView;

    open spec fn view(&self) -> PostView {
        PostView {
            url: self.url@,
            caption: self.caption@,
            title: self.title@,
            content: self.content@,
            author: self.author@,
            author_url: self.author_url@,
            tags: self.tags@,
            sensitive: self.sensitive,
            media: media_views(self.media@),
        }
    }
}

fn duplicate_media(v: &Vec<CachedMedia>) -> (r: Vec<CachedMedia>)
    ensures
        media_views(r@) == media_views(v@),
{
    let mut out: Vec<CachedMedia> = Vec::new();
    let mut i: usize = 0;
    while i < v.len()
        invariant
            i == out@.len(),
            i <= v@.len(),
            forall|j: int| 0 <= j < i ==> (#[trigger] out@[j])@ == v@[j]@,
        decreases v@.len() - i,
    {
        out.push(v[i].duplicate());
        i = i + 1;
    }
    assert(media_views(out@) =~= media_views(v@));
    out
}

/// A medium whose file id was given up.
pub open spec fn without_file_id(m: MediaView) -> MediaView {
    MediaView { file_id: Seq::empty(), ..m }
}

/// What is left of a post whose file ids stopped working: the same post, to be
/// sent by URL. Nothing is left where a URL is not known, or where the post was
/// already sent by URL.
pub open spec fn degraded_post(p: PostView) -> Option<PostView> {
    if (exists|i: int| 0 <= i < p.media.len() && (#[trigger] p.media[i]).file_id.len() > 0) && (
    forall|i: int| 0 <= i < p.media.len() ==> (#[trigger] p.media[i]).url.len() > 0) {
        Some(PostView { media: p.media.map_values(|m: MediaView| without_file_id(m)), ..p })
    } else {
        None
    }
}

/// A post that may be missing, seen mathematically.
pub open spec fn post_option(p: Option<CachedPost>) -> Option<PostView> {
    match p {
        Some(p) => Some(p@),
        None => None,
    }
}

impl CachedPost {
    pub fn duplicate(&self) -> (r: CachedPost)
        ensures
            r@ == self@,
    {
        CachedPost {
            url: self.url.clone(),
            caption: self.caption.clone(),
            title: self.title.clone(),
            content: self.content.clone(),
            author: self.author.clone(),
            author_url: self.author_url.clone(),
            tags: self.tags.clone(),
            sensitive: self.sensitive,
            media: duplicate_media(&self.media),
        }
    }

    /// What to keep of this post when its file ids stopped working.
    pub fn degraded(&self) -> (r: Option<CachedPost>)
        ensures
            post_option(r) == degraded_post(self@),
    {
        let mut any_id = false;
        let mut all_urls = true;
        let mut media: Vec<CachedMedia> = Vec::new();
        let mut i: usize = 0;
        while i < self.media.len()
            invariant
                i == media@.len(),
                i <= self.media@.len(),
                self@.media.len() == self.media@.len(),
                forall|j: int| 0 <= j < i ==> (#[trigger] media@[j])@ == without_file_id(
                    self@.media[j],
                ),
                any_id == exists|j: int|
                    0 <= j < i && (#[trigger] self@.media[j]).file_id.len() > 0,
                all_urls == forall|j: int|
                    0 <= j < i ==> (#[trigger] self@.media[j]).url.len() > 0,
            decreases self.media@.len() - i,
        {
            assert(self@.media[i as int] == self.media@[i as int]@);
            let m = &self.media[i];
            if !m.file_id.as_str().is_empty() {
                any_id = true;
            }
            if m.url.as_str().is_empty() {
                all_urls = false;
            }
            let copy = CachedMedia { kind: m.kind, file_id: String::new(), url: m.url.clone() };
            assert(copy@ =~= without_file_id(m@));
            media.push(copy);
            i = i + 1;
        }
        if any_id && all_urls {
            proof {
                assert(media_views(media@) =~= self@.media.map_values(
                    |m: MediaView| without_file_id(m),
                ));
            }
            Some(
                CachedPost {
                    url: self.url.clone(),
                    caption: self.caption.clone(),
                    title: self.title.clone(),
                    content: self.content.clone(),
                    author: self.author.clone(),
                    author_url: self.author_url.clone(),
                    tags: self.tags.clone(),
                    sensitive: self.sensitive,
                    media,
                },
            )
        } else {
            None
        }
    }
}

/// A degraded post is the same post with the same URLs and no file id, and
/// cannot be degraded again.
pub proof fn law_degraded_posts_keep_their_urls(p: PostView)
    ensures
        degraded_post(p) matches Some(d) ==> {
            &&& d.media.len() == p.media.len()
            &&& d.caption == p.caption && d.url == p.url && d.sensitive == p.sensitive
            &&& forall|i: int|
                0 <= i < d.media.len() ==> (#[trigger] d.media[i]).url == p.media[i].url
                    && d.media[i].kind == p.media[i].kind && d.media[i].file_id.len() == 0
            &&& degraded_post(d) is None
        },
{
    if let Some(d) = degraded_post(p) {
        assert(forall|i: int|
            0 <= i < d.media.len() ==> (#[trigger] d.media[i]) == without_file_id(p.media[i]));
    }
}

// ---- the cache ----

/// A row of the cache. The post is missing where the stored one cannot be read
/// any more.
#[derive(Debug)]
pub struct CacheEntry {
    pub post: Option<CachedPost>,
    pub created_at: i64,
}

/// [`CacheEntry`] over mathematical values.
pub struct EntryView {
    pub post: Option<PostView>,
    pub created_at: int,
}

impl View for CacheEntry {
    type V = EntryView;

    open spec fn view(&self) -> EntryView {
        EntryView { post: post_option(self.post), created_at: self.created_at as int }
    }
}

/// The content of the cache.
#[derive(Debug)]
pub struct LinkCache {
    pub entries: Table<String, CacheEntry>,
}

impl View for LinkCache {
    type V = Map<Seq<char>, EntryView>;

    open spec fn view(&self) -> Map<Seq<char>, EntryView> {
        self.entries@
    }
}

/// An entry is expired once it is older than the time it may live.
pub open spec fn expired(e: EntryView, ttl: int, now: int) -> bool {
    now - e.created_at > ttl
}

/// What reading a key gives.
pub open spec fn cached(
    m: Map<Seq<char>, EntryView>,
    key: Seq<char>,
    ttl: int,
    now: int,
) -> Option<PostView> {
    if m.contains_key(key) && !expired(m[key], ttl, now) {
        m[key].post
    } else {
        None
    }
}

/// The cache after a key was read: an entry that could not be served is gone.
pub open spec fn after_read(
    m: Map<Seq<char>, EntryView>,
    key: Seq<char>,
    ttl: int,
    now: int,
) -> Map<Seq<char>, EntryView> {
    if m.contains_key(key) && cached(m, key, ttl, now) is None {
        m.remove(key)
    } else {
        m
    }
}

fn is_expired(created_at: i64, ttl: u64, now: i64) -> (r: bool)
    ensures
        r == (now - created_at > ttl),
{
    now as i128 - created_at as i128 > ttl as i128
}

/// A key that may be missing, seen as characters.
pub open spec fn key_option(key: Option<&str>) -> Option<Seq<char>> {
    match key {
        Some(k) => Some(k@),
        None => None,
    }
}

impl LinkCache {
    pub open spec fn wf(&self) -> bool {
        self.entries.wf()
    }

    /// An empty cache.
    pub fn new() -> (r: LinkCache)
        ensures
            r.wf(),
            r@ == Map::<Seq<char>, EntryView>::empty(),
    {
        LinkCache { entries: Table::new() }
    }

    /// The cached post of a key, if there is one that is not older than `ttl`.
    /// An entry that is too old, or that cannot be read, is removed.
    pub fn get(&mut self, key: &str, ttl: u64, now: i64) -> (r: Option<CachedPost>)
        requires
            old(self).wf(),
        ensures
            final(self).wf(),
            post_option(r) == cached(old(self)@, key@, ttl as int, now as int),
            final(self)@ == after_read(old(self)@, key@, ttl as int, now as int),
    {
        let name = key.to_owned();
        let found: Option<CachedPost> = match self.entries.get(&name) {
            None => {
                return None;
            },
            Some(entry) => if is_expired(entry.created_at, ttl, now) {
                None
            } else {
                match &entry.post {
                    Some(post) => Some(post.duplicate()),
                    None => None,
                }
            },
        };
        if found.is_none() {
            let _ = self.entries.remove(&name);
        }
        found
    }

    /// Stores a post; a former entry of the key gives way.
    pub fn put(&mut self, key: &str, post: CachedPost, now: i64)
        requires
            old(self).wf(),
        ensures
            final(self).wf(),
            final(self)@ == old(self)@.insert(
                key@,
                EntryView { post: Some(post@), created_at: now as int },
            ),
    {
        self.entries.insert(key.to_owned(), CacheEntry { post: Some(post), created_at: now });
    }

    /// Drops an entry.
    pub fn remove(&mut self, key: &str)
        requires
            old(self).wf(),
        ensures
            final(self).wf(),
            final(self)@ == old(self)@.remove(key@),
    {
        let _ = self.entries.remove(&key.to_owned());
    }

    /// Removes the expired entries; returns how many.
    pub fn prune(&mut self, ttl: u64, now: i64) -> (r: usize)
        requires
            old(self).wf(),
        ensures
            final(self).wf(),
            final(self)@ == crate::table::kept(
                old(self)@,
                |e: EntryView| !expired(e, ttl as int, now as int),
            ),
            old(self)@.dom().finite(),
            final(self)@.dom().finite(),
            r == old(self)@.len() - final(self)@.len(),
    {
        let ghost p = |e: EntryView| !expired(e, ttl as int, now as int);
        let mut keep: Vec<bool> = Vec::new();
        let mut i: usize = 0;
        while i < self.entries.entries.len()
            invariant
                i == keep@.len(),
                i <= self.entries.entries@.len(),
                forall|j: int|
                    0 <= j < i ==> #[trigger] keep@[j] == !expired(
                        self.entries.list()[j].1,
                        ttl as int,
                        now as int,
                    ),
            decreases self.entries.entries@.len() - i,
        {
            assert(self.entries.list()[i as int] == crate::table::seen(
                self.entries.entries@[i as int],
            ));
            keep.push(!is_expired(self.entries.entries[i].1.created_at, ttl, now));
            i = i + 1;
        }
        self.entries.retain(&keep, Ghost(p))
    }

    /// Removes the entry of a key, or all entries; returns how many.
    pub fn clear(&mut self, key: Option<&str>) -> (r: usize)
        requires
            old(self).wf(),
        ensures
            final(self).wf(),
            final(self)@ == match key_option(key) {
                Some(k) => old(self)@.remove(k),
                None => Map::<Seq<char>, EntryView>::empty(),
            },
            old(self)@.dom().finite(),
            r == match key_option(key) {
                Some(k) => if old(self)@.contains_key(k) {
                    1nat
                } else {
                    0nat
                },
                None => old(self)@.len(),
            },
    {
        let count: usize = self.entries.len();
        match key {
            Some(key) => match self.entries.remove(&key.to_owned()) {
                Some(_) => 1,
                None => 0,
            },
            None => {
                self.entries = Table::new();
                count
            },
        }
    }
}

/// What was stored under a key is read back until it expires, and other keys are
/// not touched by storing it.
pub proof fn law_read_gives_back_what_was_written(
    m: Map<Seq<char>, EntryView>,
    key: Seq<char>,
    other: Seq<char>,
    post: PostView,
    written: int,
    ttl: int,
    now: int,
)
    requires
        other != key,
    ensures
        ({
            let after = m.insert(key, EntryView { post: Some(post), created_at: written });
            &&& now - written <= ttl ==> cached(after, key, ttl, now) == Some(post)
            &&& now - written > ttl ==> cached(after, key, ttl, now) is None
            &&& cached(after, other, ttl, now) == cached(m, other, ttl, now)
        }),
{
}

/// An entry that a read did not serve is not there for a later read, whatever
/// that one allows; reading one key leaves the others alone.
pub proof fn law_unserved_entries_are_dropped(
    m: Map<Seq<char>, EntryView>,
    key: Seq<char>,
    other: Seq<char>,
    ttl: int,
    now: int,
    later_ttl: int,
    later: int,
)
    requires
        other != key,
    ensures
        ({
            let after = after_read(m, key, ttl, now);
            &&& cached(m, key, ttl, now) is None ==> cached(after, key, later_ttl, later) is None
            &&& cached(m, key, ttl, now) is Some ==> after == m
            &&& cached(after, other, later_ttl, later) == cached(m, other, later_ttl, later)
        }),
{
}

/// Pruning takes exactly what no read would serve for its age: afterwards every
/// key reads as before.
pub proof fn law_prune_takes_only_what_expired(
    m: Map<Seq<char>, EntryView>,
    key: Seq<char>,
    ttl: int,
    now: int,
)
    ensures
        cached(
            crate::table::kept(m, |e: EntryView| !expired(e, ttl, now)),
            key,
            ttl,
            now,
        ) == cached(m, key, ttl, now),
{
}

/// A post can be kept by its URLs exactly where it had a file id to give up and every
/// medium has a URL; then nothing of it changes but the file ids.
pub proof fn law_posts_with_urls_are_kept(p: PostView)
    ensures
        degraded_post(p) is Some <==> (exists|i: int|
            0 <= i < p.media.len() && (#[trigger] p.media[i]).file_id.len() > 0) && (forall|i: int|
            0 <= i < p.media.len() ==> (#[trigger] p.media[i]).url.len() > 0),
        degraded_post(p) matches Some(d) ==> {
            &&& d.title == p.title
            &&& d.content == p.content
            &&& d.author == p.author
            &&& d.author_url == p.author_url
            &&& d.tags == p.tags
            &&& d.url == p.url
            &&& d.caption == p.caption
            &&& d.sensitive == p.sensitive
        },
{
}

/// An entry lives for as long as it may, to the millisecond, and pruning leaves every
/// entry that still lives as it is.
pub proof fn law_entries_live_as_long_as_they_may(
    m: Map<Seq<char>, EntryView>,
    key: Seq<char>,
    ttl: int,
    now: int,
)
    requires
        m.contains_key(key),
    ensures
        expired(m[key], ttl, now) <==> m[key].created_at + ttl < now,
        ({
            let left = crate::table::kept(m, |e: EntryView| !expired(e, ttl, now));
            &&& left.contains_key(key) <==> now <= m[key].created_at + ttl
            &&& left.contains_key(key) ==> left[key] == m[key]
        }),
{
}

/// What is read of a cached post is what was stored, its media in their order.
pub proof fn law_a_cached_post_is_what_was_stored(p: CachedPost, i: int)
    ensures
        p@.url == p.url@,
        p@.caption == p.caption@,
        p@.title == p.title@,
        p@.content == p.content@,
        p@.author == p.author@,
        p@.author_url == p.author_url@,
        p@.tags == p.tags@,
        p@.sensitive == p.sensitive,
        p@.media.len() == p.media@.len(),
        0 <= i < p.media@.len() ==> p@.media[i].kind == p.media@[i].kind && p@.media[i].file_id
            == p.media@[i].file_id@ && p@.media[i].url == p.media@[i].url@,
{
}

} // verus!
