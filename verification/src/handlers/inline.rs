//! Inline queries. A client sends one with every keystroke, so a query is
//! answered only once it has stood for a while. Times are in milliseconds.
use crate::link_cache::{CachedMedia, CachedMediaKind, CachedPost, MediaView};
use crate::links::parse_url;
use crate::site::{Fetched, Media, SiteMediaView};
use crate::table::Table;
use crate::text::{chars_of, decimal, same};
use vstd::prelude::*;

verus! {

/// How long a query has to stand before it is answered.
pub const INLINE_DEBOUNCE_MS: u64 = 800;

/// How long an answer is kept by the service, and with it what is remembered of a
/// query.
pub const INLINE_STATE_TTL_MS: u64 = 300000;

/// How many results an answer may hold.
pub const MAX_INLINE_RESULTS: usize = 50;

// ---- queries that are being typed ----

/// A user's newest query.
#[derive(Debug)]
pub struct DebounceEntry {
    pub query: String,
    /// Which of all queries it was.
    pub generation: u64,
    pub answered: bool,
    pub last_seen: u64,
}

/// [`DebounceEntry`] over mathematical text.
#[verifier::ext_equal]
pub struct DebounceView {
    pub query: Seq<char>,
    pub generation: u64,
    pub answered: bool,
    pub last_seen: u64,
}

impl View for DebounceEntry {
    type V = DebounceView;

    open spec fn view(&self) -> DebounceView {
        DebounceView {
            query: self.query@,
            generation: self.generation,
            answered: self.answered,
            last_seen: self.last_seen,
        }
    }
}

/// The newest query of each user.
#[derive(Debug)]
pub struct DebounceStates {
    pub entries: Table<u64, DebounceEntry>,
    /// The newest query of all.
    pub generation: u64,
}

/// [`DebounceStates`] over mathematical values.
#[verifier::ext_equal]
pub struct StatesView {
    pub entries: Map<u64, DebounceView>,
    pub generation: u64,
}

impl View for DebounceStates {
    type V = StatesView;

    open spec fn view(&self) -> StatesView {
        StatesView { entries: self.entries@, generation: self.generation }
    }
}

pub open spec fn next_generation(g: u64) -> u64 {
    if g == u64::MAX {
        0
    } else {
        (g + 1) as u64
    }
}

/// Whether a query repeats one that was answered: the service answers it itself.
pub open spec fn is_repeat(s: StatesView, user: u64, query: Seq<char>) -> bool {
    s.entries.contains_key(user) && s.entries[user].query == query && s.entries[user].answered
}

/// The states after a query came in that is to be answered.
pub open spec fn noted(s: StatesView, user: u64, query: Seq<char>, now: u64) -> StatesView {
    let generation = next_generation(s.generation);
    StatesView {
        entries: s.entries.insert(
            user,
            DebounceView { query, generation, answered: false, last_seen: now },
        ),
        generation,
    }
}

/// Whether a query is still the user's newest.
pub open spec fn is_current(s: StatesView, user: u64, query: Seq<char>, generation: u64) -> bool {
    s.entries.contains_key(user) && s.entries[user].query == query && s.entries[user].generation
        == generation
}

/// Whether a query may be answered now.
pub open spec fn claimable(s: StatesView, user: u64, query: Seq<char>, generation: u64) -> bool {
    is_current(s, user, query, generation) && !s.entries[user].answered
}

/// The states with a user's newest query marked.
pub open spec fn marked(s: StatesView, user: u64, answered: bool, now: u64) -> StatesView {
    StatesView {
        entries: s.entries.insert(
            user,
            DebounceView { answered, last_seen: now, ..s.entries[user] },
        ),
        ..s
    }
}

/// Whether nothing was heard of a query for a while.
pub open spec fn is_idle(e: DebounceView, now: int, idle_for: int) -> bool {
    (if now >= e.last_seen {
        now - e.last_seen
    } else {
        0
    }) >= idle_for
}

impl Default for DebounceStates {
    fn default() -> (r: DebounceStates)
        ensures
            r.wf(),
            r@ == (StatesView { entries: Map::empty(), generation: 0 }),
    {
        DebounceStates { entries: Table::new(), generation: 0 }
    }
}

impl DebounceStates {
    pub open spec fn wf(&self) -> bool {
        self.entries.wf()
    }

    /// Takes in a query. The result says whether it is to be answered, and which
    /// of all queries it is.
    pub fn note(&mut self, user: u64, query: &str, now: u64) -> (r: (bool, u64))
        requires
            old(self).wf(),
        ensures
            final(self).wf(),
            is_repeat(old(self)@, user, query@) ==> final(self)@ == old(self)@ && r == (
                false,
                old(self)@.entries[user].generation,
            ),
            !is_repeat(old(self)@, user, query@) ==> final(self)@ == noted(
                old(self)@,
                user,
                query@,
                now,
            ) && r == (true, next_generation(old(self)@.generation)),
    {
        match self.entries.get(&user) {
            Some(e) => {
                if e.answered && same(e.query.as_str(), query) {
                    return (false, e.generation);
                }
            },
            None => {},
        }
        self.generation = if self.generation == u64::MAX {
            0
        } else {
            self.generation + 1
        };
        let generation: u64 = self.generation;
        self.entries.insert(
            user,
            DebounceEntry { query: query.to_owned(), generation, answered: false, last_seen: now },
        );
        (true, generation)
    }

    /// The state of a query that is still the user's newest, with its mark.
    fn current(&self, user: u64, query: &str, generation: u64) -> (r: Option<bool>)
        requires
            self.wf(),
        ensures
            match r {
                Some(answered) => is_current(self@, user, query@, generation)
                    && self@.entries[user].answered == answered,
                None => !is_current(self@, user, query@, generation),
            },
    {
        match self.entries.get(&user) {
            Some(e) => {
                if e.generation == generation && same(e.query.as_str(), query) {
                    Some(e.answered)
                } else {
                    None
                }
            },
            None => None,
        }
    }

    fn mark(&mut self, user: u64, answered: bool, now: u64)
        requires
            old(self).wf(),
            old(self)@.entries.contains_key(user),
        ensures
            final(self).wf(),
            final(self)@ == marked(old(self)@, user, answered, now),
    {
        let changed = match self.entries.get(&user) {
            Some(e) => Some(
                DebounceEntry {
                    query: e.query.clone(),
                    generation: e.generation,
                    answered,
                    last_seen: now,
                },
            ),
            None => None,
        };
        match changed {
            Some(e) => {
                self.entries.insert(user, e);
            },
            None => {},
        }
    }

    /// Takes the right to answer a query; only its newest form has one, and only
    /// once.
    pub fn claim(&mut self, user: u64, query: &str, generation: u64, now: u64) -> (r: bool)
        requires
            old(self).wf(),
        ensures
            final(self).wf(),
            r == claimable(old(self)@, user, query@, generation),
            final(self)@ == if r {
                marked(old(self)@, user, true, now)
            } else {
                old(self)@
            },
    {
        match self.current(user, query, generation) {
            Some(answered) => {
                if answered {
                    return false;
                }
                self.mark(user, true, now);
                true
            },
            None => false,
        }
    }

    /// Gives the right to answer a query back.
    pub fn release(&mut self, user: u64, query: &str, generation: u64, now: u64)
        requires
            old(self).wf(),
        ensures
            final(self).wf(),
            final(self)@ == if is_current(old(self)@, user, query@, generation) {
                marked(old(self)@, user, false, now)
            } else {
                old(self)@
            },
    {
        if self.current(user, query, generation).is_some() {
            self.mark(user, false, now);
        }
    }

    /// Forgets the queries of which nothing was heard for a while; returns how
    /// many.
    pub fn prune_idle_at(&mut self, now: u64, idle_for: u64) -> (r: usize)
        requires
            old(self).wf(),
        ensures
            final(self).wf(),
            final(self)@ == (StatesView {
                entries: crate::table::kept(
                    old(self)@.entries,
                    |e: DebounceView| !is_idle(e, now as int, idle_for as int),
                ),
                ..old(self)@
            }),
            r == old(self)@.entries.len() - final(self)@.entries.len(),
    {
        let ghost p = |e: DebounceView| !is_idle(e, now as int, idle_for as int);
        let ghost list = self.entries.list();
        let mut keep: Vec<bool> = Vec::new();
        let mut i: usize = 0;
        while i < self.entries.entries.len()
            invariant
                self.wf(),
                list == self.entries.list(),
                i == keep@.len(),
                i <= self.entries.entries@.len(),
                forall|j: int|
                    0 <= j < i ==> #[trigger] keep@[j] == !is_idle(
                        list[j].1,
                        now as int,
                        idle_for as int,
                    ),
            decreases self.entries.entries@.len() - i,
        {
            assert(list[i as int] == crate::table::seen(self.entries.entries@[i as int]));
            let seen: u64 = self.entries.entries[i].1.last_seen;
            let age: u64 = if now >= seen {
                now - seen
            } else {
                0
            };
            keep.push(age < idle_for);
            i = i + 1;
        }
        self.entries.retain(&keep, Ghost(p))
    }
}

/// What is done about a query as it comes in.
#[derive(Clone, Copy, Debug, PartialEq, Eq, Structural)]
pub enum InlineStep {
    /// Nothing to wait for: no site knows it.
    AnswerNow,
    /// The service answers it itself.
    Suppressed,
    /// Answer it if it still stands after a while.
    Wait { generation: u64 },
}

/// Takes in a query. `key` is the key of the post that it links to, where a site
/// knows it.
pub fn inline_query_handler(
    states: &mut DebounceStates,
    query: &str,
    key: Option<&str>,
    user: u64,
    now: u64,
) -> (r: InlineStep)
    requires
        old(states).wf(),
    ensures
        final(states).wf(),
        (query@.len() == 0 || key is None) ==> r == InlineStep::AnswerNow && final(states)@ == old(
            states,
        )@,
        query@.len() > 0 && key is Some ==> (if is_repeat(old(states)@, user, query@) {
            r == InlineStep::Suppressed && final(states)@ == old(states)@
        } else {
            r == (InlineStep::Wait { generation: next_generation(old(states)@.generation) })
                && final(states)@ == noted(old(states)@, user, query@, now)
        }),
{
    if chars_of(query).len() == 0 || key.is_none() {
        return InlineStep::AnswerNow;
    }
    let (fresh, generation) = states.note(user, query, now);
    if fresh {
        InlineStep::Wait { generation }
    } else {
        InlineStep::Suppressed
    }
}

// ---- the answer ----

/// A result of an inline query.
#[derive(Debug)]
pub enum InlineResult {
    /// A file that the service already has.
    Cached { id: String, kind: CachedMediaKind, file: String, title: String, caption: String },
    /// A file that the service fetches itself.
    Url {
        id: String,
        kind: CachedMediaKind,
        url: String,
        thumbnail: String,
        title: String,
        caption: String,
    },
}

/// [`InlineResult`] over mathematical text.
#[verifier::ext_equal]
pub enum InlineResultView {
    Cached {
        id: Seq<char>,
        kind: CachedMediaKind,
        file: Seq<char>,
        title: Seq<char>,
        caption: Seq<char>,
    },
    Url {
        id: Seq<char>,
        kind: CachedMediaKind,
        url: Seq<char>,
        thumbnail: Seq<char>,
        title: Seq<char>,
        caption: Seq<char>,
    },
}

impl View for InlineResult {
    type V = InlineResultView;

    open spec fn view(&self) -> InlineResultView {
        match self {
            InlineResult::Cached { id, kind, file, title, caption } => InlineResultView::Cached {
                id: id@,
                kind: *kind,
                file: file@,
                title: title@,
                caption: caption@,
            },
            InlineResult::Url { id, kind, url, thumbnail, title, caption } =>
                InlineResultView::Url {
                id: id@,
                kind: *kind,
                url: url@,
                thumbnail: thumbnail@,
                title: title@,
                caption: caption@,
            },
        }
    }
}

pub open spec fn result_views(v: Seq<InlineResult>) -> Seq<InlineResultView> {
    v.map_values(|r: InlineResult| r@)
}

pub open spec fn result_option(r: Option<InlineResult>) -> Option<InlineResultView> {
    match r {
        Some(r) => Some(r@),
        None => None,
    }
}

/// The result for a cached medium, whose URL parses as `url` says. A file id
/// serves any medium. Without one, a medium that needs the site's headers cannot
/// be served, and neither can a video, which has no thumbnail.
pub open spec fn cached_answer(
    i: nat,
    m: MediaView,
    title: Seq<char>,
    caption: Seq<char>,
    guarded: bool,
    url: Result<Seq<char>, Seq<char>>,
) -> Option<InlineResultView> {
    if m.file_id.len() > 0 {
        Some(
            InlineResultView::Cached {
                id: crate::text::digits(i),
                kind: m.kind,
                file: m.file_id,
                title,
                caption,
            },
        )
    } else if guarded || m.kind == CachedMediaKind::Video {
        None
    } else {
        match url {
            Ok(url) => Some(
                InlineResultView::Url {
                    id: crate::text::digits(i),
                    kind: m.kind,
                    url,
                    thumbnail: url,
                    title,
                    caption,
                },
            ),
            Err(_) => None,
        }
    }
}

pub fn cached_result(
    i: usize,
    m: &CachedMedia,
    title: &str,
    caption: &str,
    guarded: bool,
    url: Result<String, String>,
) -> (r: Option<InlineResult>)
    ensures
        result_option(r) == cached_answer(
            i as nat,
            m@,
            title@,
            caption@,
            guarded,
            crate::links::text_result(url),
        ),
{
    if chars_of(m.file_id.as_str()).len() > 0 {
        return Some(
            InlineResult::Cached {
                id: decimal(i as u64),
                kind: m.kind,
                file: m.file_id.clone(),
                title: title.to_owned(),
                caption: caption.to_owned(),
            },
        );
    }
    if guarded || m.kind == CachedMediaKind::Video {
        return None;
    }
    match url {
        Ok(url) => {
            let thumbnail = url.clone();
            Some(
                InlineResult::Url {
                    id: decimal(i as u64),
                    kind: m.kind,
                    url,
                    thumbnail,
                    title: title.to_owned(),
                    caption: caption.to_owned(),
                },
            )
        },
        Err(_) => None,
    }
}

/// The results for the first media of a cached post.
pub open spec fn cached_answers(
    media: Seq<MediaView>,
    title: Seq<char>,
    caption: Seq<char>,
    guarded: Seq<bool>,
    n: nat,
) -> Seq<InlineResultView>
    decreases n,
{
    if n == 0 {
        Seq::empty()
    } else {
        let i = (n - 1) as nat;
        let before = cached_answers(media, title, caption, guarded, i);
        match cached_answer(
            i,
            media[i as int],
            title,
            caption,
            guarded[i as int],
            crate::links::url_of(media[i as int].url),
        ) {
            Some(r) => before.push(r),
            None => before,
        }
    }
}

/// How many media an answer looks at.
pub open spec fn considered(n: nat) -> nat {
    if n <= MAX_INLINE_RESULTS {
        n
    } else {
        MAX_INLINE_RESULTS as nat
    }
}

/// The results for a cached post. `guarded` says of each medium whether its site
/// serves it only with headers of its own.
pub fn cached_inline_results(post: &CachedPost, caption: &str, guarded: &Vec<bool>) -> (r: Vec<
    InlineResult,
>)
    requires
        guarded@.len() == post.media@.len(),
    ensures
        result_views(r@) == cached_answers(
            post@.media,
            post@.title,
            caption@,
            guarded@,
            considered(post@.media.len()),
        ),
{
    let ghost media = post@.media;
    let mut out: Vec<InlineResult> = Vec::new();
    let mut i: usize = 0;
    assert(result_views(out@) =~= Seq::<InlineResultView>::empty());
    while i < post.media.len() && i < MAX_INLINE_RESULTS
        invariant
            guarded@.len() == post.media@.len(),
            media == post@.media,
            i <= post.media@.len(),
            i <= MAX_INLINE_RESULTS,
            result_views(out@) == cached_answers(
                media,
                post@.title,
                caption@,
                guarded@,
                i as nat,
            ),
        decreases post.media@.len() - i,
    {
        assert(media[i as int] == post.media@[i as int]@);
        let url = parse_url(post.media[i].url.as_str());
        let ghost had = out@;
        match cached_result(
            i,
            &post.media[i],
            post.title.as_str(),
            caption,
            guarded[i],
            url,
        ) {
            Some(r) => {
                out.push(r);
                assert(result_views(out@) =~= result_views(had).push(r@));
            },
            None => {},
        }
        i = i + 1;
    }
    out
}

/// A URL where it parses, else another one.
pub open spec fn parsed_or(url: Option<Result<Seq<char>, Seq<char>>>, other: Seq<char>) -> Seq<
    char,
> {
    match url {
        Some(Ok(url)) => url,
        _ => other,
    }
}

/// The result for a medium of a post, whose three URLs parse as the last
/// arguments say. A smaller variant is preferred to the medium itself.
pub open spec fn fetched_answer(
    i: nat,
    kind: CachedMediaKind,
    title: Seq<char>,
    caption: Seq<char>,
    guarded: bool,
    url: Result<Seq<char>, Seq<char>>,
    thumbnail: Option<Result<Seq<char>, Seq<char>>>,
    smaller: Option<Result<Seq<char>, Seq<char>>>,
) -> Option<InlineResultView> {
    if guarded {
        None
    } else {
        match url {
            Ok(url) => Some(
                InlineResultView::Url {
                    id: crate::text::digits(i),
                    kind,
                    url: parsed_or(smaller, url),
                    thumbnail: parsed_or(thumbnail, url),
                    title,
                    caption,
                },
            ),
            Err(_) => None,
        }
    }
}

pub open spec fn parse_option(r: Option<Result<String, String>>) -> Option<
    Result<Seq<char>, Seq<char>>,
> {
    match r {
        Some(r) => Some(crate::links::text_result(r)),
        None => None,
    }
}

fn take_parsed(url: Option<Result<String, String>>, other: &String) -> (r: String)
    ensures
        r@ == parsed_or(parse_option(url), other@),
{
    match url {
        Some(Ok(url)) => url,
        _ => other.clone(),
    }
}

pub fn url_result(
    i: usize,
    kind: CachedMediaKind,
    title: &str,
    caption: &str,
    guarded: bool,
    url: Result<String, String>,
    thumbnail: Option<Result<String, String>>,
    smaller: Option<Result<String, String>>,
) -> (r: Option<InlineResult>)
    ensures
        result_option(r) == fetched_answer(
            i as nat,
            kind,
            title@,
            caption@,
            guarded,
            crate::links::text_result(url),
            parse_option(thumbnail),
            parse_option(smaller),
        ),
{
    if guarded {
        return None;
    }
    match url {
        Ok(url) => {
            let shown = take_parsed(smaller, &url);
            let thumbnail = take_parsed(thumbnail, &url);
            Some(
                InlineResult::Url {
                    id: decimal(i as u64),
                    kind,
                    url: shown,
                    thumbnail,
                    title: title.to_owned(),
                    caption: caption.to_owned(),
                },
            )
        },
        Err(_) => None,
    }
}

/// How a URL that may be missing parses.
pub open spec fn parse_of(url: Option<Seq<char>>) -> Option<Result<Seq<char>, Seq<char>>> {
    match url {
        Some(url) => Some(crate::links::url_of(url)),
        None => None,
    }
}

fn parse_optional(url: Option<String>) -> (r: Option<Result<String, String>>)
    ensures
        parse_option(r) == parse_of(crate::json::text_option(url)),
{
    match url {
        Some(url) => Some(parse_url(url.as_str())),
        None => None,
    }
}

/// The results for the first media of a post.
pub open spec fn fetched_answers(
    media: Seq<SiteMediaView>,
    title: Seq<char>,
    caption: Seq<char>,
    guarded: Seq<bool>,
    n: nat,
) -> Seq<InlineResultView>
    decreases n,
{
    if n == 0 {
        Seq::empty()
    } else {
        let i = (n - 1) as nat;
        let m = media[i as int];
        let before = fetched_answers(media, title, caption, guarded, i);
        match fetched_answer(
            i,
            m.kind,
            title,
            caption,
            guarded[i as int],
            crate::links::url_of(m.url),
            parse_of(m.thumbnail),
            parse_of(m.smaller),
        ) {
            Some(r) => before.push(r),
            None => before,
        }
    }
}

/// The results for a post that was fetched; `guarded` is as in
/// [`cached_inline_results`].
pub fn fetched_inline_results(
    media: &Vec<Media>,
    title: &str,
    caption: &str,
    guarded: &Vec<bool>,
) -> (r: Vec<InlineResult>)
    requires
        guarded@.len() == media@.len(),
    ensures
        result_views(r@) == fetched_answers(
            crate::site::site_media_views(media@),
            title@,
            caption@,
            guarded@,
            considered(media@.len()),
        ),
{
    let ghost all = crate::site::site_media_views(media@);
    let mut out: Vec<InlineResult> = Vec::new();
    let mut i: usize = 0;
    assert(result_views(out@) =~= Seq::<InlineResultView>::empty());
    while i < media.len() && i < MAX_INLINE_RESULTS
        invariant
            guarded@.len() == media@.len(),
            all == crate::site::site_media_views(media@),
            i <= media@.len(),
            i <= MAX_INLINE_RESULTS,
            result_views(out@) == fetched_answers(all, title@, caption@, guarded@, i as nat),
        decreases media@.len() - i,
    {
        assert(all[i as int] == media@[i as int]@);
        let url = parse_url(media[i].url().as_str());
        let thumbnail = parse_optional(media[i].thumbnail_url());
        let smaller = parse_optional(media[i].smaller_url());
        let ghost had = out@;
        match url_result(
            i,
            media[i].kind(),
            title,
            caption,
            guarded[i],
            url,
            thumbnail,
            smaller,
        ) {
            Some(r) => {
                out.push(r);
                assert(result_views(out@) =~= result_views(had).push(r@));
            },
            None => {},
        }
        i = i + 1;
    }
    out
}

/// The caption of an inline answer: the cut caption, with the text of a long post
/// quoted.
pub fn inline_caption(truncated: &str, text: &str, quote_chars: usize) -> (r: String)
    ensures
        crate::caption::quotes(truncated@, text@, quote_chars as int, r@),
{
    crate::caption::quote_long_caption(truncated, text, quote_chars)
}

/// What was found for a query.
#[derive(Debug)]
pub enum InlineSource {
    /// No site knows it.
    Unknown,
    /// The post was sent before.
    Cached(CachedPost),
    /// The post was fetched, if there is one and the fetch went through.
    Fetched(Option<Fetched>),
}

/// How many media were found for a query.
pub open spec fn media_count(source: InlineSource) -> nat {
    match source {
        InlineSource::Unknown => 0,
        InlineSource::Cached(post) => post.media@.len(),
        InlineSource::Fetched(Some(f)) => f.media@.len(),
        InlineSource::Fetched(None) => 0,
    }
}

/// The results that a query is answered with, given the caption of each. Where
/// there are none the answer is empty.
pub open spec fn answers_to(
    source: InlineSource,
    caption: Seq<char>,
    guarded: Seq<bool>,
) -> Seq<InlineResultView> {
    match source {
        InlineSource::Unknown => Seq::empty(),
        InlineSource::Cached(post) => cached_answers(
            post@.media,
            post@.title,
            caption,
            guarded,
            considered(post@.media.len()),
        ),
        InlineSource::Fetched(Some(f)) => fetched_answers(
            crate::site::site_media_views(f.media@),
            f.title@,
            caption,
            guarded,
            considered(f.media@.len()),
        ),
        InlineSource::Fetched(None) => Seq::empty(),
    }
}

/// Answers a query. `truncated` is the caption cut to the service's limit and
/// `text` the post's title and content; the rest is as in
/// [`cached_inline_results`].
pub fn answer_inline_query(
    source: &InlineSource,
    truncated: &str,
    text: &str,
    quote_chars: usize,
    guarded: &Vec<bool>,
) -> (r: Vec<InlineResult>)
    requires
        guarded@.len() == media_count(*source),
    ensures
        exists|caption: Seq<char>|
            #[trigger] crate::caption::quotes(truncated@, text@, quote_chars as int, caption)
                && result_views(r@) == answers_to(*source, caption, guarded@),
{
    let caption = inline_caption(truncated, text, quote_chars);
    let r = match source {
        InlineSource::Cached(post) => cached_inline_results(post, caption.as_str(), guarded),
        InlineSource::Fetched(Some(f)) => fetched_inline_results(
            &f.media,
            f.title.as_str(),
            caption.as_str(),
            guarded,
        ),
        _ => Vec::new(),
    };
    assert(result_views(r@) =~= answers_to(*source, caption@, guarded@));
    r
}

// ---- laws ----

/// An answer never holds more results than the service takes.
pub proof fn law_answers_are_capped(
    cached: Seq<MediaView>,
    fetched: Seq<SiteMediaView>,
    title: Seq<char>,
    caption: Seq<char>,
    guarded: Seq<bool>,
)
    ensures
        cached_answers(cached, title, caption, guarded, considered(cached.len())).len()
            <= MAX_INLINE_RESULTS,
        fetched_answers(fetched, title, caption, guarded, considered(fetched.len())).len()
            <= MAX_INLINE_RESULTS,
{
    lemma_cached_count(cached, title, caption, guarded, considered(cached.len()));
    lemma_fetched_count(fetched, title, caption, guarded, considered(fetched.len()));
}

proof fn lemma_cached_count(
    media: Seq<MediaView>,
    title: Seq<char>,
    caption: Seq<char>,
    guarded: Seq<bool>,
    n: nat,
)
    ensures
        cached_answers(media, title, caption, guarded, n).len() <= n,
    decreases n,
{
    if n > 0 {
        lemma_cached_count(media, title, caption, guarded, (n - 1) as nat);
    }
}

proof fn lemma_fetched_count(
    media: Seq<SiteMediaView>,
    title: Seq<char>,
    caption: Seq<char>,
    guarded: Seq<bool>,
    n: nat,
)
    ensures
        fetched_answers(media, title, caption, guarded, n).len() <= n,
    decreases n,
{
    if n > 0 {
        lemma_fetched_count(media, title, caption, guarded, (n - 1) as nat);
    }
}

/// A post whose media all have file ids is answered with every one of them, in
/// order, up to the cap, whatever headers its site wants.
pub proof fn law_cached_posts_answer_in_full(
    media: Seq<MediaView>,
    title: Seq<char>,
    caption: Seq<char>,
    guarded: Seq<bool>,
    n: nat,
)
    requires
        n <= media.len(),
        forall|i: int| 0 <= i < media.len() ==> (#[trigger] media[i]).file_id.len() > 0,
    ensures
        cached_answers(media, title, caption, guarded, n).len() == n,
        forall|i: int|
            0 <= i < n ==> (#[trigger] cached_answers(media, title, caption, guarded, n)[i])
                == (InlineResultView::Cached {
                id: crate::text::digits(i as nat),
                kind: media[i].kind,
                file: media[i].file_id,
                title,
                caption,
            }),
    decreases n,
{
    if n > 0 {
        law_cached_posts_answer_in_full(media, title, caption, guarded, (n - 1) as nat);
        assert(media[n - 1].file_id.len() > 0);
    }
}

/// Whether a result is the one for a medium: its id is the medium's position, it is
/// of the medium's kind, and it carries the title and the caption of the answer. A file
/// that the service has is the medium's own.
pub open spec fn answers_for(
    r: InlineResultView,
    position: int,
    medium: CachedMediaKind,
    words: Seq<char>,
    text: Seq<char>,
) -> bool {
    match r {
        InlineResultView::Cached { id, kind, title, caption, .. } => id == crate::text::digits(
            position as nat,
        ) && kind == medium && title == words && caption == text,
        InlineResultView::Url { id, kind, title, caption, .. } => id == crate::text::digits(
            position as nat,
        ) && kind == medium && title == words && caption == text,
    }
}

/// Every result for a fetched post, at whatever position, carries the title and the
/// caption of the answer, and stands for the medium at the position that its id names:
/// it shows that medium's smaller variant where there is one that parses, else the
/// medium itself. The media are answered in order; none is left out among the first
/// fifty but those that their site guards and those whose URL does not parse. The
/// result says which medium each answer is for.
pub proof fn law_fetched_posts_are_answered_with_their_captions(
    media: Seq<SiteMediaView>,
    title: Seq<char>,
    caption: Seq<char>,
    guarded: Seq<bool>,
    n: nat,
) -> (at: Seq<int>)
    ensures
        at.len() == fetched_answers(media, title, caption, guarded, n).len(),
        forall|k: int| 0 <= k < at.len() ==> 0 <= #[trigger] at[k] < n,
        forall|k: int, l: int| 0 <= k < l < at.len() ==> #[trigger] at[k] < #[trigger] at[l],
        forall|k: int|
            0 <= k < at.len() ==> {
                let r = fetched_answers(media, title, caption, guarded, n)[k];
                let m = media[#[trigger] at[k]];
                &&& !guarded[at[k]]
                &&& r matches InlineResultView::Url { url, thumbnail, .. } && {
                    &&& crate::links::url_of(m.url) matches Ok(own) && {
                        &&& url == match m.smaller {
                            Some(s) => match crate::links::url_of(s) {
                                Ok(s) => s,
                                Err(_) => own,
                            },
                            None => own,
                        }
                        &&& thumbnail == match m.thumbnail {
                            Some(t) => match crate::links::url_of(t) {
                                Ok(t) => t,
                                Err(_) => own,
                            },
                            None => own,
                        }
                    }
                }
                &&& answers_for(r, at[k], m.kind, title, caption)
            },
        forall|i: int|
            0 <= i < n && !guarded[i] && crate::links::url_of((#[trigger] media[i]).url) is Ok
                ==> at.contains(i),
    decreases n,
{
    if n == 0 {
        Seq::empty()
    } else {
        let i = n - 1;
        let before = law_fetched_posts_are_answered_with_their_captions(
            media,
            title,
            caption,
            guarded,
            i as nat,
        );
        let at = if guarded[i] || crate::links::url_of(media[i].url) is Err {
            before
        } else {
            before.push(i)
        };
        assert forall|k: int|
            0 <= k < n && !guarded[k] && crate::links::url_of(
                (#[trigger] media[k]).url,
            ) is Ok implies at.contains(k) by {
            if k < i {
                let j = before.index_of(k);
                assert(at[j] == k);
            } else {
                assert(at[at.len() - 1] == k);
            }
        }
        at
    }
}

/// Every result for a cached post, at whatever position, carries the title and the
/// caption of the answer, and stands for the medium at the position that its id names:
/// by its file id, or by its URL where it has none. The media are answered in order;
/// only those without a file id can be left out. The result says which medium each
/// answer is for.
pub proof fn law_cached_posts_are_answered_with_their_captions(
    media: Seq<MediaView>,
    title: Seq<char>,
    caption: Seq<char>,
    guarded: Seq<bool>,
    n: nat,
) -> (at: Seq<int>)
    ensures
        at.len() == cached_answers(media, title, caption, guarded, n).len(),
        forall|k: int| 0 <= k < at.len() ==> 0 <= #[trigger] at[k] < n,
        forall|k: int, l: int| 0 <= k < l < at.len() ==> #[trigger] at[k] < #[trigger] at[l],
        forall|k: int|
            0 <= k < at.len() ==> {
                let r = cached_answers(media, title, caption, guarded, n)[k];
                let m = media[#[trigger] at[k]];
                &&& match r {
                    InlineResultView::Cached { file, .. } => file == m.file_id && file.len() > 0,
                    InlineResultView::Url { url, thumbnail, .. } => m.file_id.len() == 0
                        && !guarded[at[k]] && m.kind != CachedMediaKind::Video
                        && crate::links::url_of(m.url) == Ok::<Seq<char>, Seq<char>>(url)
                        && thumbnail == url,
                }
                &&& answers_for(r, at[k], m.kind, title, caption)
            },
        forall|i: int|
            0 <= i < n && ((#[trigger] media[i]).file_id.len() > 0 || (!guarded[i]
                && media[i].kind != CachedMediaKind::Video && crate::links::url_of(
                media[i].url,
            ) is Ok)) ==> at.contains(i),
    decreases n,
{
    if n == 0 {
        Seq::empty()
    } else {
        let i = n - 1;
        let before = law_cached_posts_are_answered_with_their_captions(
            media,
            title,
            caption,
            guarded,
            i as nat,
        );
        let served = media[i].file_id.len() > 0 || (!guarded[i] && media[i].kind
            != CachedMediaKind::Video && crate::links::url_of(media[i].url) is Ok);
        let at = if served {
            before.push(i)
        } else {
            before
        };
        assert forall|k: int|
            0 <= k < n && ((#[trigger] media[k]).file_id.len() > 0 || (!guarded[k] && media[k].kind
                != CachedMediaKind::Video && crate::links::url_of(
                media[k].url,
            ) is Ok)) implies at.contains(k) by {
            if k < i {
                let j = before.index_of(k);
                assert(at[j] == k);
            } else {
                assert(at[at.len() - 1] == k);
            }
        }
        at
    }
}

/// An answer looks at the first fifty media of what was found, under the title of the
/// post; without a post it is empty.
pub proof fn law_answers_are_about_the_post(
    source: InlineSource,
    words: Seq<char>,
    guarded: Seq<bool>,
)
    ensures
        match source {
            InlineSource::Unknown => answers_to(source, words, guarded).len() == 0,
            InlineSource::Fetched(None) => answers_to(source, words, guarded).len() == 0,
            InlineSource::Fetched(Some(f)) => answers_to(source, words, guarded)
                == fetched_answers(
                crate::site::site_media_views(f.media@),
                f.title@,
                words,
                guarded,
                if f.media@.len() < 50 {
                    f.media@.len()
                } else {
                    50
                },
            ),
            InlineSource::Cached(post) => answers_to(source, words, guarded) == cached_answers(
                crate::link_cache::media_views(post.media@),
                post.title@,
                words,
                guarded,
                if post.media@.len() < 50 {
                    post.media@.len()
                } else {
                    50
                },
            ),
        },
        forall|k: int|
            0 <= k < answers_to(source, words, guarded).len() ==> match #[trigger] answers_to(
                source,
                words,
                guarded,
            )[k] {
                InlineResultView::Cached { caption, .. } => caption == words,
                InlineResultView::Url { caption, .. } => caption == words,
            },
{
    match source {
        InlineSource::Fetched(Some(f)) => {
            let at = law_fetched_posts_are_answered_with_their_captions(
                crate::site::site_media_views(f.media@),
                f.title@,
                words,
                guarded,
                considered(f.media@.len()),
            );
            assert forall|k: int| 0 <= k < answers_to(source, words, guarded).len() implies match
                #[trigger] answers_to(source, words, guarded)[k] {
                InlineResultView::Cached { caption, .. } => caption == words,
                InlineResultView::Url { caption, .. } => caption == words,
            } by {
                let _ = at[k];
            }
        },
        InlineSource::Cached(post) => {
            let at = law_cached_posts_are_answered_with_their_captions(
                post@.media,
                post@.title,
                words,
                guarded,
                considered(post@.media.len()),
            );
            assert forall|k: int| 0 <= k < answers_to(source, words, guarded).len() implies match
                #[trigger] answers_to(source, words, guarded)[k] {
                InlineResultView::Cached { caption, .. } => caption == words,
                InlineResultView::Url { caption, .. } => caption == words,
            } by {
                let _ = at[k];
            }
        },
        _ => {},
    }
}

/// A query that came in is the user's newest, under a number that no earlier one of the
/// user had, and can be answered until a newer one comes in or it was answered; the same
/// words typed again are a new query then, and are not answered under the old number.
pub proof fn law_the_newest_query_is_answered(
    s: StatesView,
    user: u64,
    query: Seq<char>,
    newer: Seq<char>,
    now: u64,
    later: u64,
)
    requires
        s.generation < u64::MAX,
    ensures
        ({
            let first = noted(s, user, query, now);
            let second = noted(first, user, newer, later);
            &&& first.generation == s.generation + 1
            &&& claimable(first, user, query, first.generation)
            &&& !is_repeat(first, user, query)
            &&& claimable(second, user, newer, second.generation)
            &&& !claimable(second, user, query, first.generation)
            &&& first.entries[user].last_seen == now
            &&& marked(first, user, true, later).entries[user].last_seen == later
            &&& marked(first, user, true, later).generation == first.generation
            &&& !is_repeat(marked(first, user, true, later), user, newer) || newer == query
        }),
{
}

/// A query is forgotten once nothing was heard of it for the given time, and not
/// before; a clock that was set back forgets nothing.
pub proof fn law_only_idle_queries_are_forgotten(e: DebounceView, now: int, idle_for: int)
    requires
        idle_for > 0,
    ensures
        is_idle(e, now, idle_for) <==> e.last_seen + idle_for <= now,
{
}

/// Neither one user's typing nor an answer to it touches what is remembered of
/// another.
pub proof fn law_users_do_not_disturb_each_other(
    s: StatesView,
    user: u64,
    other: u64,
    query: Seq<char>,
    answered: bool,
    now: u64,
)
    requires
        user != other,
    ensures
        noted(s, user, query, now).entries.contains_key(other) == s.entries.contains_key(other),
        noted(s, user, query, now).entries[other] == s.entries[other],
        marked(s, user, answered, now).entries.contains_key(other) == s.entries.contains_key(
            other,
        ),
        marked(s, user, answered, now).entries[other] == s.entries[other],
{
}

/// A query can be answered once; a newer one takes its place, and an answer that
/// failed can be given again.
pub proof fn law_a_query_is_answered_once(
    s: StatesView,
    user: u64,
    query: Seq<char>,
    newer: Seq<char>,
    generation: u64,
    now: u64,
    later: u64,
)
    requires
        claimable(s, user, query, generation),
        newer != query,
    ensures
        !claimable(marked(s, user, true, now), user, query, generation),
        claimable(
            marked(marked(s, user, true, now), user, false, later),
            user,
            query,
            generation,
        ),
        !claimable(noted(s, user, newer, now), user, query, generation),
        is_repeat(marked(s, user, true, now), user, query),
{
}

/// Results are read one by one, in their order, each as it stands.
pub proof fn law_results_are_read_in_order(v: Seq<InlineResult>, i: int)
    requires
        0 <= i < v.len(),
    ensures
        result_views(v).len() == v.len(),
        match v[i] {
            InlineResult::Cached { id, kind, file, title, caption } => result_views(v)[i] == (
            InlineResultView::Cached { id: id@, kind, file: file@, title: title@, caption: caption@ }
            ),
            InlineResult::Url { id, kind, url, thumbnail, title, caption } => result_views(v)[i] == (
            InlineResultView::Url {
                id: id@,
                kind,
                url: url@,
                thumbnail: thumbnail@,
                title: title@,
                caption: caption@,
            }),
        },
{
}

} // verus!
