//! Posts as the site adapters hand them over.
use crate::link_cache::{CachedMediaKind, CachedPost, PostView};
use crate::send::task::{duplicate_text, is_remote, ItemView, MediaItemPayload};
use vstd::prelude::*;

verus! {

/// A medium of a post.
#[derive(Debug)]
pub enum Media {
    Illustration { url: String, thumbnail_url: Option<String>, fallback_url: Option<String> },
    Video { url: String, thumbnail_url: Option<String> },
    /// A moving picture without sound.
    Animated { url: String, thumbnail_url: Option<String> },
}

/// [`Media`] over mathematical values.
#[verifier::ext_equal]
pub struct SiteMediaView {
    pub kind: CachedMediaKind,
    pub url: Seq<char>,
    pub thumbnail: Option<Seq<char>>,
    /// A smaller variant of the same picture.
    pub smaller: Option<Seq<char>>,
}

impl View for Media {
    type V = SiteMediaView;

    open spec fn view(&self) -> SiteMediaView {
        match self {
            Media::Illustration { url, thumbnail_url, fallback_url } => SiteMediaView {
                kind: CachedMediaKind::Photo,
                url: url@,
                thumbnail: crate::json::text_option(*thumbnail_url),
                smaller: crate::json::text_option(*fallback_url),
            },
            Media::Video { url, thumbnail_url } => SiteMediaView {
                kind: CachedMediaKind::Video,
                url: url@,
                thumbnail: crate::json::text_option(*thumbnail_url),
                smaller: None,
            },
            Media::Animated { url, thumbnail_url } => SiteMediaView {
                kind: CachedMediaKind::Animation,
                url: url@,
                thumbnail: crate::json::text_option(*thumbnail_url),
                smaller: None,
            },
        }
    }
}

pub open spec fn site_media_views(v: Seq<Media>) -> Seq<SiteMediaView> {
    v.map_values(|m: Media| m@)
}

impl Media {
    pub fn url(&self) -> (r: &String)
        ensures
            r@ == self@.url,
    {
        match self {
            Media::Illustration { url, .. } => url,
            Media::Video { url, .. } => url,
            Media::Animated { url, .. } => url,
        }
    }

    pub fn thumbnail_url(&self) -> (r: Option<String>)
        ensures
            crate::json::text_option(r) == self@.thumbnail,
    {
        match self {
            Media::Illustration { thumbnail_url, .. } => duplicate_text(thumbnail_url),
            Media::Video { thumbnail_url, .. } => duplicate_text(thumbnail_url),
            Media::Animated { thumbnail_url, .. } => duplicate_text(thumbnail_url),
        }
    }

    pub fn smaller_url(&self) -> (r: Option<String>)
        ensures
            crate::json::text_option(r) == self@.smaller,
    {
        match self {
            Media::Illustration { fallback_url, .. } => duplicate_text(fallback_url),
            _ => None,
        }
    }

    pub fn kind(&self) -> (r: CachedMediaKind)
        ensures
            r == self@.kind,
    {
        match self {
            Media::Illustration { .. } => CachedMediaKind::Photo,
            Media::Video { .. } => CachedMediaKind::Video,
            Media::Animated { .. } => CachedMediaKind::Animation,
        }
    }
}

/// The parts of a post that captions are made of. All but `author_url` are
/// escaped already.
#[derive(Debug)]
pub struct RenderFields {
    pub author: String,
    pub author_url: String,
    pub title: String,
    pub content: String,
    pub tags: String,
}

/// A post.
#[derive(Debug)]
pub struct Fetched {
    pub site_id: String,
    pub source_url: String,
    pub title: String,
    pub content: String,
    /// The site's own caption.
    pub caption: String,
    pub sensitive: bool,
    pub media: Vec<Media>,
    pub fields: Option<RenderFields>,
}

/// Why a post could not be fetched.
#[derive(Debug)]
pub enum FetchError {
    NotFound,
    /// Withheld behind an age check.
    Sensitive,
    Blocked,
    Disabled { site: String },
    Transient,
    Http,
    /// The media could not be downloaded or encoded.
    MediaPrep,
    Other,
}

// ---- what is said of a failure ----

/// A site's name with a capital.
pub open spec fn title_of(site: Seq<char>) -> Seq<char> {
    if site.len() == 0 {
        Seq::empty()
    } else {
        crate::text::uppercase_of(site[0]) + site.skip(1)
    }
}

/// A site's name whose first letter in upper case is `first`.
pub fn capitalized(first: String, site: &str) -> (r: String)
    requires
        site@.len() > 0,
    ensures
        r@ == first@ + site@.skip(1),
{
    let v = crate::text::chars_of(site);
    let mut out = first;
    out.append(crate::text::slice_chars(&v, 1, v.len()).as_str());
    assert(site@.subrange(1, site@.len() as int) =~= site@.skip(1));
    out
}

/// The title of a site whose name starts with an ASCII character: its first
/// letter is a capital, and the rest stays as it is.
pub open spec fn ascii_title(site: Seq<char>) -> Seq<char> {
    if site.len() == 0 {
        Seq::empty()
    } else {
        seq![crate::text::ascii_capital(site[0])] + site.skip(1)
    }
}

pub open spec fn is_ascii(s: Seq<char>) -> bool {
    forall|i: int| 0 <= i < s.len() ==> #[trigger] s[i] as int <= 127
}

/// The title of a site whose name is ASCII is ASCII, as long as the name, and
/// differs from it in the first letter at most; a title is its own title.
pub proof fn law_titles_change_the_first_letter(site: Seq<char>)
    requires
        is_ascii(site),
    ensures
        is_ascii(ascii_title(site)),
        ascii_title(site).len() == site.len(),
        site.len() > 0 ==> ascii_title(site)[0] == crate::text::ascii_capital(site[0]),
        forall|i: int| 1 <= i < site.len() ==> #[trigger] ascii_title(site)[i] == site[i],
        ascii_title(ascii_title(site)) == ascii_title(site),
{
    let title = ascii_title(site);
    assert forall|i: int| 0 <= i < title.len() implies #[trigger] title[i] as int <= 127 by {
        assert(site[i] as int <= 127);
    }
    assert(ascii_title(title) =~= title);
}

pub fn site_title(site: &str) -> (r: String)
    ensures
        r@ == title_of(site@),
        is_ascii(site@) ==> r@ == ascii_title(site@),
        site@.len() > 0 && site@[0] as int <= 127 ==> r@ == ascii_title(site@),
{
    let v = crate::text::chars_of(site);
    if v.len() == 0 {
        let out = String::new();
        assert(out@ =~= Seq::<char>::empty());
        out
    } else {
        capitalized(crate::text::uppercase(v[0]), site)
    }
}

/// What the user reads of a post that could not be fetched.
pub open spec fn fetch_error_words(e: FetchError) -> Seq<char> {
    match e {
        FetchError::NotFound => "Post not found (deleted, private or unavailable)."@,
        FetchError::Sensitive =>
            "This post's media is withheld (age-restricted). The bot owner must set TWITTER_AUTH_TOKEN to fetch it."@,
        FetchError::Blocked =>
            "The source site refused the request (risk control). Try again later."@,
        FetchError::Disabled { site } => title_of(site@) + " support is disabled on this bot."@,
        FetchError::Transient =>
            "The source site is unavailable right now (tried 3 times). Try again later."@,
        FetchError::Http =>
            "The source site is unavailable right now (tried 3 times). Try again later."@,
        FetchError::MediaPrep =>
            "Could not prepare this post's media (its download or encode failed). Try again later."@,
        FetchError::Other => "Failed to fetch media from this link."@,
    }
}

pub fn fetch_error_message(e: &FetchError) -> (r: String)
    ensures
        r@ == fetch_error_words(*e),
{
    match e {
        FetchError::NotFound => "Post not found (deleted, private or unavailable).".to_owned(),
        FetchError::Sensitive =>
            "This post's media is withheld (age-restricted). The bot owner must set TWITTER_AUTH_TOKEN to fetch it.".to_owned(),
        FetchError::Blocked =>
            "The source site refused the request (risk control). Try again later.".to_owned(),
        FetchError::Disabled { site } => {
            let mut out = site_title(site.as_str());
            out.append(" support is disabled on this bot.");
            out
        },
        FetchError::Transient =>
            "The source site is unavailable right now (tried 3 times). Try again later.".to_owned(),
        FetchError::Http =>
            "The source site is unavailable right now (tried 3 times). Try again later.".to_owned(),
        FetchError::MediaPrep =>
            "Could not prepare this post's media (its download or encode failed). Try again later.".to_owned(),
        FetchError::Other => "Failed to fetch media from this link.".to_owned(),
    }
}

// ---- a post as something to send ----

/// The thumbnail that goes with a medium. A file on the disk gets none, and
/// neither does a medium whose thumbnail is blank: the service makes its own.
pub open spec fn thumbnail_of(m: SiteMediaView) -> Option<Seq<char>> {
    match m.thumbnail {
        Some(t) => if crate::send::task::remote(m.url) && t.len() > 0 {
            Some(t)
        } else {
            None
        },
        None => None,
    }
}

pub fn thumbnail_for(media: &Media) -> (r: Option<String>)
    ensures
        crate::json::text_option(r) == thumbnail_of(media@),
{
    if !is_remote(media.url().as_str()) {
        return None;
    }
    match media.thumbnail_url() {
        Some(t) => if crate::text::chars_of(t.as_str()).len() > 0 {
            Some(t)
        } else {
            None
        },
        None => None,
    }
}

/// A medium as part of a task. Inside an album a moving picture is a video.
pub open spec fn as_item(m: SiteMediaView, sensitive: bool) -> ItemView {
    match m.kind {
        CachedMediaKind::Photo => ItemView::Photo {
            media: m.url,
            has_spoiler: sensitive,
            fallback_url: m.smaller,
            file_id: false,
        },
        _ => ItemView::Video {
            media: m.url,
            has_spoiler: sensitive,
            thumbnail: thumbnail_of(m),
            fallback_url: m.smaller,
            file_id: false,
        },
    }
}

pub fn media_to_payload(media: &Media, sensitive: bool) -> (r: MediaItemPayload)
    ensures
        r@ == as_item(media@, sensitive),
{
    match media.kind() {
        CachedMediaKind::Photo => MediaItemPayload::Photo {
            media: media.url().clone(),
            has_spoiler: sensitive,
            fallback_url: media.smaller_url(),
            file_id: false,
        },
        _ => MediaItemPayload::Video {
            media: media.url().clone(),
            has_spoiler: sensitive,
            thumbnail: thumbnail_for(media),
            fallback_url: media.smaller_url(),
            file_id: false,
        },
    }
}

/// The media of a post as parts of a task. A moving picture that stands alone goes
/// out as an animation.
pub open spec fn as_items(media: Seq<SiteMediaView>, sensitive: bool) -> Seq<ItemView> {
    if media.len() == 1 && media[0].kind == CachedMediaKind::Animation {
        seq![ItemView::Animation { media: media[0].url, has_spoiler: sensitive, file_id: false }]
    } else {
        media.map_values(|m: SiteMediaView| as_item(m, sensitive))
    }
}

pub fn payloads(media: &Vec<Media>, sensitive: bool) -> (r: Vec<MediaItemPayload>)
    ensures
        crate::send::task::item_views(r@) == as_items(site_media_views(media@), sensitive),
{
    if media.len() == 1 && media[0].kind() == CachedMediaKind::Animation {
        let mut lone: Vec<MediaItemPayload> = Vec::new();
        lone.push(
            MediaItemPayload::Animation {
                media: media[0].url().clone(),
                has_spoiler: sensitive,
                file_id: false,
            },
        );
        proof {
            assert(site_media_views(media@)[0] == media@[0]@);
            assert(crate::send::task::item_views(lone@) =~= as_items(
                site_media_views(media@),
                sensitive,
            ));
        }
        return lone;
    }
    let mut out: Vec<MediaItemPayload> = Vec::new();
    let mut i: usize = 0;
    while i < media.len()
        invariant
            i <= media@.len(),
            out@.len() == i,
            forall|j: int| 0 <= j < i ==> (#[trigger] out@[j])@ == as_item(media@[j]@, sensitive),
        decreases media@.len() - i,
    {
        out.push(media_to_payload(&media[i], sensitive));
        i = i + 1;
    }
    assert(crate::send::task::item_views(out@) =~= site_media_views(media@).map_values(
        |m: SiteMediaView| as_item(m, sensitive),
    ));
    out
}

/// What the cache keeps of a post besides its media, which come with the send. A
/// post without render fields is not cached.
pub open spec fn snapshot_of(f: Fetched) -> Option<PostView> {
    match f.fields {
        Some(fields) => Some(
            PostView {
                url: f.source_url@,
                caption: f.caption@,
                title: fields.title@,
                content: fields.content@,
                author: fields.author@,
                author_url: fields.author_url@,
                tags: fields.tags@,
                sensitive: f.sensitive,
                media: Seq::empty(),
            },
        ),
        None => None,
    }
}

pub fn cached_snapshot(f: &Fetched) -> (r: Option<CachedPost>)
    ensures
        crate::link_cache::post_option(r) == snapshot_of(*f),
{
    match &f.fields {
        Some(fields) => {
            let post = CachedPost {
                url: f.source_url.clone(),
                caption: f.caption.clone(),
                title: fields.title.clone(),
                content: fields.content.clone(),
                author: fields.author.clone(),
                author_url: fields.author_url.clone(),
                tags: fields.tags.clone(),
                sensitive: f.sensitive,
                media: Vec::new(),
            };
            assert(post@.media =~= Seq::empty());
            Some(post)
        },
        None => None,
    }
}

// ---- laws ----

/// The media of a post become as many parts of a task, in the post's order. Each
/// keeps its URL and is hidden exactly where the post is sensitive; a photo stays a
/// photo and keeps its smaller variant, and only a moving picture that stands alone
/// is an animation. A video on the web keeps its thumbnail, unless it is blank.
pub proof fn law_media_keep_their_order(media: Seq<SiteMediaView>, sensitive: bool)
    ensures
        as_items(media, sensitive).len() == media.len(),
        forall|i: int|
            0 <= i < media.len() ==> match #[trigger] as_items(media, sensitive)[i] {
                ItemView::Photo { media: url, has_spoiler, fallback_url, file_id } => {
                    &&& media[i].kind == CachedMediaKind::Photo
                    &&& url == media[i].url
                    &&& has_spoiler == sensitive
                    &&& fallback_url == media[i].smaller
                    &&& !file_id
                },
                ItemView::Video { media: url, has_spoiler, thumbnail, fallback_url, file_id } => {
                    &&& media[i].kind != CachedMediaKind::Photo
                    &&& media[i].kind == CachedMediaKind::Video || media.len() > 1
                    &&& url == media[i].url
                    &&& has_spoiler == sensitive
                    &&& fallback_url == media[i].smaller
                    &&& !file_id
                    &&& thumbnail is Some ==> thumbnail == media[i].thumbnail && thumbnail->0.len()
                        > 0 && crate::send::task::remote(url)
                    &&& thumbnail is None ==> !crate::send::task::remote(url)
                        || media[i].thumbnail is None || media[i].thumbnail->0.len() == 0
                },
                ItemView::Animation { media: url, has_spoiler, file_id } => {
                    &&& media[i].kind == CachedMediaKind::Animation
                    &&& media.len() == 1
                    &&& url == media[i].url
                    &&& has_spoiler == sensitive
                    &&& !file_id
                },
            },
{
}

/// What the cache keeps of a post is what the site said of it, under the link that
/// leads there; it has no media until they are sent.
pub proof fn law_a_snapshot_is_of_its_post(f: Fetched)
    ensures
        snapshot_of(f) is Some <==> f.fields is Some,
        snapshot_of(f) matches Some(post) ==> {
            &&& post.url == f.source_url@
            &&& post.caption == f.caption@
            &&& post.sensitive == f.sensitive
            &&& post.title == f.fields->0.title@
            &&& post.content == f.fields->0.content@
            &&& post.author == f.fields->0.author@
            &&& post.author_url == f.fields->0.author_url@
            &&& post.tags == f.fields->0.tags@
            &&& post.media.len() == 0
        },
{
}

/// What is read of a medium is what the site handed over.
pub proof fn law_a_medium_is_what_the_site_says(m: Media)
    ensures
        match m {
            Media::Illustration { url, thumbnail_url, fallback_url } => m@.kind
                == CachedMediaKind::Photo && m@.url == url@ && m@.thumbnail
                == crate::json::text_option(thumbnail_url) && m@.smaller
                == crate::json::text_option(fallback_url),
            Media::Video { url, thumbnail_url } => m@.kind == CachedMediaKind::Video && m@.url
                == url@ && m@.thumbnail == crate::json::text_option(thumbnail_url)
                && m@.smaller is None,
            Media::Animated { url, thumbnail_url } => m@.kind == CachedMediaKind::Animation
                && m@.url == url@ && m@.thumbnail == crate::json::text_option(thumbnail_url)
                && m@.smaller is None,
        },
{
}

/// A post that could not be fetched is told by its own reason: one that is withheld says
/// what is missing, one that its site refused or could not give says to come back later,
/// and a site that is turned off is named.
pub proof fn law_failed_fetches_say_why(site: String)
    ensures
        fetch_error_words(FetchError::Sensitive)
            == "This post's media is withheld (age-restricted). The bot owner must set TWITTER_AUTH_TOKEN to fetch it."@,
        fetch_error_words(FetchError::Blocked)
            == "The source site refused the request (risk control). Try again later."@,
        fetch_error_words(FetchError::Transient) == fetch_error_words(FetchError::Http),
        fetch_error_words(FetchError::Transient)
            == "The source site is unavailable right now (tried 3 times). Try again later."@,
        title_of(site@).is_prefix_of(fetch_error_words(FetchError::Disabled { site })),
        site@.len() > 0 ==> title_of(site@) == crate::text::uppercase_of(site@[0]) + site@.subrange(
            1,
            site@.len() as int,
        ),
{
    let words = fetch_error_words(FetchError::Disabled { site });
    let title = title_of(site@);
    assert(words.subrange(0, title.len() as int) =~= title);
    if site@.len() > 0 {
        assert(site@.skip(1) =~= site@.subrange(1, site@.len() as int));
    }
}

} // verus!
