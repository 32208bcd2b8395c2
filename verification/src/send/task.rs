//! Tasks and the media they carry.
use crate::link_cache::{CachedMedia, CachedMediaKind, CachedPost, PostView};
use crate::state::duplicate_ids;
use crate::text::starts_with;
use vstd::prelude::*;

verus! {

/// The most media that one album takes.
pub const MAX_MEDIA_GROUP: usize = 9;

/// One medium of a task.
#[derive(Debug)]
pub enum MediaItemPayload {
    Photo {
        media: String,
        has_spoiler: bool,
        /// A smaller variant, for where the photo is over a limit.
        fallback_url: Option<String>,
        /// `media` is a file id of the chat service, not a URL.
        file_id: bool,
    },
    Video {
        media: String,
        has_spoiler: bool,
        thumbnail: Option<String>,
        fallback_url: Option<String>,
        file_id: bool,
    },
    Animation { media: String, has_spoiler: bool, file_id: bool },
}

/// [`MediaItemPayload`] over mathematical text.
#[verifier::ext_equal]
pub enum ItemView {
    Photo {
        media: Seq<char>,
        has_spoiler: bool,
        fallback_url: Option<Seq<char>>,
        file_id: bool,
    },
    Video {
        media: Seq<char>,
        has_spoiler: bool,
        thumbnail: Option<Seq<char>>,
        fallback_url: Option<Seq<char>>,
        file_id: bool,
    },
    Animation { media: Seq<char>, has_spoiler: bool, file_id: bool },
}

impl View for MediaItemPayload {
    type V = ItemView;

    open spec fn view(&self) -> ItemView {
        match self {
            MediaItemPayload::Photo { media, has_spoiler, fallback_url, file_id } =>
                ItemView::Photo {
                media: media@,
                has_spoiler: *has_spoiler,
                fallback_url: crate::json::text_option(*fallback_url),
                file_id: *file_id,
            },
            MediaItemPayload::Video { media, has_spoiler, thumbnail, fallback_url, file_id } =>
                ItemView::Video {
                media: media@,
                has_spoiler: *has_spoiler,
                thumbnail: crate::json::text_option(*thumbnail),
                fallback_url: crate::json::text_option(*fallback_url),
                file_id: *file_id,
            },
            MediaItemPayload::Animation { media, has_spoiler, file_id } => ItemView::Animation {
                media: media@,
                has_spoiler: *has_spoiler,
                file_id: *file_id,
            },
        }
    }
}

impl ItemView {
    /// The URL, path or file id.
    pub open spec fn url(self) -> Seq<char> {
        match self {
            ItemView::Photo { media, .. } => media,
            ItemView::Video { media, .. } => media,
            ItemView::Animation { media, .. } => media,
        }
    }

    pub open spec fn fallback(self) -> Option<Seq<char>> {
        match self {
            ItemView::Photo { fallback_url, .. } => fallback_url,
            ItemView::Video { fallback_url, .. } => fallback_url,
            ItemView::Animation { .. } => None,
        }
    }

    pub open spec fn cover(self) -> Option<Seq<char>> {
        match self {
            ItemView::Video { thumbnail, .. } => thumbnail,
            _ => None,
        }
    }

    pub open spec fn spoiler(self) -> bool {
        match self {
            ItemView::Photo { has_spoiler, .. } => has_spoiler,
            ItemView::Video { has_spoiler, .. } => has_spoiler,
            ItemView::Animation { has_spoiler, .. } => has_spoiler,
        }
    }

    /// Whether the medium is sent by its file id.
    pub open spec fn by_id(self) -> bool {
        match self {
            ItemView::Photo { file_id, .. } => file_id,
            ItemView::Video { file_id, .. } => file_id,
            ItemView::Animation { file_id, .. } => file_id,
        }
    }

    pub open spec fn kind(self) -> CachedMediaKind {
        match self {
            ItemView::Photo { .. } => CachedMediaKind::Photo,
            ItemView::Video { .. } => CachedMediaKind::Video,
            ItemView::Animation { .. } => CachedMediaKind::Animation,
        }
    }
}

pub fn duplicate_text(s: &Option<String>) -> (r: Option<String>)
    ensures
        crate::json::text_option(r) == crate::json::text_option(*s),
{
    match s {
        Some(s) => Some(s.clone()),
        None => None,
    }
}

impl MediaItemPayload {
    pub fn duplicate(&self) -> (r: MediaItemPayload)
        ensures
            r@ == self@,
    {
        match self {
            MediaItemPayload::Photo { media, has_spoiler, fallback_url, file_id } =>
                MediaItemPayload::Photo {
                media: media.clone(),
                has_spoiler: *has_spoiler,
                fallback_url: duplicate_text(fallback_url),
                file_id: *file_id,
            },
            MediaItemPayload::Video { media, has_spoiler, thumbnail, fallback_url, file_id } =>
                MediaItemPayload::Video {
                media: media.clone(),
                has_spoiler: *has_spoiler,
                thumbnail: duplicate_text(thumbnail),
                fallback_url: duplicate_text(fallback_url),
                file_id: *file_id,
            },
            MediaItemPayload::Animation { media, has_spoiler, file_id } =>
                MediaItemPayload::Animation {
                media: media.clone(),
                has_spoiler: *has_spoiler,
                file_id: *file_id,
            },
        }
    }

    /// The URL, path or file id.
    pub fn item_url(&self) -> (r: &String)
        ensures
            r@ == self@.url(),
    {
        match self {
            MediaItemPayload::Photo { media, .. } => media,
            MediaItemPayload::Video { media, .. } => media,
            MediaItemPayload::Animation { media, .. } => media,
        }
    }

    /// The smaller variant, where there is one.
    pub fn fallback_url(&self) -> (r: Option<String>)
        ensures
            crate::json::text_option(r) == self@.fallback(),
    {
        match self {
            MediaItemPayload::Photo { fallback_url, .. } => duplicate_text(fallback_url),
            MediaItemPayload::Video { fallback_url, .. } => duplicate_text(fallback_url),
            MediaItemPayload::Animation { .. } => None,
        }
    }

    /// The cover frame of a video, where there is one.
    pub fn thumbnail_url(&self) -> (r: Option<String>)
        ensures
            crate::json::text_option(r) == self@.cover(),
    {
        match self {
            MediaItemPayload::Video { thumbnail, .. } => duplicate_text(thumbnail),
            MediaItemPayload::Photo { .. } => None,
            MediaItemPayload::Animation { .. } => None,
        }
    }

    pub fn has_spoiler(&self) -> (r: bool)
        ensures
            r == self@.spoiler(),
    {
        match self {
            MediaItemPayload::Photo { has_spoiler, .. } => *has_spoiler,
            MediaItemPayload::Video { has_spoiler, .. } => *has_spoiler,
            MediaItemPayload::Animation { has_spoiler, .. } => *has_spoiler,
        }
    }

    /// Whether the medium is sent by its file id.
    pub fn is_file_id(&self) -> (r: bool)
        ensures
            r == self@.by_id(),
    {
        match self {
            MediaItemPayload::Photo { file_id, .. } => *file_id,
            MediaItemPayload::Video { file_id, .. } => *file_id,
            MediaItemPayload::Animation { file_id, .. } => *file_id,
        }
    }

    pub fn kind_of_item(&self) -> (r: CachedMediaKind)
        ensures
            r == self@.kind(),
    {
        match self {
            MediaItemPayload::Photo { .. } => CachedMediaKind::Photo,
            MediaItemPayload::Video { .. } => CachedMediaKind::Video,
            MediaItemPayload::Animation { .. } => CachedMediaKind::Animation,
        }
    }
}

/// Whether a medium lies on the web rather than on the disk.
pub open spec fn remote(media: Seq<char>) -> bool {
    crate::text::begins_with(media, "http://"@) || crate::text::begins_with(media, "https://"@)
}

pub fn is_remote(media: &str) -> (r: bool)
    ensures
        r == remote(media@),
{
    starts_with(media, "http://") || starts_with(media, "https://")
}

// ---- lists of media ----

pub open spec fn item_views(v: Seq<MediaItemPayload>) -> Seq<ItemView> {
    v.map_values(|m: MediaItemPayload| m@)
}

pub open spec fn batch_views(v: Seq<Vec<MediaItemPayload>>) -> Seq<Seq<ItemView>> {
    v.map_values(|b: Vec<MediaItemPayload>| item_views(b@))
}

pub fn duplicate_items(v: &Vec<MediaItemPayload>) -> (r: Vec<MediaItemPayload>)
    ensures
        item_views(r@) == item_views(v@),
{
    let mut out: Vec<MediaItemPayload> = Vec::new();
    let mut i: usize = 0;
    while i < v.len()
        invariant
            i == out@.len(),
            i <= v@.len(),
            forall|j: int| 0 <= j < i ==> (#[trigger] out@[j])@ == v@[j]@,
        decreases v@.len() - i,
    {
        out.push(v[i].duplicate());
        i = i + 1;
    }
    assert(item_views(out@) =~= item_views(v@));
    out
}

pub fn duplicate_batches(v: &Vec<Vec<MediaItemPayload>>) -> (r: Vec<Vec<MediaItemPayload>>)
    ensures
        batch_views(r@) == batch_views(v@),
{
    let mut out: Vec<Vec<MediaItemPayload>> = Vec::new();
    let mut i: usize = 0;
    while i < v.len()
        invariant
            i == out@.len(),
            i <= v@.len(),
            forall|j: int| 0 <= j < i ==> item_views((#[trigger] out@[j])@) == item_views(v@[j]@),
        decreases v@.len() - i,
    {
        out.push(duplicate_items(&v[i]));
        i = i + 1;
    }
    assert(batch_views(out@) =~= batch_views(v@));
    out
}

/// A list cut into pieces of at most [`MAX_MEDIA_GROUP`], from the front.
pub open spec fn chunks<T>(s: Seq<T>) -> Seq<Seq<T>>
    decreases s.len(),
{
    if s.len() == 0 {
        Seq::empty()
    } else if s.len() <= MAX_MEDIA_GROUP {
        seq![s]
    } else {
        seq![s.take(MAX_MEDIA_GROUP as int)] + chunks(s.skip(MAX_MEDIA_GROUP as int))
    }
}

/// Pieces put back together.
pub open spec fn concatenated<T>(s: Seq<Seq<T>>) -> Seq<T>
    decreases s.len(),
{
    if s.len() == 0 {
        Seq::empty()
    } else {
        concatenated(s.drop_last()) + s.last()
    }
}

/// Splits a list into pieces that each fit one album.
pub fn chunk_media_items<T>(items: Vec<T>) -> (r: Vec<Vec<T>>)
    ensures
        r@.map_values(|v: Vec<T>| v@) == chunks(items@),
{
    let ghost see = |v: Vec<T>| v@;
    let ghost all = items@;
    let mut out: Vec<Vec<T>> = Vec::new();
    let mut rest = items;
    proof {
        assert(out@.map_values(see) + chunks(rest@) =~= chunks(all));
    }
    while rest.len() > MAX_MEDIA_GROUP
        invariant
            see == (|v: Vec<T>| v@),
            out@.map_values(see) + chunks(rest@) == chunks(all),
        decreases rest@.len(),
    {
        let ghost before = rest@;
        let ghost done = out@;
        let tail = rest.split_off(MAX_MEDIA_GROUP);
        let head = rest;
        proof {
            assert(head@ =~= before.take(MAX_MEDIA_GROUP as int));
            assert(tail@ =~= before.skip(MAX_MEDIA_GROUP as int));
        }
        out.push(head);
        rest = tail;
        proof {
            let had = done.map_values(see);
            assert(out@.map_values(see) =~= had.push(head@));
            assert((had + (seq![head@] + chunks(rest@))) =~= had.push(head@) + chunks(rest@));
        }
    }
    if rest.len() > 0 {
        let ghost done = out@;
        out.push(rest);
        proof {
            assert(out@.map_values(see) =~= done.map_values(see) + seq![rest@]);
        }
    } else {
        proof {
            assert(out@.map_values(see) + Seq::<Seq<T>>::empty() =~= out@.map_values(see));
        }
    }
    out
}

proof fn lemma_concatenated_front<T>(first: Seq<T>, rest: Seq<Seq<T>>)
    ensures
        concatenated(seq![first] + rest) == first + concatenated(rest),
    decreases rest.len(),
{
    let all = seq![first] + rest;
    if rest.len() == 0 {
        assert(all =~= seq![first]);
        assert(concatenated(all.drop_last()) =~= Seq::<T>::empty());
        assert(concatenated(rest) =~= Seq::<T>::empty());
        assert(all.last() == first);
        assert(Seq::<T>::empty() + first =~= first + Seq::<T>::empty());
    } else {
        lemma_concatenated_front(first, rest.drop_last());
        assert(all.drop_last() =~= seq![first] + rest.drop_last());
        assert(all.last() == rest.last());
        assert((first + concatenated(rest.drop_last())) + rest.last() =~= first + (concatenated(
            rest.drop_last(),
        ) + rest.last()));
    }
}

/// Cutting a list loses nothing, keeps the order, and makes no empty and no
/// overlong piece.
pub proof fn law_chunks_keep_everything<T>(s: Seq<T>)
    ensures
        concatenated(chunks(s)) == s,
        forall|i: int|
            0 <= i < chunks(s).len() ==> 1 <= (#[trigger] chunks(s)[i]).len() <= MAX_MEDIA_GROUP,
    decreases s.len(),
{
    if s.len() == 0 {
    } else if s.len() <= MAX_MEDIA_GROUP {
        assert(concatenated(chunks(s).drop_last()) =~= Seq::<T>::empty());
        assert(chunks(s).last() == s);
        assert(Seq::<T>::empty() + s =~= s);
    } else {
        let head = s.take(MAX_MEDIA_GROUP as int);
        let tail = s.skip(MAX_MEDIA_GROUP as int);
        law_chunks_keep_everything(tail);
        lemma_concatenated_front(head, chunks(tail));
        assert(head + tail =~= s);
        assert forall|i: int| 0 <= i < chunks(s).len() implies 1 <= (#[trigger] chunks(s)[i]).len()
            <= MAX_MEDIA_GROUP by {
            if i > 0 {
                assert(chunks(s)[i] == chunks(tail)[i - 1]);
            }
        }
    }
}

/// Albums are filled from the front: each holds nine media but the last one, which
/// holds what is left, and the media stand in them in the order of the list.
pub proof fn law_albums_are_filled_in_order<T>(s: Seq<T>)
    ensures
        chunks(s).len() == (s.len() + 8) / 9,
        forall|k: int|
            0 <= k < chunks(s).len() ==> (#[trigger] chunks(s)[k]).len() == if 9 * k + 9
                <= s.len() {
                9
            } else {
                s.len() - 9 * k
            },
        forall|k: int, j: int|
            0 <= k < chunks(s).len() && 0 <= j < chunks(s)[k].len() ==> 9 * k + j < s.len() && (
            #[trigger] chunks(s)[k][j]) == s[9 * k + j],
    decreases s.len(),
{
    if s.len() > 9 {
        let tail = s.skip(9);
        law_albums_are_filled_in_order(tail);
        assert forall|k: int| 0 <= k < chunks(s).len() implies (#[trigger] chunks(s)[k]).len()
            == if 9 * k + 9 <= s.len() {
            9
        } else {
            s.len() - 9 * k
        } by {
            if k > 0 {
                assert(chunks(s)[k] == chunks(tail)[k - 1]);
            }
        }
        assert forall|k: int, j: int|
            0 <= k < chunks(s).len() && 0 <= j < chunks(s)[k].len() implies 9 * k + j < s.len()
            && (#[trigger] chunks(s)[k][j]) == s[9 * k + j] by {
            if k > 0 {
                assert(chunks(s)[k] == chunks(tail)[k - 1]);
                assert(chunks(tail)[k - 1][j] == tail[9 * (k - 1) + j]);
            }
        }
    } else if s.len() > 0 {
        assert(chunks(s) == seq![s]);
    }
}

/// Photos before everything else, each in their former order: an album that
/// mixes kinds has to begin with a photo.
pub open spec fn photos_then_rest(s: Seq<ItemView>) -> Seq<ItemView> {
    s.filter(|m: ItemView| m is Photo) + s.filter(|m: ItemView| !(m is Photo))
}

fn is_photo(item: &MediaItemPayload) -> (r: bool)
    ensures
        r == (item@ is Photo),
{
    match item {
        MediaItemPayload::Photo { .. } => true,
        _ => false,
    }
}

/// Orders media for an album.
pub fn photos_first(items: Vec<MediaItemPayload>) -> (r: Vec<MediaItemPayload>)
    ensures
        item_views(r@) == photos_then_rest(item_views(items@)),
{
    let ghost all = item_views(items@);
    let ghost is_p = |m: ItemView| m is Photo;
    let ghost not_p = |m: ItemView| !(m is Photo);
    let mut photos: Vec<MediaItemPayload> = Vec::new();
    let mut rest: Vec<MediaItemPayload> = Vec::new();
    let mut i: usize = 0;
    proof {
        reveal(Seq::filter);
        assert(all.take(0).filter(is_p) =~= Seq::<ItemView>::empty());
        assert(all.take(0).filter(not_p) =~= Seq::<ItemView>::empty());
        assert(item_views(photos@) =~= Seq::<ItemView>::empty());
        assert(item_views(rest@) =~= Seq::<ItemView>::empty());
    }
    while i < items.len()
        invariant
            all == item_views(items@),
            is_p == (|m: ItemView| m is Photo),
            not_p == (|m: ItemView| !(m is Photo)),
            i <= items@.len(),
            item_views(photos@) == all.take(i as int).filter(is_p),
            item_views(rest@) == all.take(i as int).filter(not_p),
        decreases items@.len() - i,
    {
        proof {
            reveal(Seq::filter);
            assert(all.take(i + 1).drop_last() =~= all.take(i as int));
            assert(all.take(i + 1).last() == items@[i as int]@);
        }
        let copy = items[i].duplicate();
        if is_photo(&items[i]) {
            let ghost had = photos@;
            photos.push(copy);
            assert(item_views(photos@) =~= item_views(had).push(copy@));
        } else {
            let ghost had = rest@;
            rest.push(copy);
            assert(item_views(rest@) =~= item_views(had).push(copy@));
        }
        i = i + 1;
    }
    let ghost front = photos@;
    let ghost back = rest@;
    photos.append(&mut rest);
    proof {
        assert(all.take(i as int) =~= all);
        assert(item_views(photos@) =~= item_views(front) + item_views(back));
    }
    photos
}

/// After ordering, no photo follows another kind, and the items are the same ones.
pub proof fn law_photos_come_first(s: Seq<ItemView>)
    ensures
        photos_then_rest(s).to_multiset() == s.to_multiset(),
        photos_then_rest(s).len() == s.len(),
        forall|i: int, j: int|
            0 <= i < j < photos_then_rest(s).len() && (#[trigger] photos_then_rest(s)[j]) is Photo
                ==> (#[trigger] photos_then_rest(s)[i]) is Photo,
    decreases s.len(),
{
    let is_p = |m: ItemView| m is Photo;
    let not_p = |m: ItemView| !(m is Photo);
    let photos = s.filter(is_p);
    let rest = s.filter(not_p);
    assert forall|i: int| 0 <= i < photos.len() implies (#[trigger] photos[i]) is Photo by {
        s.lemma_filter_pred(is_p, i);
    }
    assert forall|i: int| 0 <= i < rest.len() implies !((#[trigger] rest[i]) is Photo) by {
        s.lemma_filter_pred(not_p, i);
    }
    lemma_split(s);
    vstd::seq_lib::lemma_multiset_commutative(photos, rest);
    photos_then_rest(s).to_multiset_ensures();
    s.to_multiset_ensures();
}

/// Ordering changes nothing among the photos and nothing among the rest.
pub proof fn law_ordering_is_stable(s: Seq<ItemView>)
    ensures
        photos_then_rest(s).len() == s.len(),
        photos_then_rest(s).filter(|m: ItemView| m is Photo) == s.filter(
            |m: ItemView| m is Photo,
        ),
        photos_then_rest(s).filter(|m: ItemView| !(m is Photo)) == s.filter(
            |m: ItemView| !(m is Photo),
        ),
{
    let is_p = |m: ItemView| m is Photo;
    let not_p = |m: ItemView| !(m is Photo);
    let photos = s.filter(is_p);
    let rest = s.filter(not_p);
    assert forall|i: int| 0 <= i < photos.len() implies (#[trigger] photos[i]) is Photo by {
        s.lemma_filter_pred(is_p, i);
    }
    assert forall|i: int| 0 <= i < rest.len() implies !((#[trigger] rest[i]) is Photo) by {
        s.lemma_filter_pred(not_p, i);
    }
    lemma_filter_concat(photos, rest, is_p);
    lemma_filter_concat(photos, rest, not_p);
    lemma_filter_all(photos, is_p);
    lemma_filter_all(rest, not_p);
    lemma_filter_none(photos, not_p);
    lemma_filter_none(rest, is_p);
    assert(photos + Seq::<ItemView>::empty() =~= photos);
    assert(Seq::<ItemView>::empty() + rest =~= rest);
    law_photos_come_first(s);
}

/// Where all media are photos, or none is, they stay as they are.
pub proof fn law_media_of_one_kind_stay_in_order(s: Seq<ItemView>)
    requires
        (forall|i: int| 0 <= i < s.len() ==> (#[trigger] s[i]) is Photo) || (forall|i: int|
            0 <= i < s.len() ==> !((#[trigger] s[i]) is Photo)),
    ensures
        photos_then_rest(s) == s,
{
    let is_p = |m: ItemView| m is Photo;
    let not_p = |m: ItemView| !(m is Photo);
    if forall|i: int| 0 <= i < s.len() ==> (#[trigger] s[i]) is Photo {
        lemma_filter_all(s, is_p);
        lemma_filter_none(s, not_p);
        assert(s + Seq::<ItemView>::empty() =~= s);
    } else {
        lemma_filter_all(s, not_p);
        lemma_filter_none(s, is_p);
        assert(Seq::<ItemView>::empty() + s =~= s);
    }
}

proof fn lemma_filter_all(s: Seq<ItemView>, keep: spec_fn(ItemView) -> bool)
    requires
        forall|i: int| 0 <= i < s.len() ==> keep(#[trigger] s[i]),
    ensures
        s.filter(keep) == s,
    decreases s.len(),
{
    reveal(Seq::filter);
    if s.len() > 0 {
        assert forall|i: int| 0 <= i < s.drop_last().len() implies keep(
            #[trigger] s.drop_last()[i],
        ) by {
            assert(keep(s[i]));
        }
        lemma_filter_all(s.drop_last(), keep);
        assert(keep(s[s.len() - 1]));
        assert(s.drop_last().push(s.last()) =~= s);
    } else {
        assert(s.filter(keep) =~= s);
    }
}

proof fn lemma_filter_none(s: Seq<ItemView>, keep: spec_fn(ItemView) -> bool)
    requires
        forall|i: int| 0 <= i < s.len() ==> !keep(#[trigger] s[i]),
    ensures
        s.filter(keep) == Seq::<ItemView>::empty(),
    decreases s.len(),
{
    reveal(Seq::filter);
    if s.len() > 0 {
        assert forall|i: int| 0 <= i < s.drop_last().len() implies !keep(
            #[trigger] s.drop_last()[i],
        ) by {
            assert(!keep(s[i]));
        }
        lemma_filter_none(s.drop_last(), keep);
        assert(!keep(s[s.len() - 1]));
    } else {
        assert(s.filter(keep) =~= Seq::<ItemView>::empty());
    }
}

proof fn lemma_split(s: Seq<ItemView>)
    ensures
        s.filter(|m: ItemView| m is Photo).to_multiset().add(
            s.filter(|m: ItemView| !(m is Photo)).to_multiset(),
        ) == s.to_multiset(),
    decreases s.len(),
{
    broadcast use vstd::seq_lib::group_to_multiset_ensures;

    reveal(Seq::filter);
    let photos = s.filter(|m: ItemView| m is Photo);
    let rest = s.filter(|m: ItemView| !(m is Photo));
    if s.len() > 0 {
        lemma_split(s.drop_last());
        assert(s =~= s.drop_last().push(s.last()));
        assert(photos.to_multiset().add(rest.to_multiset()) =~= s.to_multiset());
    } else {
        assert(photos =~= Seq::empty());
        assert(rest =~= Seq::empty());
        assert(s =~= Seq::empty());
        assert(photos.to_multiset().add(rest.to_multiset()) =~= s.to_multiset());
    }
}

// ---- tasks ----

/// A unit of work of the queue.
#[derive(Debug)]
pub enum Task {
    SendMediaSequence {
        chat_id: i64,
        reply_to_message_id: i64,
        caption: String,
        media_batches: Vec<Vec<MediaItemPayload>>,
        /// The batch to go on with.
        batch_index: usize,
        sent_message_ids: Vec<i64>,
        source_url: String,
        edit_before_forward: bool,
        forward_channel_id: Option<i64>,
        notify_chat_id: Option<i64>,
        notify_message_id: Option<i64>,
        /// What to cache once everything is sent.
        cache_data: Option<CachedPost>,
    },
    SendAnimation {
        chat_id: i64,
        reply_to_message_id: i64,
        caption: String,
        animation: MediaItemPayload,
        source_url: String,
        edit_before_forward: bool,
        forward_channel_id: Option<i64>,
        notify_chat_id: Option<i64>,
        notify_message_id: Option<i64>,
        cache_data: Option<CachedPost>,
    },
    ForwardMessages {
        from_chat_id: i64,
        to_chat_id: i64,
        message_ids: Vec<i64>,
        notify_chat_id: Option<i64>,
        notify_message_id: Option<i64>,
    },
}

/// [`Task`] over mathematical values.
#[verifier::ext_equal]
pub enum TaskView {
    SendMediaSequence {
        chat_id: i64,
        reply_to_message_id: i64,
        caption: Seq<char>,
        media_batches: Seq<Seq<ItemView>>,
        batch_index: int,
        sent_message_ids: Seq<i64>,
        source_url: Seq<char>,
        edit_before_forward: bool,
        forward_channel_id: Option<i64>,
        notify_chat_id: Option<i64>,
        notify_message_id: Option<i64>,
        cache_data: Option<PostView>,
    },
    SendAnimation {
        chat_id: i64,
        reply_to_message_id: i64,
        caption: Seq<char>,
        animation: ItemView,
        source_url: Seq<char>,
        edit_before_forward: bool,
        forward_channel_id: Option<i64>,
        notify_chat_id: Option<i64>,
        notify_message_id: Option<i64>,
        cache_data: Option<PostView>,
    },
    ForwardMessages {
        from_chat_id: i64,
        to_chat_id: i64,
        message_ids: Seq<i64>,
        notify_chat_id: Option<i64>,
        notify_message_id: Option<i64>,
    },
}

impl View for Task {
    type V = TaskView;

    open spec fn view(&self) -> TaskView {
        match self {
            Task::SendMediaSequence {
                chat_id,
                reply_to_message_id,
                caption,
                media_batches,
                batch_index,
                sent_message_ids,
                source_url,
                edit_before_forward,
                forward_channel_id,
                notify_chat_id,
                notify_message_id,
                cache_data,
            } => TaskView::SendMediaSequence {
                chat_id: *chat_id,
                reply_to_message_id: *reply_to_message_id,
                caption: caption@,
                media_batches: batch_views(media_batches@),
                batch_index: *batch_index as int,
                sent_message_ids: sent_message_ids@,
                source_url: source_url@,
                edit_before_forward: *edit_before_forward,
                forward_channel_id: *forward_channel_id,
                notify_chat_id: *notify_chat_id,
                notify_message_id: *notify_message_id,
                cache_data: crate::link_cache::post_option(*cache_data),
            },
            Task::SendAnimation {
                chat_id,
                reply_to_message_id,
                caption,
                animation,
                source_url,
                edit_before_forward,
                forward_channel_id,
                notify_chat_id,
                notify_message_id,
                cache_data,
            } => TaskView::SendAnimation {
                chat_id: *chat_id,
                reply_to_message_id: *reply_to_message_id,
                caption: caption@,
                animation: animation@,
                source_url: source_url@,
                edit_before_forward: *edit_before_forward,
                forward_channel_id: *forward_channel_id,
                notify_chat_id: *notify_chat_id,
                notify_message_id: *notify_message_id,
                cache_data: crate::link_cache::post_option(*cache_data),
            },
            Task::ForwardMessages {
                from_chat_id,
                to_chat_id,
                message_ids,
                notify_chat_id,
                notify_message_id,
            } => TaskView::ForwardMessages {
                from_chat_id: *from_chat_id,
                to_chat_id: *to_chat_id,
                message_ids: message_ids@,
                notify_chat_id: *notify_chat_id,
                notify_message_id: *notify_message_id,
            },
        }
    }
}

impl TaskView {
    pub open spec fn cache(self) -> Option<PostView> {
        match self {
            TaskView::SendMediaSequence { cache_data, .. } => cache_data,
            TaskView::SendAnimation { cache_data, .. } => cache_data,
            TaskView::ForwardMessages { .. } => None,
        }
    }

    pub open spec fn source(self) -> Option<Seq<char>> {
        match self {
            TaskView::SendMediaSequence { source_url, .. } => Some(source_url),
            TaskView::SendAnimation { source_url, .. } => Some(source_url),
            TaskView::ForwardMessages { .. } => None,
        }
    }

    /// The chat that a send goes to.
    pub open spec fn chat(self) -> Option<i64> {
        match self {
            TaskView::SendMediaSequence { chat_id, .. } => Some(chat_id),
            TaskView::SendAnimation { chat_id, .. } => Some(chat_id),
            TaskView::ForwardMessages { .. } => None,
        }
    }

    /// Whom to tell that the task failed.
    pub open spec fn notify(self) -> (Option<i64>, Option<i64>) {
        match self {
            TaskView::SendMediaSequence { notify_chat_id, notify_message_id, .. } => (
                notify_chat_id,
                notify_message_id,
            ),
            TaskView::SendAnimation { notify_chat_id, notify_message_id, .. } => (
                notify_chat_id,
                notify_message_id,
            ),
            TaskView::ForwardMessages { notify_chat_id, notify_message_id, .. } => (
                notify_chat_id,
                notify_message_id,
            ),
        }
    }

    /// Whether the media are file ids out of the cache.
    pub open spec fn cached_send(self) -> bool {
        self.cache() matches Some(p) && p.media.len() > 0
    }

    /// All media, in the order they are sent.
    pub open spec fn items(self) -> Seq<ItemView> {
        match self {
            TaskView::SendMediaSequence { media_batches, .. } => concatenated(media_batches),
            TaskView::SendAnimation { animation, .. } => seq![animation],
            TaskView::ForwardMessages { .. } => Seq::empty(),
        }
    }
}

/// A file on the disk, rather than a URL or a file id.
pub open spec fn is_local(m: ItemView) -> bool {
    !m.by_id() && !remote(m.url())
}

/// The files on the disk that a task needs.
pub open spec fn local_paths(t: TaskView) -> Seq<Seq<char>> {
    t.items().filter(|m: ItemView| is_local(m)).map_values(|m: ItemView| m.url())
}

/// Collects the local files among media, after those already in `out`.
fn push_local(items: &Vec<MediaItemPayload>, out: &mut Vec<String>)
    ensures
        crate::text::texts(final(out)@) == crate::text::texts(old(out)@) + item_views(
            items@,
        ).filter(|m: ItemView| is_local(m)).map_values(|m: ItemView| m.url()),
{
    let ghost all = item_views(items@);
    let ghost keep = |m: ItemView| is_local(m);
    let ghost show = |m: ItemView| m.url();
    let ghost before = crate::text::texts(out@);
    let mut i: usize = 0;
    proof {
        reveal(Seq::filter);
        assert(all.take(0).filter(keep) =~= Seq::<ItemView>::empty());
        assert(before + all.take(0).filter(keep).map_values(show) =~= before);
    }
    while i < items.len()
        invariant
            all == item_views(items@),
            keep == (|m: ItemView| is_local(m)),
            show == (|m: ItemView| m.url()),
            i <= items@.len(),
            crate::text::texts(out@) == before + all.take(i as int).filter(keep).map_values(show),
        decreases items@.len() - i,
    {
        proof {
            reveal(Seq::filter);
            assert(all.take(i + 1).drop_last() =~= all.take(i as int));
            assert(all.take(i + 1).last() == items@[i as int]@);
        }
        let ghost kept = all.take(i as int).filter(keep);
        let ghost had = out@;
        if !items[i].is_file_id() && !is_remote(items[i].item_url().as_str()) {
            out.push(items[i].item_url().clone());
            proof {
                let m = items@[i as int]@;
                assert(kept.push(m).map_values(show) =~= kept.map_values(show).push(m.url()));
                assert(crate::text::texts(out@) =~= crate::text::texts(had).push(m.url()));
                assert((before + kept.map_values(show)).push(m.url()) =~= before
                    + kept.map_values(show).push(m.url()));
            }
        }
        i = i + 1;
    }
    assert(all.take(i as int) =~= all);
}

proof fn lemma_filter_concat(a: Seq<ItemView>, b: Seq<ItemView>, keep: spec_fn(ItemView) -> bool)
    ensures
        (a + b).filter(keep) == a.filter(keep) + b.filter(keep),
    decreases b.len(),
{
    reveal(Seq::filter);
    if b.len() == 0 {
        assert(a + b =~= a);
        assert(a.filter(keep) + b.filter(keep) =~= a.filter(keep));
    } else {
        assert((a + b).drop_last() =~= a + b.drop_last());
        assert((a + b).last() == b.last());
        lemma_filter_concat(a, b.drop_last(), keep);
        if keep(b.last()) {
            assert((a.filter(keep) + b.drop_last().filter(keep)).push(b.last()) =~= a.filter(keep)
                + b.drop_last().filter(keep).push(b.last()));
        }
    }
}

/// A sequence task with its progress replaced.
pub open spec fn progressed(t: TaskView, index: int, sent: Seq<i64>) -> TaskView {
    match t {
        TaskView::SendMediaSequence {
            chat_id,
            reply_to_message_id,
            caption,
            media_batches,
            batch_index,
            sent_message_ids,
            source_url,
            edit_before_forward,
            forward_channel_id,
            notify_chat_id,
            notify_message_id,
            cache_data,
        } => TaskView::SendMediaSequence {
            chat_id,
            reply_to_message_id,
            caption,
            media_batches,
            batch_index: index,
            sent_message_ids: sent,
            source_url,
            edit_before_forward,
            forward_channel_id,
            notify_chat_id,
            notify_message_id,
            cache_data,
        },
        other => other,
    }
}

fn duplicate_cache(p: &Option<CachedPost>) -> (r: Option<CachedPost>)
    ensures
        crate::link_cache::post_option(r) == crate::link_cache::post_option(*p),
{
    match p {
        Some(p) => Some(p.duplicate()),
        None => None,
    }
}

impl Task {
    pub fn duplicate(&self) -> (r: Task)
        ensures
            r@ == self@,
    {
        match self {
            Task::SendMediaSequence {
                chat_id,
                reply_to_message_id,
                caption,
                media_batches,
                batch_index,
                sent_message_ids,
                source_url,
                edit_before_forward,
                forward_channel_id,
                notify_chat_id,
                notify_message_id,
                cache_data,
            } => Task::SendMediaSequence {
                chat_id: *chat_id,
                reply_to_message_id: *reply_to_message_id,
                caption: caption.clone(),
                media_batches: duplicate_batches(media_batches),
                batch_index: *batch_index,
                sent_message_ids: duplicate_ids(sent_message_ids),
                source_url: source_url.clone(),
                edit_before_forward: *edit_before_forward,
                forward_channel_id: *forward_channel_id,
                notify_chat_id: *notify_chat_id,
                notify_message_id: *notify_message_id,
                cache_data: duplicate_cache(cache_data),
            },
            Task::SendAnimation {
                chat_id,
                reply_to_message_id,
                caption,
                animation,
                source_url,
                edit_before_forward,
                forward_channel_id,
                notify_chat_id,
                notify_message_id,
                cache_data,
            } => Task::SendAnimation {
                chat_id: *chat_id,
                reply_to_message_id: *reply_to_message_id,
                caption: caption.clone(),
                animation: animation.duplicate(),
                source_url: source_url.clone(),
                edit_before_forward: *edit_before_forward,
                forward_channel_id: *forward_channel_id,
                notify_chat_id: *notify_chat_id,
                notify_message_id: *notify_message_id,
                cache_data: duplicate_cache(cache_data),
            },
            Task::ForwardMessages {
                from_chat_id,
                to_chat_id,
                message_ids,
                notify_chat_id,
                notify_message_id,
            } => Task::ForwardMessages {
                from_chat_id: *from_chat_id,
                to_chat_id: *to_chat_id,
                message_ids: duplicate_ids(message_ids),
                notify_chat_id: *notify_chat_id,
                notify_message_id: *notify_message_id,
            },
        }
    }

    /// What to cache once the task is done.
    pub fn cache_data(&self) -> (r: Option<&CachedPost>)
        ensures
            match r {
                Some(p) => self@.cache() == Some(p@),
                None => self@.cache() is None,
            },
    {
        match self {
            Task::SendMediaSequence { cache_data, .. } => cache_data.as_ref(),
            Task::SendAnimation { cache_data, .. } => cache_data.as_ref(),
            Task::ForwardMessages { .. } => None,
        }
    }

    /// The post that is sent.
    pub fn source_url(&self) -> (r: Option<String>)
        ensures
            crate::json::text_option(r) == self@.source(),
    {
        match self {
            Task::SendMediaSequence { source_url, .. } => Some(source_url.clone()),
            Task::SendAnimation { source_url, .. } => Some(source_url.clone()),
            Task::ForwardMessages { .. } => None,
        }
    }

    /// The chat that a send goes to.
    pub fn chat_id(&self) -> (r: Option<i64>)
        ensures
            r == self@.chat(),
    {
        match self {
            Task::SendMediaSequence { chat_id, .. } => Some(*chat_id),
            Task::SendAnimation { chat_id, .. } => Some(*chat_id),
            Task::ForwardMessages { .. } => None,
        }
    }

    /// Whom to tell that the task failed.
    pub fn notify_target(&self) -> (r: (Option<i64>, Option<i64>))
        ensures
            r == self@.notify(),
    {
        match self {
            Task::SendMediaSequence { notify_chat_id, notify_message_id, .. } => (
                *notify_chat_id,
                *notify_message_id,
            ),
            Task::SendAnimation { notify_chat_id, notify_message_id, .. } => (
                *notify_chat_id,
                *notify_message_id,
            ),
            Task::ForwardMessages { notify_chat_id, notify_message_id, .. } => (
                *notify_chat_id,
                *notify_message_id,
            ),
        }
    }

    /// Whether the media are file ids out of the cache.
    pub fn is_cached_send(&self) -> (r: bool)
        ensures
            r == self@.cached_send(),
    {
        match self.cache_data() {
            Some(p) => p.media.len() > 0,
            None => false,
        }
    }

    /// The files on the disk that it needs.
    pub fn local_media_paths(&self) -> (r: Vec<String>)
        ensures
            crate::text::texts(r@) == local_paths(self@),
    {
        let ghost keep = |m: ItemView| is_local(m);
        let ghost show = |m: ItemView| m.url();
        let mut out: Vec<String> = Vec::new();
        match self {
            Task::SendMediaSequence { media_batches, .. } => {
                let ghost all = batch_views(media_batches@);
                let mut i: usize = 0;
                proof {
                    reveal(Seq::filter);
                    assert(all.take(0) =~= Seq::<Seq<ItemView>>::empty());
                    assert(crate::text::texts(out@) =~= concatenated(all.take(0)).filter(
                        keep,
                    ).map_values(show));
                }
                while i < media_batches.len()
                    invariant
                        all == batch_views(media_batches@),
                        keep == (|m: ItemView| is_local(m)),
                        show == (|m: ItemView| m.url()),
                        i <= media_batches@.len(),
                        crate::text::texts(out@) == concatenated(all.take(i as int)).filter(
                            keep,
                        ).map_values(show),
                    decreases media_batches@.len() - i,
                {
                    proof {
                        let done = concatenated(all.take(i as int));
                        let next = item_views(media_batches@[i as int]@);
                        assert(all.take(i + 1).drop_last() =~= all.take(i as int));
                        assert(all.take(i + 1).last() == next);
                        lemma_filter_concat(done, next, keep);
                        assert((done.filter(keep) + next.filter(keep)).map_values(show)
                            =~= done.filter(keep).map_values(show) + next.filter(keep).map_values(
                            show,
                        ));
                    }
                    push_local(&media_batches[i], &mut out);
                    i = i + 1;
                }
                assert(all.take(i as int) =~= all);
            },
            Task::SendAnimation { animation, .. } => {
                let ghost one = seq![animation@];
                proof {
                    reveal(Seq::filter);
                    assert(one.drop_last() =~= Seq::<ItemView>::empty());
                    assert(one.drop_last().filter(keep) =~= Seq::<ItemView>::empty());
                }
                if !animation.is_file_id() && !is_remote(animation.item_url().as_str()) {
                    out.push(animation.item_url().clone());
                    proof {
                        assert(one.filter(keep) =~= one);
                        assert(crate::text::texts(out@) =~= one.map_values(show));
                    }
                } else {
                    proof {
                        assert(one.filter(keep) =~= Seq::<ItemView>::empty());
                        assert(crate::text::texts(out@) =~= Seq::<Seq<char>>::empty());
                        assert(one.filter(keep).map_values(show) =~= Seq::<Seq<char>>::empty());
                    }
                }
            },
            Task::ForwardMessages { .. } => {
                proof {
                    reveal(Seq::filter);
                    assert(crate::text::texts(out@) =~= local_paths(self@));
                }
            },
        }
        out
    }

    /// A copy of a sequence task with its progress replaced.
    pub fn updated_sequence_task(&self, index: usize, sent: Vec<i64>) -> (r: Task)
        ensures
            r@ == progressed(self@, index as int, sent@),
    {
        let mut copy = self.duplicate();
        match &mut copy {
            Task::SendMediaSequence { batch_index, sent_message_ids, .. } => {
                *batch_index = index;
                *sent_message_ids = sent;
            },
            _ => {},
        }
        copy
    }
}

// ---- making a task ----

/// Where a send goes and what follows it.
#[derive(Clone, Copy, Debug)]
pub struct Delivery {
    pub chat_id: i64,
    pub reply_to_message_id: i64,
    pub edit_before_forward: bool,
    pub forward_channel_id: Option<i64>,
    pub notify_chat_id: Option<i64>,
    pub notify_message_id: Option<i64>,
}

/// The task that sends media: a lone animation by itself, anything else as a
/// sequence of albums with the photos first.
pub open spec fn task_of(
    d: Delivery,
    source_url: Seq<char>,
    caption: Seq<char>,
    items: Seq<ItemView>,
    cache_data: Option<PostView>,
) -> TaskView {
    if items.len() == 1 && items[0] is Animation {
        TaskView::SendAnimation {
            chat_id: d.chat_id,
            reply_to_message_id: d.reply_to_message_id,
            caption,
            animation: items[0],
            source_url,
            edit_before_forward: d.edit_before_forward,
            forward_channel_id: d.forward_channel_id,
            notify_chat_id: d.notify_chat_id,
            notify_message_id: d.notify_message_id,
            cache_data,
        }
    } else {
        TaskView::SendMediaSequence {
            chat_id: d.chat_id,
            reply_to_message_id: d.reply_to_message_id,
            caption,
            media_batches: chunks(photos_then_rest(items)),
            batch_index: 0,
            sent_message_ids: Seq::empty(),
            source_url,
            edit_before_forward: d.edit_before_forward,
            forward_channel_id: d.forward_channel_id,
            notify_chat_id: d.notify_chat_id,
            notify_message_id: d.notify_message_id,
            cache_data,
        }
    }
}

proof fn lemma_chunks_of_views(s: Seq<MediaItemPayload>)
    ensures
        chunks(s).map_values(|c: Seq<MediaItemPayload>| item_views(c)) == chunks(item_views(s)),
    decreases s.len(),
{
    let see = |c: Seq<MediaItemPayload>| item_views(c);
    if s.len() == 0 {
        assert(chunks(s).map_values(see) =~= chunks(item_views(s)));
    } else if s.len() <= MAX_MEDIA_GROUP {
        assert(chunks(s).map_values(see) =~= seq![item_views(s)]);
    } else {
        let head = s.take(MAX_MEDIA_GROUP as int);
        let tail = s.skip(MAX_MEDIA_GROUP as int);
        lemma_chunks_of_views(tail);
        assert(item_views(head) =~= item_views(s).take(MAX_MEDIA_GROUP as int));
        assert(item_views(tail) =~= item_views(s).skip(MAX_MEDIA_GROUP as int));
        assert(chunks(s).map_values(see) =~= seq![item_views(head)] + chunks(tail).map_values(
            see,
        ));
    }
}

impl Task {
    pub fn from_items(
        d: Delivery,
        source_url: String,
        caption: String,
        items: Vec<MediaItemPayload>,
        cache_data: Option<CachedPost>,
    ) -> (r: Task)
        ensures
            r@ == task_of(
                d,
                source_url@,
                caption@,
                item_views(items@),
                crate::link_cache::post_option(cache_data),
            ),
    {
        let lone = items.len() == 1 && match &items[0] {
            MediaItemPayload::Animation { .. } => true,
            _ => false,
        };
        if lone {
            assert(item_views(items@)[0] == items@[0]@);
            return Task::SendAnimation {
                chat_id: d.chat_id,
                reply_to_message_id: d.reply_to_message_id,
                caption,
                animation: items[0].duplicate(),
                source_url,
                edit_before_forward: d.edit_before_forward,
                forward_channel_id: d.forward_channel_id,
                notify_chat_id: d.notify_chat_id,
                notify_message_id: d.notify_message_id,
                cache_data,
            };
        }
        proof {
            if items@.len() == 1 {
                assert(item_views(items@)[0] == items@[0]@);
            }
        }
        let ordered = photos_first(items);
        let ghost flat = ordered@;
        let media_batches = chunk_media_items(ordered);
        proof {
            lemma_chunks_of_views(flat);
            let see = |v: Vec<MediaItemPayload>| v@;
            assert(media_batches@.map_values(see) == chunks(flat));
            assert(batch_views(media_batches@) =~= chunks(flat).map_values(
                |c: Seq<MediaItemPayload>| item_views(c),
            )) by {
                assert forall|i: int| 0 <= i < media_batches@.len() implies batch_views(
                    media_batches@,
                )[i] == chunks(flat).map_values(
                    |c: Seq<MediaItemPayload>| item_views(c),
                )[i] by {
                    assert(media_batches@.map_values(see)[i] == media_batches@[i]@);
                }
            }
        }
        let sent: Vec<i64> = Vec::new();
        assert(sent@ =~= Seq::<i64>::empty());
        Task::SendMediaSequence {
            chat_id: d.chat_id,
            reply_to_message_id: d.reply_to_message_id,
            caption,
            media_batches,
            batch_index: 0,
            sent_message_ids: sent,
            source_url,
            edit_before_forward: d.edit_before_forward,
            forward_channel_id: d.forward_channel_id,
            notify_chat_id: d.notify_chat_id,
            notify_message_id: d.notify_message_id,
            cache_data,
        }
    }
}

/// A task sends every medium it was made of, photos first, none twice.
pub proof fn law_task_sends_all_media(
    d: Delivery,
    source_url: Seq<char>,
    caption: Seq<char>,
    items: Seq<ItemView>,
    cache_data: Option<PostView>,
)
    ensures
        task_of(d, source_url, caption, items, cache_data).items() == photos_then_rest(items),
{
    law_chunks_keep_everything(photos_then_rest(items));
    if items.len() == 1 && items[0] is Animation {
        reveal(Seq::filter);
        let is_p = |m: ItemView| m is Photo;
        let not_p = |m: ItemView| !(m is Photo);
        assert(items.drop_last() =~= Seq::<ItemView>::empty());
        assert(items.drop_last().filter(is_p) =~= Seq::<ItemView>::empty());
        assert(items.drop_last().filter(not_p) =~= Seq::<ItemView>::empty());
        assert(items.filter(is_p) =~= Seq::<ItemView>::empty());
        assert(items.filter(not_p) =~= items);
        assert(photos_then_rest(items) =~= items);
        assert(seq![items[0]] =~= items);
    }
}

/// A task goes where it was meant to go: to the chat and in reply to the message of
/// its delivery, with its caption and its source, followed by what the delivery asks
/// for, and with nothing sent yet. Its albums hold the media, photos first, nine at a
/// time.
pub proof fn law_a_task_is_delivered_as_asked(
    d: Delivery,
    url: Seq<char>,
    words: Seq<char>,
    items: Seq<ItemView>,
    post: Option<PostView>,
)
    ensures
        match task_of(d, url, words, items, post) {
            TaskView::SendMediaSequence {
                chat_id,
                reply_to_message_id,
                caption,
                media_batches,
                batch_index,
                sent_message_ids,
                source_url,
                edit_before_forward,
                forward_channel_id,
                notify_chat_id,
                notify_message_id,
                cache_data,
            } => {
                &&& chat_id == d.chat_id
                &&& reply_to_message_id == d.reply_to_message_id
                &&& caption == words
                &&& source_url == url
                &&& batch_index == 0
                &&& sent_message_ids.len() == 0
                &&& edit_before_forward == d.edit_before_forward
                &&& forward_channel_id == d.forward_channel_id
                &&& notify_chat_id == d.notify_chat_id
                &&& notify_message_id == d.notify_message_id
                &&& cache_data == post
                &&& media_batches.len() == (items.len() + 8) / 9
                &&& forall|k: int, j: int|
                    0 <= k < media_batches.len() && 0 <= j < media_batches[k].len() ==> 9 * k + j
                        < items.len() && (#[trigger] media_batches[k][j]) == photos_then_rest(
                        items,
                    )[9 * k + j]
                &&& !(items.len() == 1 && items[0] is Animation)
            },
            TaskView::SendAnimation {
                chat_id,
                reply_to_message_id,
                caption,
                animation,
                source_url,
                edit_before_forward,
                forward_channel_id,
                notify_chat_id,
                notify_message_id,
                cache_data,
            } => {
                &&& chat_id == d.chat_id
                &&& reply_to_message_id == d.reply_to_message_id
                &&& caption == words
                &&& source_url == url
                &&& edit_before_forward == d.edit_before_forward
                &&& forward_channel_id == d.forward_channel_id
                &&& notify_chat_id == d.notify_chat_id
                &&& notify_message_id == d.notify_message_id
                &&& cache_data == post
                &&& items == seq![animation]
                &&& animation is Animation
            },
            TaskView::ForwardMessages { .. } => false,
        },
{
    law_albums_are_filled_in_order(photos_then_rest(items));
    law_photos_come_first(items);
    if items.len() == 1 && items[0] is Animation {
        assert(items =~= seq![items[0]]);
    }
}

/// A medium lies on the web where its address names one of the web's two protocols;
/// a path does not.
pub proof fn law_web_addresses_are_remote(rest: Seq<char>)
    ensures
        remote("http://"@ + rest),
        remote("https://"@ + rest),
        rest.len() > 0 && rest[0] != 'h' ==> !remote(rest),
{
    reveal_strlit("http://");
    reveal_strlit("https://");
    assert(("http://"@ + rest).subrange(0, 7) =~= "http://"@);
    assert(("https://"@ + rest).subrange(0, 8) =~= "https://"@);
    if remote(rest) {
        if crate::text::begins_with(rest, "http://"@) {
            assert(rest.subrange(0, 7)[0] == rest[0]);
        } else {
            assert(rest.subrange(0, 8)[0] == rest[0]);
        }
    }
}

/// The files that a task needs are just those of its media that lie on the disk:
/// each of them is listed, and nothing else is.
pub proof fn law_every_file_of_a_task_is_listed(t: TaskView, path: Seq<char>)
    ensures
        local_paths(t).contains(path) <==> exists|i: int|
            #![trigger t.items()[i]]
            0 <= i < t.items().len() && t.items()[i].url() == path && !t.items()[i].by_id()
                && !remote(path),
{
    let keep = |m: ItemView| is_local(m);
    let show = |m: ItemView| m.url();
    let kept = t.items().filter(keep);
    if local_paths(t).contains(path) {
        let j = choose|j: int| 0 <= j < local_paths(t).len() && local_paths(t)[j] == path;
        t.items().lemma_filter_pred(keep, j);
        t.items().lemma_filter_contains_rev(keep, kept[j]);
        let i = t.items().index_of(kept[j]);
        assert(t.items()[i] == kept[j]);
    }
    if exists|i: int|
        #![trigger t.items()[i]]
        0 <= i < t.items().len() && t.items()[i].url() == path && !t.items()[i].by_id() && !remote(
            path,
        ) {
        let i = choose|i: int|
            #![trigger t.items()[i]]
            0 <= i < t.items().len() && t.items()[i].url() == path && !t.items()[i].by_id()
                && !remote(path);
        t.items().lemma_filter_contains(keep, i);
        let j = kept.index_of(t.items()[i]);
        assert(local_paths(t)[j] == path);
    }
}

/// What is read of a medium is what it holds, whichever kind it is.
pub proof fn law_a_medium_is_what_it_holds(m: ItemView)
    ensures
        match m {
            ItemView::Photo { media, has_spoiler, fallback_url, file_id } => m.url() == media
                && m.spoiler() == has_spoiler && m.fallback() == fallback_url && m.by_id()
                == file_id && m.cover() is None && m.kind() == CachedMediaKind::Photo,
            ItemView::Video { media, has_spoiler, thumbnail, fallback_url, file_id } => m.url()
                == media && m.spoiler() == has_spoiler && m.fallback() == fallback_url && m.by_id()
                == file_id && m.cover() == thumbnail && m.kind() == CachedMediaKind::Video,
            ItemView::Animation { media, has_spoiler, file_id } => m.url() == media && m.spoiler()
                == has_spoiler && m.fallback() is None && m.by_id() == file_id && m.cover() is None
                && m.kind() == CachedMediaKind::Animation,
        },
{
}

/// What is read of a task is what it holds, whichever kind it is: whom to tell of a
/// failure, where it goes, what it is about, and whether it was sent out of the cache.
pub proof fn law_a_task_is_what_it_holds(t: TaskView)
    ensures
        match t {
            TaskView::SendMediaSequence {
                chat_id,
                source_url,
                notify_chat_id,
                notify_message_id,
                cache_data,
                media_batches,
                ..
            } => {
                &&& t.chat() == Some(chat_id)
                &&& t.source() == Some(source_url)
                &&& t.notify() == (notify_chat_id, notify_message_id)
                &&& t.cache() == cache_data
                &&& t.cached_send() <==> (cache_data matches Some(post) && post.media.len() > 0)
                &&& media_batches.len() == 1 ==> t.items() == media_batches[0]
                &&& media_batches.len() == 2 ==> t.items() == media_batches[0] + media_batches[1]
            },
            TaskView::SendAnimation {
                chat_id,
                source_url,
                notify_chat_id,
                notify_message_id,
                cache_data,
                animation,
                ..
            } => {
                &&& t.chat() == Some(chat_id)
                &&& t.source() == Some(source_url)
                &&& t.notify() == (notify_chat_id, notify_message_id)
                &&& t.cache() == cache_data
                &&& t.cached_send() <==> (cache_data matches Some(post) && post.media.len() > 0)
                &&& t.items() == seq![animation]
            },
            TaskView::ForwardMessages { notify_chat_id, notify_message_id, .. } => {
                &&& t.chat() is None
                &&& t.source() is None
                &&& t.notify() == (notify_chat_id, notify_message_id)
                &&& t.cache() is None
                &&& !t.cached_send()
                &&& t.items().len() == 0
            },
        },
{
    if let TaskView::SendMediaSequence { media_batches, .. } = t {
        reveal_with_fuel(concatenated, 3);
        if media_batches.len() == 1 {
            assert(media_batches.drop_last() =~= Seq::<Seq<ItemView>>::empty());
            assert(concatenated(media_batches) =~= media_batches[0]);
        }
        if media_batches.len() == 2 {
            let one = media_batches.drop_last();
            assert(one.drop_last() =~= Seq::<Seq<ItemView>>::empty());
            assert(one.last() == media_batches[0]);
            assert(concatenated(one) =~= media_batches[0]);
        }
    }
}

/// Media are read one by one, in their order, and each as it stands in its task.
pub proof fn law_media_are_read_in_order(v: Seq<MediaItemPayload>, b: Seq<Vec<MediaItemPayload>>, i: int)
    ensures
        item_views(v).len() == v.len(),
        0 <= i < v.len() ==> match v[i] {
            MediaItemPayload::Photo { media, has_spoiler, fallback_url, file_id } => item_views(v)[i]
                == (ItemView::Photo {
                media: media@,
                has_spoiler,
                fallback_url: crate::json::text_option(fallback_url),
                file_id,
            }),
            MediaItemPayload::Video { media, has_spoiler, thumbnail, fallback_url, file_id } =>
                item_views(v)[i] == (ItemView::Video {
                media: media@,
                has_spoiler,
                thumbnail: crate::json::text_option(thumbnail),
                fallback_url: crate::json::text_option(fallback_url),
                file_id,
            }),
            MediaItemPayload::Animation { media, has_spoiler, file_id } => item_views(v)[i] == (
            ItemView::Animation { media: media@, has_spoiler, file_id }),
        },
        batch_views(b).len() == b.len(),
        0 <= i < b.len() ==> batch_views(b)[i] == item_views(b[i]@),
{
}

} // verus!
