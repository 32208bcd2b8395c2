//! What goes into a send: the inputs of an album, and the preparation of a
//! medium that has to be uploaded.
use super::classify::{jittered_delay, FallbackError, FallbackView, JITTER_TO_MS};
use super::task::{is_remote, ItemView, MediaItemPayload};
use crate::link_cache::CachedMediaKind;
use crate::links::parse_url;
use crate::photo::{
    PhotoExt, PhotoPrep, MAX_PHOTO_DOWNLOAD_BYTES,
};
use crate::text::same;
use vstd::prelude::*;

verus! {

// ---- inputs ----

/// What the chat service is handed for a medium.
#[derive(Debug)]
pub enum InputSource {
    /// A file it already has.
    FileId(String),
    /// A URL it fetches itself.
    Url(String),
    /// A file on the disk, which is uploaded.
    File(String),
}

/// [`InputSource`] over mathematical text.
#[verifier::ext_equal]
pub enum InputView {
    FileId(Seq<char>),
    Url(Seq<char>),
    File(Seq<char>),
}

impl View for InputSource {
    type V = InputView;

    open spec fn view(&self) -> InputView {
        match self {
            InputSource::FileId(s) => InputView::FileId(s@),
            InputSource::Url(s) => InputView::Url(s@),
            InputSource::File(s) => InputView::File(s@),
        }
    }
}

pub open spec fn input_result(r: Result<InputSource, String>) -> Result<InputView, Seq<char>> {
    match r {
        Ok(i) => Ok(i@),
        Err(e) => Err(e@),
    }
}

/// A URL in the form it is handed on, or why it is none.
pub open spec fn media_url_of(url: Result<Seq<char>, Seq<char>>) -> Result<Seq<char>, Seq<char>> {
    match url {
        Ok(u) => Ok(u),
        Err(e) => Err("invalid media URL: "@ + e),
    }
}

/// What becomes of a URL that was parsed or refused.
pub fn checked_media_url(url: Result<String, String>) -> (r: Result<String, String>)
    ensures
        crate::links::text_result(r) == media_url_of(crate::links::text_result(url)),
{
    match url {
        Ok(u) => Ok(u),
        Err(e) => {
            let mut text = "invalid media URL: ".to_owned();
            text.append(e.as_str());
            Err(text)
        },
    }
}

pub fn parse_media_url(s: &str) -> (r: Result<String, String>)
    ensures
        crate::links::text_result(r) == media_url_of(crate::links::url_of(s@)),
{
    checked_media_url(parse_url(s))
}

pub fn contains_text(v: &Vec<String>, s: &str) -> (r: bool)
    ensures
        r == crate::text::texts(v@).contains(s@),
{
    let ghost all = crate::text::texts(v@);
    let mut i: usize = 0;
    while i < v.len()
        invariant
            i <= v@.len(),
            all == crate::text::texts(v@),
            forall|j: int| 0 <= j < i ==> #[trigger] all[j] != s@,
        decreases v@.len() - i,
    {
        assert(all[i as int] == v@[i as int]@);
        if same(v[i].as_str(), s) {
            assert(all.contains(s@));
            return true;
        }
        i = i + 1;
    }
    false
}

/// The input for a URL or a path. `present` lists the paths that exist: a file
/// that is gone never comes back, so it is refused at once.
pub open spec fn input_of(media: Seq<char>, present: Seq<Seq<char>>) -> Result<
    InputView,
    Seq<char>,
> {
    if remote_media(media) {
        match media_url_of(crate::links::url_of(media)) {
            Ok(u) => Ok(InputView::Url(u)),
            Err(e) => Err(e),
        }
    } else if present.contains(media) {
        Ok(InputView::File(media))
    } else {
        Err("local media file missing: "@ + media)
    }
}

pub open spec fn remote_media(media: Seq<char>) -> bool {
    super::task::remote(media)
}

pub fn input_file_for(media: &str, present: &Vec<String>) -> (r: Result<InputSource, String>)
    ensures
        input_result(r) == input_of(media@, crate::text::texts(present@)),
{
    if is_remote(media) {
        match parse_media_url(media) {
            Ok(u) => Ok(InputSource::Url(u)),
            Err(e) => Err(e),
        }
    } else if contains_text(present, media) {
        Ok(InputSource::File(media.to_owned()))
    } else {
        let mut text = "local media file missing: ".to_owned();
        text.append(media);
        Err(text)
    }
}

/// The input for a medium of a task: its file id where it has one.
pub open spec fn item_input(m: ItemView, present: Seq<Seq<char>>) -> Result<InputView, Seq<char>> {
    if m.by_id() {
        Ok(InputView::FileId(m.url()))
    } else {
        input_of(m.url(), present)
    }
}

pub fn input_file(item: &MediaItemPayload, present: &Vec<String>) -> (r: Result<
    InputSource,
    String,
>)
    ensures
        input_result(r) == item_input(item@, crate::text::texts(present@)),
{
    if item.is_file_id() {
        Ok(InputSource::FileId(item.item_url().clone()))
    } else {
        input_file_for(item.item_url().as_str(), present)
    }
}

// ---- albums ----

/// One medium of an album, ready to be sent.
#[derive(Debug)]
pub struct GroupItem {
    pub kind: CachedMediaKind,
    pub source: InputSource,
    pub caption: Option<String>,
    pub spoiler: bool,
    pub thumbnail: Option<InputSource>,
}

/// [`GroupItem`] over mathematical text.
#[verifier::ext_equal]
pub struct GroupView {
    pub kind: CachedMediaKind,
    pub source: InputView,
    pub caption: Option<Seq<char>>,
    pub spoiler: bool,
    pub thumbnail: Option<InputView>,
}

pub open spec fn input_option(i: Option<InputSource>) -> Option<InputView> {
    match i {
        Some(i) => Some(i@),
        None => None,
    }
}

impl View for GroupItem {
    type V = GroupView;

    open spec fn view(&self) -> GroupView {
        GroupView {
            kind: self.kind,
            source: self.source@,
            caption: crate::json::text_option(self.caption),
            spoiler: self.spoiler,
            thumbnail: input_option(self.thumbnail),
        }
    }
}

/// A medium sent from a source: the cover frame of a video goes with it.
pub open spec fn item_from(
    m: ItemView,
    source: Result<InputView, Seq<char>>,
    caption: Option<Seq<char>>,
    present: Seq<Seq<char>>,
) -> Result<GroupView, Seq<char>> {
    match source {
        Err(e) => Err(e),
        Ok(source) => match m.cover() {
            None => Ok(
                GroupView {
                    kind: m.kind(),
                    source,
                    caption,
                    spoiler: m.spoiler(),
                    thumbnail: None,
                },
            ),
            Some(cover) => match input_of(cover, present) {
                Err(e) => Err(e),
                Ok(thumb) => Ok(
                    GroupView {
                        kind: m.kind(),
                        source,
                        caption,
                        spoiler: m.spoiler(),
                        thumbnail: Some(thumb),
                    },
                ),
            },
        },
    }
}

pub open spec fn group_item_result(r: Result<GroupItem, String>) -> Result<GroupView, Seq<char>> {
    match r {
        Ok(i) => Ok(i@),
        Err(e) => Err(e@),
    }
}

/// A text that may be missing, seen as characters.
pub open spec fn caption_view(c: Option<&str>) -> Option<Seq<char>> {
    match c {
        Some(c) => Some(c@),
        None => None,
    }
}

fn own(c: Option<&str>) -> (r: Option<String>)
    ensures
        crate::json::text_option(r) == caption_view(c),
{
    match c {
        Some(c) => Some(c.to_owned()),
        None => None,
    }
}

/// Builds a medium of an album from a source.
pub fn make_item(
    item: &MediaItemPayload,
    source: Result<InputSource, String>,
    caption: Option<&str>,
    present: &Vec<String>,
) -> (r: Result<GroupItem, String>)
    ensures
        group_item_result(r) == item_from(
            item@,
            input_result(source),
            caption_view(caption),
            crate::text::texts(present@),
        ),
{
    let source = match source {
        Ok(source) => source,
        Err(e) => {
            return Err(e);
        },
    };
    let thumbnail: Option<InputSource> = match item.thumbnail_url() {
        None => None,
        Some(cover) => match input_file_for(cover.as_str(), present) {
            Ok(thumb) => Some(thumb),
            Err(e) => {
                return Err(e);
            },
        },
    };
    Ok(
        GroupItem {
            kind: item.kind_of_item(),
            source,
            caption: own(caption),
            spoiler: item.has_spoiler(),
            thumbnail,
        },
    )
}

/// An album: each medium with its input, the caption on the first one. The first
/// medium that cannot be sent decides.
pub open spec fn group_of(
    batch: Seq<ItemView>,
    caption: Option<Seq<char>>,
    present: Seq<Seq<char>>,
) -> Result<Seq<GroupView>, Seq<char>>
    decreases batch.len(),
{
    if batch.len() == 0 {
        Ok(Seq::empty())
    } else {
        match group_of(batch.drop_last(), caption, present) {
            Err(e) => Err(e),
            Ok(front) => match item_from(
                batch.last(),
                item_input(batch.last(), present),
                if batch.len() == 1 {
                    caption
                } else {
                    None
                },
                present,
            ) {
                Err(e) => Err(e),
                Ok(item) => Ok(front.push(item)),
            },
        }
    }
}

pub open spec fn group_views(v: Seq<GroupItem>) -> Seq<GroupView> {
    v.map_values(|i: GroupItem| i@)
}

pub open spec fn group_result(r: Result<Vec<GroupItem>, String>) -> Result<
    Seq<GroupView>,
    Seq<char>,
> {
    match r {
        Ok(v) => Ok(group_views(v@)),
        Err(e) => Err(e@),
    }
}

proof fn lemma_group_error(
    batch: Seq<ItemView>,
    caption: Option<Seq<char>>,
    present: Seq<Seq<char>>,
    i: int,
)
    requires
        0 <= i <= batch.len(),
        group_of(batch.take(i), caption, present) is Err,
    ensures
        group_of(batch, caption, present) == group_of(batch.take(i), caption, present),
    decreases batch.len() - i,
{
    if i < batch.len() {
        assert(batch.take(i + 1).drop_last() =~= batch.take(i));
        lemma_group_error(batch, caption, present, i + 1);
    } else {
        assert(batch.take(i) =~= batch);
    }
}

pub fn build_media_group(
    batch: &Vec<MediaItemPayload>,
    caption: Option<&str>,
    present: &Vec<String>,
) -> (r: Result<Vec<GroupItem>, String>)
    ensures
        group_result(r) == group_of(
            super::task::item_views(batch@),
            caption_view(caption),
            crate::text::texts(present@),
        ),
{
    let ghost all = super::task::item_views(batch@);
    let ghost cap = caption_view(caption);
    let ghost there = crate::text::texts(present@);
    let mut out: Vec<GroupItem> = Vec::new();
    let mut i: usize = 0;
    proof {
        assert(all.take(0) =~= Seq::<ItemView>::empty());
        assert(group_views(out@) =~= Seq::<GroupView>::empty());
    }
    while i < batch.len()
        invariant
            i <= batch@.len(),
            all == super::task::item_views(batch@),
            cap == caption_view(caption),
            there == crate::text::texts(present@),
            group_of(all.take(i as int), cap, there) == Ok::<Seq<GroupView>, Seq<char>>(
                group_views(out@),
            ),
        decreases batch@.len() - i,
    {
        proof {
            assert(all.take(i + 1).drop_last() =~= all.take(i as int));
            assert(all.take(i + 1).last() == batch@[i as int]@);
        }
        let item_caption = if i == 0 {
            caption
        } else {
            None
        };
        let source = input_file(&batch[i], present);
        match make_item(&batch[i], source, item_caption, present) {
            Ok(item) => {
                let ghost had = out@;
                out.push(item);
                assert(group_views(out@) =~= group_views(had).push(item@));
            },
            Err(e) => {
                proof {
                    lemma_group_error(all, cap, there, i + 1);
                }
                return Err(e);
            },
        }
        i = i + 1;
    }
    assert(all.take(i as int) =~= all);
    Ok(out)
}

/// Only the first medium of an album carries the caption. The album holds every medium
/// of the batch, in order, each of its own kind and source, hidden where it is to be, and
/// a video with its own cover.
pub proof fn law_only_the_first_medium_is_captioned(
    batch: Seq<ItemView>,
    caption: Option<Seq<char>>,
    present: Seq<Seq<char>>,
)
    ensures
        group_of(batch, caption, present) matches Ok(g) ==> g.len() == batch.len() && forall|i: int|
            0 <= i < g.len() ==> (#[trigger] g[i]).caption == (if i == 0 {
                caption
            } else {
                None
            }) && g[i].kind == batch[i].kind() && g[i].spoiler == batch[i].spoiler() && item_input(
                batch[i],
                present,
            ) == Ok::<InputView, Seq<char>>(g[i].source) && match batch[i].cover() {
                None => g[i].thumbnail is None,
                Some(cover) => g[i].thumbnail matches Some(thumb) && input_of(cover, present)
                    == Ok::<InputView, Seq<char>>(thumb),
            },
    decreases batch.len(),
{
    if batch.len() > 0 {
        law_only_the_first_medium_is_captioned(batch.drop_last(), caption, present);
    }
}

/// An album goes out exactly where every medium of it can be sent: one medium whose
/// address or cover cannot be used holds back the whole album.
pub proof fn law_an_album_goes_out_whole_or_not_at_all(
    batch: Seq<ItemView>,
    caption: Option<Seq<char>>,
    present: Seq<Seq<char>>,
)
    ensures
        group_of(batch, caption, present) is Ok <==> forall|i: int|
            0 <= i < batch.len() ==> item_input(#[trigger] batch[i], present) is Ok && (
            batch[i].cover() matches Some(cover) ==> input_of(cover, present) is Ok),
    decreases batch.len(),
{
    if batch.len() > 0 {
        let front = batch.drop_last();
        law_an_album_goes_out_whole_or_not_at_all(front, caption, present);
        assert(batch[batch.len() - 1] == batch.last());
        assert forall|i: int| 0 <= i < front.len() implies front[i] == #[trigger] batch[i] by {}
        if group_of(batch, caption, present) is Ok {
            assert forall|i: int| 0 <= i < batch.len() implies item_input(
                #[trigger] batch[i],
                present,
            ) is Ok && (batch[i].cover() matches Some(cover) ==> input_of(
                cover,
                present,
            ) is Ok) by {
                if i < front.len() {
                    assert(item_input(front[i], present) is Ok);
                }
            }
        }
    }
}

/// A medium is handed to the service by its file id where it has one; else by its URL,
/// which has to parse, where it lies on the web; else as a file, which has to be there.
pub proof fn law_media_are_sent_from_where_they_are(m: ItemView, present: Seq<Seq<char>>)
    ensures
        m.by_id() ==> item_input(m, present) == Ok::<InputView, Seq<char>>(
            InputView::FileId(m.url()),
        ),
        !m.by_id() && super::task::remote(m.url()) ==> match crate::links::url_of(m.url()) {
            Ok(url) => item_input(m, present) == Ok::<InputView, Seq<char>>(InputView::Url(url)),
            Err(_) => item_input(m, present) is Err,
        },
        !m.by_id() && !super::task::remote(m.url()) && present.contains(m.url()) ==> item_input(
            m,
            present,
        ) == Ok::<InputView, Seq<char>>(InputView::File(m.url())),
        !m.by_id() && !super::task::remote(m.url()) && !present.contains(m.url()) ==> item_input(
            m,
            present,
        ) is Err,
{
}

// ---- file types ----

/// Whether bytes hold `b` at position `i`.
pub open spec fn byte_at(s: Seq<u8>, i: int, b: u8) -> bool {
    i < s.len() && s[i] == b
}

/// The extension that fits the first bytes of a file.
pub open spec fn ext_of(s: Seq<u8>) -> Seq<char> {
    if byte_at(s, 0, 0xff) && byte_at(s, 1, 0xd8) {
        "jpg"@
    } else if byte_at(s, 0, 0x89) && byte_at(s, 1, 0x50) && byte_at(s, 2, 0x4e) && byte_at(
        s,
        3,
        0x47,
    ) {
        "png"@
    } else if byte_at(s, 0, 0x52) && byte_at(s, 1, 0x49) && byte_at(s, 2, 0x46) && byte_at(
        s,
        3,
        0x46,
    ) && byte_at(s, 8, 0x57) && byte_at(s, 9, 0x45) && byte_at(s, 10, 0x42) && byte_at(
        s,
        11,
        0x50,
    ) {
        "webp"@
    } else if byte_at(s, 0, 0x47) && byte_at(s, 1, 0x49) && byte_at(s, 2, 0x46) && byte_at(
        s,
        3,
        0x38,
    ) {
        "gif"@
    } else if s.len() >= 12 && byte_at(s, 4, 0x66) && byte_at(s, 5, 0x74) && byte_at(s, 6, 0x79)
        && byte_at(s, 7, 0x70) {
        "mp4"@
    } else {
        "bin"@
    }
}

fn at(s: &[u8], i: usize, b: u8) -> (r: bool)
    ensures
        r == byte_at(s@, i as int, b),
{
    i < s.len() && s[i] == b
}

/// Infers a file extension, from which the service tells the type of an upload.
pub fn sniff_ext(s: &[u8]) -> (r: String)
    ensures
        r@ == ext_of(s@),
{
    if at(s, 0, 0xff) && at(s, 1, 0xd8) {
        "jpg".to_owned()
    } else if at(s, 0, 0x89) && at(s, 1, 0x50) && at(s, 2, 0x4e) && at(s, 3, 0x47) {
        "png".to_owned()
    } else if at(s, 0, 0x52) && at(s, 1, 0x49) && at(s, 2, 0x46) && at(s, 3, 0x46) && at(s, 8, 0x57)
        && at(s, 9, 0x45) && at(s, 10, 0x42) && at(s, 11, 0x50) {
        "webp".to_owned()
    } else if at(s, 0, 0x47) && at(s, 1, 0x49) && at(s, 2, 0x46) && at(s, 3, 0x38) {
        "gif".to_owned()
    } else if s.len() >= 12 && at(s, 4, 0x66) && at(s, 5, 0x74) && at(s, 6, 0x79) && at(
        s,
        7,
        0x70,
    ) {
        "mp4".to_owned()
    } else {
        "bin".to_owned()
    }
}

// ---- preparing a medium for upload ----

/// What is to be done next for a medium that has to be uploaded.
#[derive(Debug)]
pub enum UploadStep {
    /// It can be sent.
    Ready { item: GroupItem },
    /// Ask its site how large it is.
    AskSize { url: String },
    /// Download it, up to a number of bytes.
    Download { url: String, limit: u64 },
    /// Keep the downloaded bytes in a file with this extension.
    Store { ext: String },
    /// Bring the downloaded photo within the limits.
    ProcessPhoto,
    /// Keep the processed photo in a file.
    StoreProcessed { bytes: Vec<u8>, format: PhotoExt },
    /// It cannot be sent.
    Fail { error: FallbackError },
}

/// [`UploadStep`] over mathematical values.
pub enum StepView {
    Ready { item: GroupView },
    AskSize { url: Seq<char> },
    Download { url: Seq<char>, limit: u64 },
    Store { ext: Seq<char> },
    ProcessPhoto,
    StoreProcessed { bytes: Seq<u8>, format: PhotoExt },
    Fail { error: FallbackView },
}

impl View for UploadStep {
    type V = StepView;

    open spec fn view(&self) -> StepView {
        match self {
            UploadStep::Ready { item } => StepView::Ready { item: item@ },
            UploadStep::AskSize { url } => StepView::AskSize { url: url@ },
            UploadStep::Download { url, limit } => StepView::Download { url: url@, limit: *limit },
            UploadStep::Store { ext } => StepView::Store { ext: ext@ },
            UploadStep::ProcessPhoto => StepView::ProcessPhoto,
            UploadStep::StoreProcessed { bytes, format } => StepView::StoreProcessed {
                bytes: bytes@,
                format: *format,
            },
            UploadStep::Fail { error } => StepView::Fail { error: error@ },
        }
    }
}

pub open spec fn failed(message: Seq<char>) -> StepView {
    StepView::Fail { error: FallbackView::Permanent { message } }
}

/// A medium that was put together, or why it could not be.
pub open spec fn ready(r: Result<GroupView, Seq<char>>) -> StepView {
    match r {
        Ok(item) => StepView::Ready { item },
        Err(e) => failed(e),
    }
}

fn finish(r: Result<GroupItem, String>) -> (s: UploadStep)
    ensures
        s@ == ready(group_item_result(r)),
{
    match r {
        Ok(item) => UploadStep::Ready { item },
        Err(message) => UploadStep::Fail { error: FallbackError::Permanent { message } },
    }
}

/// The medium from a file that is uploaded.
pub open spec fn from_file(
    m: ItemView,
    path: Seq<char>,
    caption: Option<Seq<char>>,
    present: Seq<Seq<char>>,
) -> StepView {
    ready(item_from(m, Ok(InputView::File(path)), caption, present))
}

fn media_from_file(
    item: &MediaItemPayload,
    path: &str,
    caption: Option<&str>,
    present: &Vec<String>,
) -> (r: UploadStep)
    ensures
        r@ == from_file(item@, path@, caption_view(caption), crate::text::texts(present@)),
{
    finish(make_item(item, Ok(InputSource::File(path.to_owned())), caption, present))
}

/// The smaller variant of a medium, or a failure where there is none.
pub open spec fn smaller(
    m: ItemView,
    caption: Option<Seq<char>>,
    present: Seq<Seq<char>>,
    otherwise: Seq<char>,
) -> StepView {
    match m.fallback() {
        Some(url) => ready(item_from(m, input_of(url, present), caption, present)),
        None => failed(otherwise),
    }
}

fn media_from_smaller(
    item: &MediaItemPayload,
    caption: Option<&str>,
    present: &Vec<String>,
    otherwise: &str,
) -> (r: UploadStep)
    ensures
        r@ == smaller(
            item@,
            caption_view(caption),
            crate::text::texts(present@),
            otherwise@,
        ),
{
    match item.fallback_url() {
        Some(url) => {
            let source = input_file_for(url.as_str(), present);
            finish(make_item(item, source, caption, present))
        },
        None => UploadStep::Fail {
            error: FallbackError::Permanent { message: otherwise.to_owned() },
        },
    }
}

fn photo(item: &MediaItemPayload) -> (r: bool)
    ensures
        r == (item@ is Photo),
{
    match item {
        MediaItemPayload::Photo { .. } => true,
        _ => false,
    }
}

/// A file on the disk is uploaded as it is; of anything else the size is asked.
pub open spec fn upload_begins(
    m: ItemView,
    caption: Option<Seq<char>>,
    present: Seq<Seq<char>>,
) -> StepView {
    if remote_media(m.url()) {
        StepView::AskSize { url: m.url() }
    } else {
        from_file(m, m.url(), caption, present)
    }
}

pub fn start_upload(item: &MediaItemPayload, caption: Option<&str>, present: &Vec<String>) -> (r:
    UploadStep)
    ensures
        r@ == upload_begins(item@, caption_view(caption), crate::text::texts(present@)),
{
    if is_remote(item.item_url().as_str()) {
        UploadStep::AskSize { url: item.item_url().clone() }
    } else {
        media_from_file(item, item.item_url().as_str(), caption, present)
    }
}

/// The largest video or animation that the service takes from a bot. It takes
/// larger ones than photos.
pub const MAX_MEDIA_UPLOAD_BYTES: u64 = 52428800;

/// How much of a medium is downloaded: a photo may be larger than what can be
/// uploaded, because it is processed first.
pub open spec fn download_limit(m: ItemView) -> int {
    if m is Photo {
        MAX_PHOTO_DOWNLOAD_BYTES as int
    } else {
        MAX_MEDIA_UPLOAD_BYTES + 1
    }
}

/// A video or animation over its upload limit is replaced by its smaller variant;
/// a photo, or a medium of unknown size, is downloaded.
pub open spec fn size_known(
    m: ItemView,
    size: Option<u64>,
    caption: Option<Seq<char>>,
    present: Seq<Seq<char>>,
) -> StepView {
    if !(m is Photo) && (size matches Some(s) && s > MAX_MEDIA_UPLOAD_BYTES) {
        smaller(m, caption, present, "media too large"@)
    } else {
        StepView::Download { url: m.url(), limit: download_limit(m) as u64 }
    }
}

pub fn after_size(
    item: &MediaItemPayload,
    size: Option<u64>,
    caption: Option<&str>,
    present: &Vec<String>,
) -> (r: UploadStep)
    ensures
        r@ == size_known(item@, size, caption_view(caption), crate::text::texts(present@)),
{
    let too_large = match size {
        Some(s) => s > MAX_MEDIA_UPLOAD_BYTES,
        None => false,
    };
    if too_large && !photo(item) {
        media_from_smaller(item, caption, present, "media too large")
    } else {
        let limit: u64 = if photo(item) {
            MAX_PHOTO_DOWNLOAD_BYTES
        } else {
            MAX_MEDIA_UPLOAD_BYTES + 1
        };
        UploadStep::Download { url: item.item_url().clone(), limit }
    }
}

/// How a download ended.
#[derive(Debug)]
pub enum DownloadOutcome {
    Fetched(Vec<u8>),
    /// The site was not reached.
    Http,
    /// There was more than the limit.
    TooLarge,
    /// Anything else, in words.
    Failed(String),
}

/// What follows a download. A site that was not reached is worth a retry.
pub open spec fn downloaded(
    m: ItemView,
    outcome: DownloadOutcome,
    caption: Option<Seq<char>>,
    present: Seq<Seq<char>>,
    jitter: int,
) -> StepView {
    match outcome {
        DownloadOutcome::Fetched(bytes) => StepView::Store { ext: ext_of(bytes@) },
        DownloadOutcome::Http => StepView::Fail {
            error: FallbackView::Retryable {
                delay_ms: super::classify::backoff_ms(0, jitter),
            },
        },
        DownloadOutcome::TooLarge => smaller(m, caption, present, "media too large"@),
        DownloadOutcome::Failed(e) => failed("download failed: "@ + e@),
    }
}

pub fn after_download(
    item: &MediaItemPayload,
    outcome: &DownloadOutcome,
    caption: Option<&str>,
    present: &Vec<String>,
    jitter: u64,
) -> (r: UploadStep)
    requires
        jitter <= JITTER_TO_MS,
    ensures
        r@ == downloaded(
            item@,
            *outcome,
            caption_view(caption),
            crate::text::texts(present@),
            jitter as int,
        ),
{
    match outcome {
        DownloadOutcome::Fetched(bytes) => UploadStep::Store { ext: sniff_ext(bytes.as_slice()) },
        DownloadOutcome::Http => UploadStep::Fail {
            error: FallbackError::Retryable { delay_ms: jittered_delay(0, jitter) },
        },
        DownloadOutcome::TooLarge => media_from_smaller(item, caption, present, "media too large"),
        DownloadOutcome::Failed(e) => {
            let mut message = "download failed: ".to_owned();
            message.append(e.as_str());
            UploadStep::Fail { error: FallbackError::Permanent { message } }
        },
    }
}

/// What follows once the downloaded bytes lie in a file, or why they do not: a
/// photo is processed, anything else is uploaded.
pub open spec fn stored(
    m: ItemView,
    path: Result<Seq<char>, Seq<char>>,
    caption: Option<Seq<char>>,
    present: Seq<Seq<char>>,
) -> StepView {
    match path {
        Err(e) => failed(e),
        Ok(path) => if m is Photo {
            StepView::ProcessPhoto
        } else {
            from_file(m, path, caption, present)
        },
    }
}

pub fn after_store(
    item: &MediaItemPayload,
    path: &Result<String, String>,
    caption: Option<&str>,
    present: &Vec<String>,
) -> (r: UploadStep)
    ensures
        r@ == stored(
            item@,
            crate::links::text_result(*path),
            caption_view(caption),
            crate::text::texts(present@),
        ),
{
    match path {
        Err(e) => UploadStep::Fail { error: FallbackError::Permanent { message: e.clone() } },
        Ok(path) => if photo(item) {
            UploadStep::ProcessPhoto
        } else {
            media_from_file(item, path.as_str(), caption, present)
        },
    }
}

/// What follows once a photo was looked at: the download itself, a processed
/// copy, or the smaller variant goes out.
pub open spec fn processed(
    m: ItemView,
    prep: Result<crate::photo::PrepView, Seq<char>>,
    path: Seq<char>,
    caption: Option<Seq<char>>,
    present: Seq<Seq<char>>,
) -> StepView {
    match prep {
        Err(e) => failed(e),
        Ok(crate::photo::PrepView::Original) => from_file(m, path, caption, present),
        Ok(crate::photo::PrepView::Upload(bytes, ext)) => StepView::StoreProcessed { bytes, format: ext },
        Ok(crate::photo::PrepView::UseFallback) => smaller(
            m,
            caption,
            present,
            "photo dimensions exceed Telegram limits and no smaller variant is available"@,
        ),
    }
}

pub fn after_photo(
    item: &MediaItemPayload,
    prep: Result<PhotoPrep, String>,
    path: &str,
    caption: Option<&str>,
    present: &Vec<String>,
) -> (r: UploadStep)
    ensures
        r@ == processed(
            item@,
            crate::photo::prep_result(prep),
            path@,
            caption_view(caption),
            crate::text::texts(present@),
        ),
{
    match prep {
        Err(message) => UploadStep::Fail { error: FallbackError::Permanent { message } },
        Ok(PhotoPrep::Original) => media_from_file(item, path, caption, present),
        Ok(PhotoPrep::Upload(bytes, ext)) => UploadStep::StoreProcessed { bytes, format: ext },
        Ok(PhotoPrep::UseFallback) => media_from_smaller(
            item,
            caption,
            present,
            "photo dimensions exceed Telegram limits and no smaller variant is available",
        ),
    }
}

/// What follows once the processed photo lies in a file, or why it does not.
pub fn after_store_processed(
    item: &MediaItemPayload,
    path: &Result<String, String>,
    caption: Option<&str>,
    present: &Vec<String>,
) -> (r: UploadStep)
    ensures
        r@ == match crate::links::text_result(*path) {
            Err(e) => failed(e),
            Ok(p) => from_file(item@, p, caption_view(caption), crate::text::texts(present@)),
        },
{
    match path {
        Err(e) => UploadStep::Fail { error: FallbackError::Permanent { message: e.clone() } },
        Ok(path) => media_from_file(item, path.as_str(), caption, present),
    }
}

/// A medium that is too large, or a photo that cannot be brought within the
/// limits, never fails where it has a smaller variant that can be sent: that one
/// goes out in its place, with the same caption and spoiler.
pub proof fn law_oversized_media_degrade(
    m: ItemView,
    size: u64,
    path: Seq<char>,
    caption: Option<Seq<char>>,
    present: Seq<Seq<char>>,
    jitter: int,
    item: GroupView,
)
    requires
        m.fallback() is Some,
        item_from(m, input_of(m.fallback()->0, present), caption, present) == Ok::<
            GroupView,
            Seq<char>,
        >(item),
    ensures
        downloaded(m, DownloadOutcome::TooLarge, caption, present, jitter) == (StepView::Ready {
            item,
        }),
        processed(m, Ok(crate::photo::PrepView::UseFallback), path, caption, present) == (
        StepView::Ready { item }),
        !(m is Photo) && size > MAX_MEDIA_UPLOAD_BYTES ==> size_known(m, Some(size), caption, present)
            == (StepView::Ready { item }),
        item.caption == caption,
        item.spoiler == m.spoiler(),
        item.kind == m.kind(),
{
}

/// Whatever way a medium takes to its upload, it goes out as what it is: of its own
/// kind, with the caption it was to have, and hidden where it was to be. The file that
/// goes out is the one it was stored in, or its own where it lay on the disk; what is
/// downloaded is the medium itself.
pub proof fn law_uploads_stay_what_they_are(
    m: ItemView,
    size: Option<u64>,
    outcome: DownloadOutcome,
    stored_at: Result<Seq<char>, Seq<char>>,
    path: Seq<char>,
    prep: Result<crate::photo::PrepView, Seq<char>>,
    caption: Option<Seq<char>>,
    present: Seq<Seq<char>>,
    jitter: int,
)
    ensures
        upload_begins(m, caption, present) matches StepView::Ready { item } ==> item.kind
            == m.kind() && item.caption == caption && item.spoiler == m.spoiler() && item.source
            == InputView::File(m.url()),
        upload_begins(m, caption, present) matches StepView::AskSize { url } ==> url == m.url(),
        upload_begins(m, caption, present) is AskSize <==> super::task::remote(m.url()),
        size_known(m, size, caption, present) matches StepView::Ready { item } ==> item.kind
            == m.kind() && item.caption == caption && item.spoiler == m.spoiler(),
        size_known(m, size, caption, present) matches StepView::Download { url, limit } ==> url
            == m.url() && limit == if m is Photo {
            32 * 1024 * 1024
        } else {
            50 * 1024 * 1024 + 1
        },
        size_known(m, size, caption, present) is Download <==> m is Photo || size is None || size->0
            <= 50 * 1024 * 1024,
        downloaded(m, outcome, caption, present, jitter) matches StepView::Ready { item }
            ==> item.kind == m.kind() && item.caption == caption && item.spoiler == m.spoiler(),
        downloaded(m, outcome, caption, present, jitter) is Store <==> outcome is Fetched,
        outcome matches DownloadOutcome::Fetched(bytes) ==> (downloaded(
            m,
            outcome,
            caption,
            present,
            jitter,
        ) matches StepView::Store { ext } && ext == ext_of(bytes@)),
        outcome is Http ==> (downloaded(m, outcome, caption, present, jitter)
            matches StepView::Fail { error } && error is Retryable),
        outcome is Failed ==> (downloaded(m, outcome, caption, present, jitter)
            matches StepView::Fail { error } && error is Permanent),
        stored(m, stored_at, caption, present) matches StepView::Ready { item } ==> item.kind
            == m.kind() && item.caption == caption && item.spoiler == m.spoiler() && Ok::<
            Seq<char>,
            Seq<char>,
        >(item.source->File_0) == stored_at && item.source is File && !(m is Photo),
        stored(m, stored_at, caption, present) is ProcessPhoto <==> m is Photo && stored_at is Ok,
        processed(m, prep, path, caption, present) matches StepView::Ready { item } ==> item.kind
            == m.kind() && item.caption == caption && item.spoiler == m.spoiler() && (prep == Ok::<
            crate::photo::PrepView,
            Seq<char>,
        >(crate::photo::PrepView::Original) ==> item.source == InputView::File(path)),
        processed(m, prep, path, caption, present) matches StepView::StoreProcessed {
            bytes,
            format,
        } ==> prep == Ok::<crate::photo::PrepView, Seq<char>>(
            crate::photo::PrepView::Upload(bytes, format),
        ),
        prep is Err ==> processed(m, prep, path, caption, present) is Fail,
{
}

/// The extension of an upload is that of the format whose files begin with the same
/// bytes; a file that begins like none of them has no known type.
pub proof fn law_extensions_follow_the_bytes(s: Seq<u8>)
    ensures
        seq![0xffu8, 0xd8].is_prefix_of(s) ==> ext_of(s) == "jpg"@,
        seq![0x89u8, 0x50, 0x4e, 0x47].is_prefix_of(s) ==> ext_of(s) == "png"@,
        seq![0x47u8, 0x49, 0x46, 0x38].is_prefix_of(s) ==> ext_of(s) == "gif"@,
        s.len() >= 12 && s.subrange(0, 4) == seq![0x52u8, 0x49, 0x46, 0x46] && s.subrange(8, 12)
            == seq![0x57u8, 0x45, 0x42, 0x50] ==> ext_of(s) == "webp"@,
        s.len() >= 12 && s.subrange(4, 8) == seq![0x66u8, 0x74, 0x79, 0x70] && s[0] == 0 ==> ext_of(
            s,
        ) == "mp4"@,
        s.len() < 2 ==> ext_of(s) == "bin"@,
        crate::photo::looks_png(s) ==> ext_of(s) == "png"@,
        crate::photo::looks_jpeg(s) ==> ext_of(s) == "jpg"@,
{
    let jpg = seq![0xffu8, 0xd8];
    let png = seq![0x89u8, 0x50, 0x4e, 0x47];
    let gif = seq![0x47u8, 0x49, 0x46, 0x38];
    if jpg.is_prefix_of(s) {
        assert(s[0] == jpg[0] && s[1] == jpg[1]);
    }
    if png.is_prefix_of(s) {
        assert(s[0] == png[0] && s[1] == png[1] && s[2] == png[2] && s[3] == png[3]);
    }
    if gif.is_prefix_of(s) {
        assert(s[0] == gif[0] && s[1] == gif[1] && s[2] == gif[2] && s[3] == gif[3]);
    }
    if s.len() >= 12 {
        let a = s.subrange(0, 4);
        let b = s.subrange(4, 8);
        let c = s.subrange(8, 12);
        assert(a[0] == s[0] && a[1] == s[1] && a[2] == s[2] && a[3] == s[3]);
        assert(b[0] == s[4] && b[1] == s[5] && b[2] == s[6] && b[3] == s[7]);
        assert(c[0] == s[8] && c[1] == s[9] && c[2] == s[10] && c[3] == s[11]);
    }
}

/// What is handed to the service is what was put together, in its order.
pub proof fn law_groups_are_read_in_order(v: Seq<GroupItem>, i: int)
    requires
        0 <= i < v.len(),
    ensures
        group_views(v).len() == v.len(),
        group_views(v)[i].kind == v[i].kind,
        group_views(v)[i].caption == crate::json::text_option(v[i].caption),
        group_views(v)[i].spoiler == v[i].spoiler,
        match v[i].source {
            InputSource::FileId(s) => group_views(v)[i].source == InputView::FileId(s@),
            InputSource::Url(s) => group_views(v)[i].source == InputView::Url(s@),
            InputSource::File(s) => group_views(v)[i].source == InputView::File(s@),
        },
        v[i].thumbnail is Some <==> group_views(v)[i].thumbnail is Some,
{
}

} // verus!
