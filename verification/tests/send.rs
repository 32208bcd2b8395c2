use xmedia_bot::link_cache::{CachedMedia, CachedMediaKind, CachedPost, LinkCache};
use xmedia_bot::photo::{PhotoExt, PhotoPrep, MAX_UPLOAD_BYTES, PHOTO_MAX_DIMENSION_SUM};
use xmedia_bot::send::classify::{
    classify_request_error, classify_with, draw_jitter, is_media_fetch_failure, is_size_error,
    jittered_delay, needs_upload, retry_delay_ms, ApiError, Classification, FallbackError,
    RequestError, RequestErrorKind, SendError, JITTER_FROM_MS, JITTER_TO_MS,
};
use xmedia_bot::send::media::{
    after_download, after_photo, after_size, after_store, after_store_processed,
    build_media_group, input_file, input_file_for, parse_media_url, sniff_ext, start_upload,
    DownloadOutcome, InputSource, UploadStep, MAX_MEDIA_UPLOAD_BYTES,
};
use xmedia_bot::send::post::{
    after_forward, dead_letter_notify, failure_text, handle_task, notify_failure,
    post_send_actions, release_keep_alive, ForwardStep, PostSendStep, TaskStep,
};
use xmedia_bot::send::run::{
    after_animation, after_animation_upload, after_prepare, cache_sent_task, collect_file_ids,
    forward_messages, invalidate_cache_with, invalidates_cache, start_animation, AnimationStep,
    FailedAlbum, SentMessage, SequenceRun, SequenceStep, UploadFailure,
};
use xmedia_bot::send::task::{
    chunk_media_items, is_remote, photos_first, Delivery, MediaItemPayload, Task, MAX_MEDIA_GROUP,
};
use xmedia_bot::state::ChatData;

fn api(description: &str) -> ApiError {
    ApiError { description: description.to_string(), entity_too_large: false }
}

fn api_error(description: &str) -> RequestError {
    RequestError {
        kind: RequestErrorKind::Api(api(description)),
        text: description.to_string(),
    }
}

fn media_fetch_error() -> RequestError {
    api_error("Bad Request: WEBPAGE_MEDIA_EMPTY")
}

fn retry_after(seconds: u32) -> RequestError {
    RequestError { kind: RequestErrorKind::RetryAfter(seconds), text: "wait".into() }
}

fn photo(url: &str) -> MediaItemPayload {
    MediaItemPayload::Photo {
        media: url.into(),
        has_spoiler: false,
        fallback_url: None,
        file_id: false,
    }
}

fn video(url: &str) -> MediaItemPayload {
    MediaItemPayload::Video {
        media: url.into(),
        has_spoiler: false,
        thumbnail: None,
        fallback_url: None,
        file_id: false,
    }
}

fn animation(url: &str) -> MediaItemPayload {
    MediaItemPayload::Animation { media: url.into(), has_spoiler: false, file_id: false }
}

fn sequence_of(batches: Vec<Vec<MediaItemPayload>>) -> Task {
    Task::SendMediaSequence {
        chat_id: 1,
        reply_to_message_id: 2,
        caption: "cap".into(),
        media_batches: batches,
        batch_index: 0,
        sent_message_ids: vec![],
        source_url: "https://x.com/u/status/1".into(),
        edit_before_forward: false,
        forward_channel_id: None,
        notify_chat_id: Some(1),
        notify_message_id: Some(2),
        cache_data: None,
    }
}

fn sequence_task(media: &str) -> Task {
    sequence_of(vec![vec![photo(media)]])
}

fn animation_task(media: &str) -> Task {
    Task::SendAnimation {
        chat_id: 1,
        reply_to_message_id: 2,
        caption: "cap".into(),
        animation: animation(media),
        source_url: "https://x.com/u/status/1".into(),
        edit_before_forward: false,
        forward_channel_id: None,
        notify_chat_id: Some(1),
        notify_message_id: Some(2),
        cache_data: None,
    }
}

fn forward_task() -> Task {
    Task::ForwardMessages {
        from_chat_id: 1,
        to_chat_id: 2,
        message_ids: vec![3],
        notify_chat_id: None,
        notify_message_id: None,
    }
}

fn raw_post() -> CachedPost {
    CachedPost {
        url: "https://x.com/u/status/1".into(),
        caption: "cap".into(),
        title: "t".into(),
        content: "c".into(),
        author: "a".into(),
        author_url: "au".into(),
        tags: String::new(),
        sensitive: false,
        media: vec![],
    }
}

fn sent(id: i64, file: &str) -> SentMessage {
    SentMessage {
        id,
        photo_file_ids: vec![format!("small-{file}"), file.to_string()],
        video_file_id: Some(format!("v-{file}")),
        animation_file_id: Some(format!("a-{file}")),
    }
}

// ---- media and tasks ----

#[test]
fn oversized_photo_boundary() {
    assert!(PHOTO_MAX_DIMENSION_SUM == 10000);
    assert!(6100 + 3900 <= PHOTO_MAX_DIMENSION_SUM);
    assert!(6300 + 3730 > PHOTO_MAX_DIMENSION_SUM);
}

#[test]
fn chunk_media_items_sizes() {
    assert_eq!(chunk_media_items::<i32>(vec![]), Vec::<Vec<i32>>::new());
    assert_eq!(chunk_media_items((0..9).collect::<Vec<i32>>()).len(), 1);
    assert_eq!(chunk_media_items((0..10).collect::<Vec<i32>>()).len(), 2);
    assert_eq!(chunk_media_items((0..25).collect::<Vec<i32>>()).len(), 3);
    assert_eq!(chunk_media_items((0..25).collect::<Vec<i32>>())[2].len(), 7);
    assert!(chunk_media_items((0..25).collect::<Vec<i32>>()).iter().all(|c| c.len() <= 9));
    let flat: Vec<i32> = chunk_media_items((0..25).collect()).into_iter().flatten().collect();
    assert_eq!(flat, (0..25).collect::<Vec<i32>>());
    assert_eq!(MAX_MEDIA_GROUP, 9);
}

#[test]
fn photos_first_orders_photos_before_videos() {
    let items = vec![
        video("https://v/1.mp4"),
        photo("https://p/1.jpg"),
        video("https://v/2.mp4"),
        photo("https://p/2.jpg"),
    ];
    let ordered = photos_first(items);
    let kinds: Vec<&str> = ordered
        .iter()
        .map(|i| match i {
            MediaItemPayload::Photo { media, .. } => media.as_str(),
            MediaItemPayload::Video { media, .. } => media.as_str(),
            MediaItemPayload::Animation { .. } => unreachable!(),
        })
        .collect();
    assert_eq!(
        kinds,
        ["https://p/1.jpg", "https://p/2.jpg", "https://v/1.mp4", "https://v/2.mp4"]
    );
    let items = vec![photo("https://p/1.jpg"), video("https://v/1.mp4")];
    assert!(matches!(photos_first(items)[0], MediaItemPayload::Photo { .. }));
}

fn delivery() -> Delivery {
    Delivery {
        chat_id: 1,
        reply_to_message_id: 2,
        edit_before_forward: false,
        forward_channel_id: Some(3),
        notify_chat_id: Some(1),
        notify_message_id: Some(2),
    }
}

#[test]
fn tasks_are_made_of_their_media() {
    let lone = Task::from_items(delivery(), "u".into(), "c".into(), vec![animation("g")], None);
    assert!(matches!(lone, Task::SendAnimation { forward_channel_id: Some(3), .. }));
    let two =
        Task::from_items(delivery(), "u".into(), "c".into(), vec![animation("g"), photo("p")], None);
    match &two {
        Task::SendMediaSequence { media_batches, .. } => {
            assert_eq!(media_batches.len(), 1);
            assert!(matches!(media_batches[0][0], MediaItemPayload::Photo { .. }));
        }
        other => panic!("{other:?}"),
    }
    assert_eq!(two.source_url().as_deref(), Some("u"));
    assert_eq!(two.chat_id(), Some(1));
    assert_eq!(two.notify_target(), (Some(1), Some(2)));
    assert_eq!(forward_task().source_url(), None);
    assert_eq!(two.local_media_paths(), vec!["p", "g"]);
    assert!(is_remote("https://p") && is_remote("http://p") && !is_remote("/tmp/p"));
}

#[test]
fn media_are_sent_from_where_they_are() {
    let present = vec!["/tmp/here.mp4".to_string()];
    assert!(matches!(
        input_file_for("https://P/1.jpg", &present),
        Ok(InputSource::Url(u)) if u == "https://p/1.jpg"
    ));
    assert!(matches!(
        input_file_for("/tmp/here.mp4", &present),
        Ok(InputSource::File(p)) if p == "/tmp/here.mp4"
    ));
    assert_eq!(
        input_file_for("/tmp/gone.mp4", &present).unwrap_err(),
        "local media file missing: /tmp/gone.mp4"
    );
    assert!(parse_media_url("https://").is_err());
    let by_id = MediaItemPayload::Video {
        media: "AgAC".into(),
        has_spoiler: false,
        thumbnail: None,
        fallback_url: None,
        file_id: true,
    };
    assert!(matches!(input_file(&by_id, &present), Ok(InputSource::FileId(f)) if f == "AgAC"));
}

#[test]
fn only_the_first_medium_of_an_album_is_captioned() {
    let batch = vec![photo("https://p/1.jpg"), video("https://v/1.mp4")];
    let group = build_media_group(&batch, Some("cap"), &vec![]).unwrap();
    assert_eq!(group[0].caption.as_deref(), Some("cap"));
    assert_eq!(group[1].caption, None);
    assert_eq!(group[1].kind, CachedMediaKind::Video);
    let broken = vec![photo("https://p/1.jpg"), photo("/gone.jpg")];
    assert_eq!(
        build_media_group(&broken, Some("cap"), &vec![]).unwrap_err(),
        "local media file missing: /gone.jpg"
    );
}

#[test]
fn sniff_ext_detects_formats() {
    assert_eq!(sniff_ext(&[0xFF, 0xD8, 0xFF, 0xE0]), "jpg");
    assert_eq!(sniff_ext(b"\x89PNG\r\n\x1a\n"), "png");
    assert_eq!(sniff_ext(b"RIFF\x00\x00\x00\x00WEBPVP8 "), "webp");
    assert_eq!(sniff_ext(b"GIF89a"), "gif");
    assert_eq!(sniff_ext(b"\x00\x00\x00\x18ftypisom"), "mp4");
    assert_eq!(sniff_ext(b"something else"), "bin");
    assert_eq!(sniff_ext(b""), "bin");
}

// ---- errors ----

#[test]
fn retry_delay_seconds_bounds() {
    for attempts in 0..10 {
        let delay = retry_delay_ms(attempts);
        assert!(delay >= 1000, "attempts={attempts}: {delay}");
        assert!(delay <= 30_000, "attempts={attempts}: {delay}");
    }
    assert_eq!(jittered_delay(0, 500), 1500);
    assert_eq!(jittered_delay(3, 500), 8500);
    assert_eq!(jittered_delay(5, 500), 30_000);
    assert_eq!(jittered_delay(u32::MAX, 500), 30_000);
    for _ in 0..50 {
        let jitter = draw_jitter();
        assert!((JITTER_FROM_MS..JITTER_TO_MS).contains(&jitter), "{jitter}");
    }
}

#[test]
fn is_media_fetch_failure_matches_markers() {
    for description in [
        "Bad Request: WEBPAGE_MEDIA_EMPTY",
        "Bad Request: media_empty",
        "Bad Request: EMPTY_WEB_MEDIA",
        "Bad Request: webpage_curl_failed",
        "Bad Request: request timeout",
        "Bad Request: PHOTO_INVALID_DIMENSIONS: width and height must be <= 10000",
    ] {
        assert!(is_media_fetch_failure(&api(description)), "{description}");
    }
    for description in [
        "Bad Request: message is not modified",
        "Forbidden: bot was blocked by the user",
    ] {
        assert!(!is_media_fetch_failure(&api(description)), "{description}");
    }
}

#[test]
fn is_size_error_matches_known_errors() {
    assert!(is_size_error(&ApiError {
        description: "Request Entity Too Large".into(),
        entity_too_large: true,
    }));
    for description in [
        "Bad Request: file is too large",
        "Bad Request: media is too big",
        "Bad Request: url file size is too big",
    ] {
        assert!(is_size_error(&api(description)), "{description}");
    }
    for description in [
        "Bad Request: WEBPAGE_MEDIA_EMPTY",
        "Bad Request: message is not modified",
    ] {
        assert!(!is_size_error(&api(description)), "{description}");
    }
}

#[test]
fn classification_mapping() {
    assert!(matches!(
        classify_request_error(&retry_after(7)),
        Classification::Retryable { delay_ms } if delay_ms == 7000
    ));
    assert!(matches!(
        classify_request_error(&api_error("Bad Request: something")),
        Classification::Permanent { .. }
    ));
    assert!(matches!(
        classify_request_error(&media_fetch_error()),
        Classification::MediaFetchFailure
    ));
    // A chat that moved.
    let e = RequestError { kind: RequestErrorKind::Other, text: "migrated".into() };
    assert!(matches!(
        classify_request_error(&e),
        Classification::Permanent { message } if message == "migrated"
    ));
    let e = RequestError { kind: RequestErrorKind::Network, text: "down".into() };
    assert!(matches!(classify_with(&e, 500), Classification::Retryable { delay_ms: 1500 }));
    assert!(needs_upload(&media_fetch_error()));
    assert!(needs_upload(&api_error("Bad Request: file is too large")));
    assert!(!needs_upload(&retry_after(7)));
}

// ---- uploads ----

fn with_fallback(url: &str) -> MediaItemPayload {
    MediaItemPayload::Photo {
        media: url.into(),
        has_spoiler: true,
        fallback_url: Some("https://p/small.jpg".into()),
        file_id: false,
    }
}

#[test]
fn a_photo_is_downloaded_processed_and_uploaded() {
    let item = with_fallback("https://p/1.jpg");
    let none = vec![];
    assert!(matches!(
        start_upload(&item, None, &none),
        UploadStep::AskSize { url } if url == "https://p/1.jpg"
    ));
    assert!(matches!(
        after_size(&item, Some(50_000_000), None, &none),
        UploadStep::Download { limit, .. } if limit == 32 * 1024 * 1024
    ));
    let bytes = DownloadOutcome::Fetched(vec![0xFF, 0xD8, 0xFF]);
    assert!(matches!(
        after_download(&item, &bytes, None, &none, 500),
        UploadStep::Store { ext } if ext == "jpg"
    ));
    let path = Ok("/tmp/a.jpg".to_string());
    assert!(matches!(after_store(&item, &path, None, &none), UploadStep::ProcessPhoto));
    assert!(matches!(
        after_photo(&item, Ok(PhotoPrep::Original), "/tmp/a.jpg", Some("cap"), &none),
        UploadStep::Ready { item } if item.spoiler && item.caption.as_deref() == Some("cap")
    ));
    assert!(matches!(
        after_photo(&item, Ok(PhotoPrep::Upload(vec![1], PhotoExt::Jpg)), "/tmp/a.jpg", None, &none),
        UploadStep::StoreProcessed { bytes, .. } if bytes == vec![1]
    ));
    let stored = Ok("/tmp/b.jpg".to_string());
    assert!(matches!(
        after_store_processed(&item, &stored, None, &none),
        UploadStep::Ready { item } if matches!(&item.source, InputSource::File(p) if p == "/tmp/b.jpg")
    ));
}

#[test]
fn what_cannot_be_uploaded_gives_way_to_its_smaller_variant() {
    let none = vec![];
    let item = with_fallback("https://p/1.jpg");
    for step in [
        after_download(&item, &DownloadOutcome::TooLarge, None, &none, 500),
        after_photo(&item, Ok(PhotoPrep::UseFallback), "/tmp/a.jpg", None, &none),
    ] {
        assert!(matches!(
            step,
            UploadStep::Ready { item } if matches!(&item.source, InputSource::Url(u) if u == "https://p/small.jpg")
        ));
    }
    let message = |step: UploadStep| match step {
        UploadStep::Fail { error: FallbackError::Permanent { message } } => message,
        other => panic!("{other:?}"),
    };
    let clip = video("https://v/1.mp4");
    assert!(MAX_MEDIA_UPLOAD_BYTES > MAX_UPLOAD_BYTES);
    assert_eq!(message(after_size(&clip, Some(52_428_801), None, &none)), "media too large");
    for size in [10_485_761, 52_428_800] {
        assert!(matches!(
            after_size(&clip, Some(size), None, &none),
            UploadStep::Download { limit: 52_428_801, .. }
        ));
    }
    assert!(matches!(after_size(&clip, None, None, &none), UploadStep::Download { .. }));
    assert_eq!(
        message(after_photo(&photo("https://p"), Ok(PhotoPrep::UseFallback), "/a", None, &none)),
        "photo dimensions exceed Telegram limits and no smaller variant is available"
    );
    assert_eq!(
        message(after_download(&clip, &DownloadOutcome::Failed("403".into()), None, &none, 500)),
        "download failed: 403"
    );
    assert_eq!(message(after_store(&clip, &Err("disk full".into()), None, &none)), "disk full");
    assert_eq!(
        message(after_store_processed(&clip, &Err("disk full".into()), None, &none)),
        "disk full"
    );
    assert_eq!(message(after_photo(&item, Err("bad png".into()), "/a", None, &none)), "bad png");
    assert!(matches!(
        after_download(&clip, &DownloadOutcome::Http, None, &none, 500),
        UploadStep::Fail { error: FallbackError::Retryable { delay_ms: 1500 } }
    ));
    // A local file is uploaded as it is.
    assert!(matches!(
        start_upload(&video("/tmp/v.mp4"), None, &none),
        UploadStep::Ready { .. }
    ));
}

// ---- sequences ----

#[test]
fn media_group_fetch_failure_falls_back_then_permanent() {
    let file = "/tmp/media.jpg".to_string();
    let run = SequenceRun::start(sequence_task(&file));
    assert!(matches!(run.next(&vec![file]), SequenceStep::SendGroup { .. }));
    assert!(matches!(run.on_failed(&media_fetch_error(), 500), FailedAlbum::Upload));
    assert!(matches!(
        run.on_upload_failed(UploadFailure::Request(media_fetch_error()), 500),
        SendError::Permanent { .. }
    ));
}

#[test]
fn media_group_retry_after_classifies_retryable_without_fallback() {
    let run = SequenceRun::start(sequence_task("/tmp/media.jpg"));
    match run.on_failed(&retry_after(7), 500) {
        FailedAlbum::Fail { error: SendError::Retryable { delay_ms, .. } } => {
            assert_eq!(delay_ms, 7000)
        }
        other => panic!("expected Retryable, got {other:?}"),
    }
}

#[test]
fn animation_fetch_failure_falls_back_then_permanent() {
    let file = "/tmp/gif.mp4".to_string();
    let task = animation_task(&file);
    assert!(matches!(start_animation(&task, &vec![file]), AnimationStep::Send { .. }));
    assert!(matches!(
        after_animation(&task, Err(media_fetch_error()), 500),
        AnimationStep::PrepareUpload
    ));
    assert!(matches!(
        after_animation_upload(&task, Err(media_fetch_error()), 500),
        AnimationStep::Fail { error: SendError::Permanent { .. } }
    ));
}

#[test]
fn animations_are_sent_once() {
    let mut task = animation_task("https://g/1.mp4");
    if let Task::SendAnimation { cache_data, .. } = &mut task {
        *cache_data = Some(raw_post());
    }
    match after_animation(&task, Ok(sent(8, "f")), 500) {
        AnimationStep::Done { ids, cache } => {
            assert_eq!(ids, vec![8]);
            let media = cache.unwrap().media;
            assert_eq!(media.len(), 1);
            assert_eq!(media[0].file_id, "a-f");
            assert_eq!(media[0].url, "https://g/1.mp4");
        }
        other => panic!("{other:?}"),
    }
    assert!(matches!(
        after_animation(&task, Err(retry_after(7)), 500),
        AnimationStep::Fail { error: SendError::Retryable { delay_ms: 7000, .. } }
    ));
    assert!(matches!(
        after_prepare(&task, Err(FallbackError::Retryable { delay_ms: 5 })),
        AnimationStep::Fail { error: SendError::Retryable { delay_ms: 5, .. } }
    ));
    assert!(matches!(
        start_animation(&animation_task("/gone.mp4"), &vec![]),
        AnimationStep::Fail { error: SendError::Permanent { .. } }
    ));
}

#[test]
fn media_group_success_and_forward_ok() {
    let file = "/tmp/media.jpg".to_string();
    let mut run = SequenceRun::start(sequence_task(&file));
    run.on_sent(&vec![]);
    assert!(matches!(run.next(&vec![file]), SequenceStep::Done));
    assert_eq!(run.finish().0, Vec::<i64>::new());
    assert!(forward_messages(&forward_task(), Ok(()), 500).is_ok());
}

#[test]
fn a_sequence_resumes_where_it_stopped() {
    let batches = vec![vec![photo("https://p/1.jpg")], vec![photo("https://p/2.jpg")]];
    let mut task = sequence_of(batches);
    if let Task::SendMediaSequence { cache_data, .. } = &mut task {
        *cache_data = Some(raw_post());
    }
    let mut run = SequenceRun::start(task);
    assert_eq!(run.upload_caption(0).as_deref(), Some("cap"));
    assert_eq!(run.upload_caption(1), None);
    match run.next(&vec![]) {
        SequenceStep::SendGroup { items } => {
            assert_eq!(items[0].caption.as_deref(), Some("cap"))
        }
        other => panic!("{other:?}"),
    }
    run.on_sent(&vec![sent(11, "f1")]);
    let task = match run.on_failed(&retry_after(7), 500) {
        FailedAlbum::Fail { error: SendError::Retryable { task, .. } } => task,
        other => panic!("{other:?}"),
    };
    match &task {
        Task::SendMediaSequence { batch_index, sent_message_ids, .. } => {
            assert_eq!(*batch_index, 1);
            assert_eq!(sent_message_ids, &vec![11]);
        }
        other => panic!("{other:?}"),
    }
    let mut resumed = SequenceRun::start(task);
    match resumed.next(&vec![]) {
        SequenceStep::SendGroup { items } => {
            assert_eq!(items[0].caption, None, "the caption went out with the first album");
            assert!(matches!(&items[0].source, InputSource::Url(u) if u == "https://p/2.jpg"));
        }
        other => panic!("{other:?}"),
    }
    resumed.on_sent(&vec![sent(12, "f2")]);
    let (ids, cache) = resumed.finish();
    assert_eq!(ids, vec![11, 12]);
    assert!(cache.is_none(), "a resumed send does not know every file id");
}

#[test]
fn a_fresh_send_is_cached_with_its_file_ids() {
    let mut task = sequence_of(vec![vec![photo("https://p/1.jpg"), video("/tmp/v.mp4")]]);
    if let Task::SendMediaSequence { cache_data, .. } = &mut task {
        *cache_data = Some(raw_post());
    }
    let mut run = SequenceRun::start(task);
    run.on_sent(&vec![sent(11, "f1"), sent(12, "f2")]);
    let (ids, cache) = run.finish();
    assert_eq!(ids, vec![11, 12]);
    let media = cache.unwrap().media;
    assert_eq!((media[0].file_id.as_str(), media[0].url.as_str()), ("f1", "https://p/1.jpg"));
    assert_eq!((media[1].file_id.as_str(), media[1].url.as_str()), ("v-f2", ""));
}

#[test]
fn file_ids_are_paired_with_their_media() {
    let mut out: Vec<CachedMedia> = vec![];
    let mut nameless = sent(2, "x");
    nameless.video_file_id = None;
    collect_file_ids(
        &vec![sent(1, "f1"), nameless, sent(3, "f3")],
        &vec![photo("https://p/1.jpg"), video("https://v/1.mp4")],
        &mut out,
    );
    assert_eq!(out.len(), 1);
    assert_eq!(out[0].file_id, "f1");
    assert!(cache_sent_task(&sequence_task("https://p"), out).is_none());
}

#[test]
fn forward_classifies_retry_after_and_permanent() {
    let task = forward_task();
    match forward_messages(&task, Err(retry_after(7)), 500) {
        Err(SendError::Retryable { delay_ms, .. }) => assert_eq!(delay_ms, 7000),
        other => panic!("expected Retryable, got {other:?}"),
    }
    assert!(matches!(
        forward_messages(&task, Err(api_error("Bad Request: message is not modified")), 500),
        Err(SendError::Permanent { .. })
    ));
}

#[test]
fn cache_hit_sends_file_ids_and_degrades_on_permanent_failure() {
    let mut post = raw_post();
    post.media = vec![CachedMedia {
        kind: CachedMediaKind::Photo,
        file_id: "AgAC-file-id".into(),
        url: "https://pbs.twimg.com/media/photo.jpg".into(),
    }];
    let mut cache = LinkCache::new();
    cache.put("twitter:1", post.duplicate(), 0);
    let mut task = sequence_task("AgAC-file-id");
    if let Task::SendMediaSequence { cache_data, .. } = &mut task {
        *cache_data = Some(post);
    }
    assert!(invalidates_cache(&task));
    invalidate_cache_with(&mut cache, "twitter:1", 0);
    let entry = cache
        .get("twitter:1", 3_600_000, 0)
        .expect("a stale file id must not cost the whole entry");
    assert!(entry.media[0].file_id.is_empty());
    assert_eq!(entry.media[0].url, "https://pbs.twimg.com/media/photo.jpg");
    assert!(!invalidates_cache(&sequence_task("https://p")));
    invalidate_cache_with(&mut cache, "pixiv:9", 0);
    assert!(cache.get("pixiv:9", 3_600_000, 0).is_none());
}

// ---- after a send ----

fn settled(edit: bool, channel: Option<i64>) -> Task {
    let mut task = sequence_task("https://p");
    if let Task::SendMediaSequence { edit_before_forward, forward_channel_id, .. } = &mut task {
        *edit_before_forward = edit;
        *forward_channel_id = channel;
    }
    task
}

#[test]
fn a_send_is_followed_by_a_prompt_or_a_copy() {
    let chat = ChatData::default();
    let follow = |task: &Task| post_send_actions(task, &vec![5, 6], &chat.template, 86_400);
    assert!(matches!(follow(&settled(false, None)), PostSendStep::Nothing));
    match follow(&settled(true, Some(9))) {
        PostSendStep::Prompt { chat_id, reply_to, text, keyboard } => {
            assert_eq!((chat_id, reply_to), (1, 2));
            assert_eq!(text, "Reply to edit message. Expires in 24 h.");
            assert_eq!(keyboard.len(), 2);
        }
        other => panic!("{other:?}"),
    }
    match follow(&settled(false, Some(9))) {
        PostSendStep::Forward(Task::ForwardMessages {
            from_chat_id,
            to_chat_id,
            message_ids,
            notify_chat_id,
            ..
        }) => {
            assert_eq!((from_chat_id, to_chat_id), (1, 9));
            assert_eq!(message_ids, vec![5, 6]);
            assert_eq!(notify_chat_id, Some(1));
        }
        other => panic!("{other:?}"),
    }
    assert!(matches!(follow(&forward_task()), PostSendStep::Nothing));
}

#[test]
fn a_failed_copy_is_queued_or_told() {
    assert!(matches!(after_forward(Ok(()), Some(1), None, None), ForwardStep::Done));
    let again = Err(SendError::Retryable { delay_ms: 7, task: forward_task() });
    assert!(matches!(
        after_forward(again, Some(1), None, None),
        ForwardStep::Enqueue { delay_ms: 7, .. }
    ));
    let failed = || Err(SendError::Permanent { message: "no".into(), task: forward_task() });
    match after_forward(failed(), Some(1), Some(2), Some("twitter:1")) {
        ForwardStep::Notify(n) => {
            assert_eq!((n.chat_id, n.reply_to), (1, Some(2)));
            assert_eq!(n.text, "Task failed after retries for twitter:1: no");
        }
        other => panic!("{other:?}"),
    }
    assert!(matches!(after_forward(failed(), None, Some(2), None), ForwardStep::Done));
}

#[test]
fn queued_tasks_settle() {
    let task = sequence_task("https://p");
    assert!(matches!(
        handle_task(&task, Ok(vec![5])),
        TaskStep::Done { post_send: Some(ids) } if ids == vec![5]
    ));
    assert!(matches!(
        handle_task(&forward_task(), Ok(vec![])),
        TaskStep::Done { post_send: None }
    ));
    let again = Err(SendError::Retryable { delay_ms: 7, task: sequence_task("https://p") });
    assert!(matches!(handle_task(&task, again), TaskStep::Retry { delay_ms: 7, .. }));
    let failed = Err(SendError::Permanent { message: "no".into(), task: sequence_task("u") });
    assert!(matches!(
        handle_task(&task, failed),
        TaskStep::Fail { invalidate: false, message, .. } if message == "no"
    ));
}

#[test]
fn dead_letter_releases_keep_alive_temp_media() {
    let task = sequence_task("/tmp/xmedia-a/ugoira.mp4");
    let dirs = vec!["/tmp/xmedia-a".to_string(), "/tmp/xmedia".to_string(), "/tmp/b".to_string()];
    assert_eq!(release_keep_alive(&dirs, &task), vec![true, false, false]);
    assert_eq!(release_keep_alive(&dirs, &sequence_task("https://p")), vec![false; 3]);
    // Paths are compared by their components.
    let dirs = ["/tmp/xmedia-a/", "/tmp//xmedia-a", "/tmp/./xmedia-a", "tmp/xmedia-a", "/tmp/x"];
    let dirs: Vec<String> = dirs.iter().map(|d| d.to_string()).collect();
    assert_eq!(release_keep_alive(&dirs, &task), vec![true, true, true, false, false]);
}

#[test]
fn dead_letters_reach_whoever_asked() {
    let payload = "{\"notify_chat_id\": 5, \"notify_message_id\": 6}";
    let notice = dead_letter_notify(payload, Some("twitter:1"), "boom").unwrap();
    assert_eq!((notice.chat_id, notice.reply_to), (5, Some(6)));
    assert_eq!(notice.text, "Task failed after retries for twitter:1: boom");
    let notice = dead_letter_notify("{\"notify_chat_id\": 5}", None, "boom").unwrap();
    assert_eq!(notice.reply_to, None);
    assert_eq!(notice.text, failure_text(None, "boom"));
    assert_eq!(notice.text, "Task failed after retries: boom");
    assert!(dead_letter_notify("{\"notify_chat_id\": \"5\"}", None, "boom").is_none());
    assert!(dead_letter_notify("null", None, "boom").is_none());
    assert!(notify_failure(None, Some(6), "x").is_none());
}
