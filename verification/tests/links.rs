use xmedia_bot::caption::quote_long_caption;
use xmedia_bot::handlers::inline::{
    answer_inline_query, cached_inline_results, cached_result, inline_query_handler, url_result,
    DebounceStates, InlineResult, InlineSource, InlineStep, INLINE_STATE_TTL_MS,
};
use xmedia_bot::handlers::message::{
    handle_message, log_escape, prompt_answered, ChatKind, MessageStep,
};
use xmedia_bot::handlers::repair::{
    after_refetch, apply_refresh, needs_refetch, refetch, repair_lost_local_media, Refetched,
    RepairStep,
};
use xmedia_bot::handlers::shared::{InFlight, Role};
use xmedia_bot::handlers::urls::{
    build_send_task, cached_media_payload, dedupe_urls, dispatch_send, extract_urls, retry_reply,
    rounded_seconds, send_cached, supported_urls, url_media, url_of, ActionHint, DispatchStep,
    Entity, EntityKind, PostLink, PostSend, Target, UrlStep,
};
use xmedia_bot::link_cache::{CachedMedia, CachedMediaKind, CachedPost};
use xmedia_bot::send::classify::SendError;
use xmedia_bot::send::task::{MediaItemPayload, Task};
use xmedia_bot::site::{
    cached_snapshot, fetch_error_message, media_to_payload, site_title, thumbnail_for, FetchError,
    Fetched, Media, RenderFields,
};
use xmedia_bot::state::ChatData;
use xmedia_bot::upkeep::{sweeps, ORPHAN_TEMP_AGE_MS};

const URL_A: &str = "https://x.com/a/status/1";
const URL_B: &str = "https://x.com/b/status/2";

fn cached_photo() -> CachedPost {
    CachedPost {
        url: "https://x.com/u/status/1".into(),
        caption: "cap".into(),
        title: "t".into(),
        content: "c".into(),
        author: "a".into(),
        author_url: "au".into(),
        tags: String::new(),
        sensitive: false,
        media: vec![CachedMedia {
            kind: CachedMediaKind::Photo,
            file_id: "AgAC-file-id".into(),
            url: "https://pbs.twimg.com/media/photo.jpg".into(),
        }],
    }
}

fn photo_item(media: &str, has_spoiler: bool, file_id: bool) -> MediaItemPayload {
    MediaItemPayload::Photo { media: media.into(), has_spoiler, fallback_url: None, file_id }
}

fn link(url: &str, key: Option<&str>) -> PostLink {
    PostLink { url: url.to_string(), key: key.map(|k| k.to_string()) }
}

fn target(post_send: PostSend) -> Target {
    Target { chat_id: 1, reply_to: 2, post_send }
}

fn fetched(media: Vec<Media>) -> Fetched {
    Fetched {
        site_id: "twitter".into(),
        source_url: "https://x.com/u/status/1".into(),
        title: "t".into(),
        content: "c".into(),
        caption: "cap".into(),
        sensitive: true,
        media,
        fields: Some(RenderFields {
            author: "a".into(),
            author_url: "au".into(),
            title: "et".into(),
            content: "ec".into(),
            tags: "#t".into(),
        }),
    }
}

fn illustration(url: &str, smaller: Option<&str>) -> Media {
    Media::Illustration {
        url: url.to_string(),
        thumbnail_url: None,
        fallback_url: smaller.map(|s| s.to_string()),
    }
}

// ---- links ----

#[test]
fn only_url_carrying_entities_yield_a_link() {
    let post = "https://x.com/u/status/1";
    assert_eq!(url_of(&EntityKind::Url, post), Some(post.to_string()));
    assert_eq!(
        url_of(&EntityKind::TextLink(post.to_string()), "the post"),
        Some(post.to_string())
    );
    assert_eq!(url_of(&EntityKind::Other, "#nope"), None);
    assert_eq!(
        url_of(&EntityKind::Url, "https://example.com/x"),
        Some("https://example.com/x".to_string())
    );
    let entities = vec![
        Entity { kind: EntityKind::Url, text: post.into(), key: Some("twitter:1".into()) },
        Entity { kind: EntityKind::Other, text: "#tag".into(), key: None },
        Entity { kind: EntityKind::TextLink("https://e/".into()), text: "words".into(), key: None },
        Entity {
            kind: EntityKind::TextLink("https://e/mirror".into()),
            text: "again".into(),
            key: Some("twitter:1".into()),
        },
        Entity { kind: EntityKind::Url, text: "https://e/".into(), key: None },
    ];
    assert_eq!(extract_urls(&entities), vec![post, "https://e/"]);
}

#[test]
fn dedupe_by_post_and_by_exact_text() {
    assert_eq!(
        dedupe_urls(&vec![
            link("https://x.com/u/status/1", Some("twitter:1")),
            link("https://x.com/u/status/1/photo/1", Some("twitter:1")),
            link("https://x.com/u/status/1", Some("twitter:1")),
        ]),
        vec!["https://x.com/u/status/1"]
    );
    assert_eq!(
        dedupe_urls(&vec![
            link("https://x.com/a/status/1", Some("twitter:1")),
            link("https://x.com/b/status/2", Some("twitter:2")),
        ]),
        vec!["https://x.com/a/status/1", "https://x.com/b/status/2"]
    );
    assert_eq!(
        dedupe_urls(&vec![
            link("https://example.com/a", None),
            link("https://example.com/a", None),
            link("https://example.com/b", None),
        ]),
        vec!["https://example.com/a", "https://example.com/b"]
    );
    assert!(dedupe_urls(&vec![]).is_empty());
    assert_eq!(
        supported_urls(&vec![
            link("https://example.com/a", None),
            link("https://x.com/a/status/1", Some("twitter:1")),
            link("https://x.com/a/status/1", Some("twitter:1")),
        ]),
        vec!["https://x.com/a/status/1"]
    );
}

#[test]
fn messages_go_where_they_belong() {
    let links = vec![link(URL_A, Some("twitter:1")), link("https://example.com/x", None)];
    let none = vec![link("https://example.com/x", None)];
    match handle_message(ChatKind::Private, Some(URL_A), &links) {
        MessageStep::Enqueue(urls) => assert_eq!(urls, vec![URL_A]),
        other => panic!("{other:?}"),
    }
    assert!(matches!(handle_message(ChatKind::Group, Some(URL_A), &links), MessageStep::Hint));
    assert!(matches!(handle_message(ChatKind::Channel, Some(URL_A), &links), MessageStep::Nothing));
    assert!(matches!(handle_message(ChatKind::Group, Some("x"), &none), MessageStep::Nothing));
    assert!(matches!(
        handle_message(ChatKind::Group, Some("/settings"), &links),
        MessageStep::Run(_)
    ));
    assert!(matches!(
        handle_message(ChatKind::Private, None, &none),
        MessageStep::Enqueue(urls) if urls.is_empty()
    ));
    // Only a private reply with words can answer a prompt.
    assert_eq!(prompt_answered(ChatKind::Private, Some(7), Some("x")), Some(7));
    assert_eq!(prompt_answered(ChatKind::Private, Some(7), None), None);
    assert_eq!(prompt_answered(ChatKind::Group, Some(7), Some("x")), None);
    assert_eq!(prompt_answered(ChatKind::Private, None, Some("x")), None);
}

#[test]
fn log_escape_cannot_forge_a_second_log_line() {
    let forged = log_escape("alice\nINFO injected entry");
    assert!(!forged.contains('\n'), "no raw newline may survive");
    assert!(forged.contains("\\n"), "the break stays visible as an escape");
    assert_eq!(log_escape("plain text"), "plain text");
    assert_eq!(log_escape("a\r\tb\u{1b}\u{7f}\u{9f}é"), "a\\r\tb\\u001b\\u007f\\u009fé");
}

// ---- sending a link ----

#[test]
fn cached_media_payload_prefers_the_file_id_over_the_url() {
    let with_id = CachedMedia {
        kind: CachedMediaKind::Photo,
        file_id: "AgAC".into(),
        url: "https://p/1.jpg".into(),
    };
    match cached_media_payload(&with_id, true) {
        MediaItemPayload::Photo { media, has_spoiler, file_id, .. } => {
            assert_eq!(media, "AgAC");
            assert!(file_id, "a cached send must go by file id");
            assert!(has_spoiler);
        }
        _ => panic!("expected a photo payload"),
    }
    let degraded = CachedMedia {
        kind: CachedMediaKind::Video,
        file_id: String::new(),
        url: "https://v/1.mp4".into(),
    };
    match cached_media_payload(&degraded, false) {
        MediaItemPayload::Video { media, file_id, fallback_url, .. } => {
            assert_eq!(media, "https://v/1.mp4");
            assert!(!file_id, "a degraded send must go by URL");
            assert!(fallback_url.is_none());
        }
        _ => panic!("expected a video payload"),
    }
}

#[test]
fn send_mode_decides_whether_chat_actions_ride_along() {
    let mut chat = ChatData::default();
    chat.forward_channel_id = Some(2);
    chat.edit_before_forward = true;
    let build = |post_send: PostSend| {
        build_send_task(
            &chat,
            1,
            2,
            "https://x.com/u/status/1".into(),
            "cap".into(),
            vec![],
            None,
            post_send,
        )
    };
    let Task::SendMediaSequence { edit_before_forward, forward_channel_id, .. } =
        build(PostSend::FromChat)
    else {
        panic!("expected a media sequence task");
    };
    assert!(edit_before_forward);
    assert_eq!(forward_channel_id, Some(2));
    let Task::SendMediaSequence {
        edit_before_forward, forward_channel_id, notify_chat_id, ..
    } = build(PostSend::Suppressed)
    else {
        panic!("expected a media sequence task");
    };
    assert!(!edit_before_forward, "`/test` must not open an edit prompt");
    assert_eq!(forward_channel_id, None, "`/test` must not forward");
    assert_eq!(notify_chat_id, Some(1));
}

#[test]
fn action_hint_follows_the_media_kind() {
    let photo = || photo_item("https://p/1.jpg", false, false);
    let video = || MediaItemPayload::Video {
        media: "https://v/1.mp4".into(),
        has_spoiler: false,
        thumbnail: None,
        fallback_url: None,
        file_id: false,
    };
    assert_eq!(ActionHint::for_items(&vec![photo()]), ActionHint::Photo);
    assert_eq!(
        ActionHint::for_items(&vec![
            video(),
            MediaItemPayload::Animation {
                media: "https://v/2.mp4".into(),
                has_spoiler: false,
                file_id: false,
            }
        ]),
        ActionHint::Video
    );
    assert_eq!(ActionHint::for_items(&vec![video(), photo()]), ActionHint::Photo);
}

#[test]
fn cache_hit_quotes_a_long_text_caption() {
    let prefix = "https://x.com/u/status/1\n<a href=\"au\">a</a>: ";
    for (text, expected) in [
        ("abc", format!("{prefix}<blockquote expandable>abc</blockquote>")),
        ("ab", format!("{prefix}ab")),
    ] {
        let rendered = format!("{prefix}{text}");
        let step = send_cached(
            &ChatData::default(),
            target(PostSend::FromChat),
            cached_photo(),
            &rendered,
            text,
            3,
        );
        match step {
            UrlStep::Send { task: Task::SendMediaSequence { caption, .. }, hint } => {
                assert_eq!(caption, expected, "text {text:?}");
                assert_eq!(hint, ActionHint::Photo);
            }
            other => panic!("{other:?}"),
        }
    }
}

#[test]
fn quoting_finds_the_text_or_what_is_left_of_it() {
    let q = |s: &str| format!("<blockquote expandable>{s}</blockquote>");
    assert_eq!(quote_long_caption("a: long b", "long", 4), format!("a: {} b", q("long")));
    assert_eq!(quote_long_caption("long long", "long", 4), format!("{} long", q("long")));
    assert_eq!(quote_long_caption("a: long", "long", 5), "a: long");
    assert_eq!(quote_long_caption("a: long", "long", 0), "a: long");
    assert_eq!(quote_long_caption("a: lo…", "long", 4), format!("a: {}", q("lo…")));
    assert_eq!(quote_long_caption("a: xx…", "long", 4), "a: xx…");
    assert_eq!(quote_long_caption("…", "long", 4), "…");
    let nested = "<blockquote>long</blockquote>";
    assert_eq!(quote_long_caption(nested, "long", 4), nested);
    let once = quote_long_caption("a: long b", "long", 4);
    assert_eq!(quote_long_caption(&once, "long", 4), once);
}

#[test]
fn cache_hits_send_file_ids() {
    let step = send_cached(
        &ChatData::default(),
        target(PostSend::FromChat),
        cached_photo(),
        "cap",
        "t",
        0,
    );
    match step {
        UrlStep::Send {
            task: Task::SendMediaSequence { media_batches, source_url, cache_data, .. },
            ..
        } => {
            assert!(matches!(
                &media_batches[0][0],
                MediaItemPayload::Photo { media, file_id: true, .. } if media == "AgAC-file-id"
            ));
            assert_eq!(source_url, "https://x.com/u/status/1");
            assert_eq!(cache_data.unwrap().media.len(), 1);
        }
        other => panic!("{other:?}"),
    }
}

#[test]
fn a_lone_cached_animation_is_sent_by_itself() {
    let mut post = cached_photo();
    post.media[0].kind = CachedMediaKind::Animation;
    let step =
        send_cached(&ChatData::default(), target(PostSend::FromChat), post, "cap", "t", 0);
    assert!(matches!(
        step,
        UrlStep::Send { task: Task::SendAnimation { .. }, hint: ActionHint::Video }
    ));
}

#[test]
fn a_lone_fetched_gif_takes_the_animation_path() {
    let gif = |url: &str| Media::Animated { url: url.into(), thumbnail_url: None };
    let chat = ChatData::default();
    let to = target(PostSend::FromChat);
    let lone = Ok(Some(fetched(vec![gif("https://g/1.mp4")])));
    match url_media(&chat, to, &lone, "cap", "", 200) {
        UrlStep::Send { task: Task::SendAnimation { animation, .. }, .. } => assert!(matches!(
            animation,
            MediaItemPayload::Animation { media, file_id: false, .. } if media == "https://g/1.mp4"
        )),
        other => panic!("{other:?}"),
    }
    let two = Ok(Some(fetched(vec![gif("https://g/1.mp4"), gif("https://g/2.mp4")])));
    match url_media(&chat, to, &two, "cap", "", 200) {
        UrlStep::Send { task: Task::SendMediaSequence { media_batches, .. }, .. } => {
            assert!(matches!(&media_batches[0][1], MediaItemPayload::Video { .. }))
        }
        other => panic!("{other:?}"),
    }
}

#[test]
fn unsupported_url_is_ignored_silently() {
    let step = url_media(
        &ChatData::default(),
        target(PostSend::FromChat),
        &Ok(None),
        "",
        "",
        200,
    );
    assert!(matches!(step, UrlStep::Ignore));
}

#[test]
fn fetched_posts_are_sent_or_explained() {
    let chat = ChatData::default();
    let to = target(PostSend::FromChat);
    let empty = Ok(Some(fetched(vec![])));
    assert!(matches!(
        url_media(&chat, to, &empty, "cap", "", 200),
        UrlStep::Reply(t) if t == "No media found or media type is not supported."
    ));
    assert!(matches!(
        url_media(&chat, to, &Err(FetchError::NotFound), "", "", 200),
        UrlStep::Reply(t) if t == "Post not found (deleted, private or unavailable)."
    ));
    let post = Ok(Some(fetched(vec![
        Media::Video { url: "https://v/1.mp4".into(), thumbnail_url: Some("https://v/1.jpg".into()) },
        illustration("https://p/1.jpg", Some("https://p/1s.jpg")),
    ])));
    match url_media(&chat, to, &post, "rendered", "", 200) {
        UrlStep::Send {
            task: Task::SendMediaSequence { caption, media_batches, cache_data, .. },
            hint,
        } => {
            assert_eq!(caption, "rendered");
            assert_eq!(hint, ActionHint::Photo);
            assert!(matches!(
                &media_batches[0][0],
                MediaItemPayload::Photo { media, has_spoiler: true, fallback_url: Some(f), file_id: false }
                    if media == "https://p/1.jpg" && f == "https://p/1s.jpg"
            ));
            assert!(matches!(
                &media_batches[0][1],
                MediaItemPayload::Video { media, thumbnail: Some(t), .. }
                    if media == "https://v/1.mp4" && t == "https://v/1.jpg"
            ));
            let snapshot = cache_data.unwrap();
            assert_eq!((snapshot.title.as_str(), snapshot.tags.as_str()), ("et", "#t"));
            assert!(snapshot.media.is_empty());
        }
        other => panic!("{other:?}"),
    }
}

#[test]
fn posts_without_render_fields_are_not_cached() {
    let mut post = fetched(vec![]);
    assert!(cached_snapshot(&post).is_some());
    post.fields = None;
    assert!(cached_snapshot(&post).is_none());
}

#[test]
fn thumbnails_go_with_remote_media_only() {
    let video = |url: &str, thumb: Option<&str>| Media::Video {
        url: url.to_string(),
        thumbnail_url: thumb.map(|t| t.to_string()),
    };
    assert_eq!(
        thumbnail_for(&video("https://v/1.mp4", Some("https://t"))).as_deref(),
        Some("https://t")
    );
    assert_eq!(thumbnail_for(&video("https://v/1.mp4", Some(""))), None);
    assert_eq!(thumbnail_for(&video("/tmp/1.mp4", Some("https://t"))), None);
    assert_eq!(thumbnail_for(&video("http://v/1.mp4", None)), None);
    let gif = Media::Animated { url: "https://g/1.mp4".into(), thumbnail_url: None };
    assert!(matches!(media_to_payload(&gif, false), MediaItemPayload::Video { .. }));
}

#[test]
fn fetch_errors_map_to_distinct_user_messages() {
    let disabled = fetch_error_message(&FetchError::Disabled { site: "pixiv".into() });
    assert_eq!(disabled, "Pixiv support is disabled on this bot.");
    assert_eq!(
        fetch_error_message(&FetchError::NotFound),
        "Post not found (deleted, private or unavailable)."
    );
    let sensitive = fetch_error_message(&FetchError::Sensitive);
    assert!(sensitive.contains("TWITTER_AUTH_TOKEN"), "{sensitive}");
    let blocked = fetch_error_message(&FetchError::Blocked);
    assert!(blocked.contains("refused"), "{blocked}");
    assert_eq!(
        fetch_error_message(&FetchError::Transient),
        fetch_error_message(&FetchError::Http)
    );
    assert!(fetch_error_message(&FetchError::MediaPrep).starts_with("Could not prepare"));
    assert_eq!(
        fetch_error_message(&FetchError::Other),
        "Failed to fetch media from this link."
    );
    assert_eq!(site_title(""), "");
    assert_eq!(site_title("bsky"), "Bsky");
    assert_eq!(site_title("pixiv"), "Pixiv");
    assert_eq!(site_title("Pixiv"), "Pixiv");
    assert_eq!(site_title("3d zone"), "3d zone");
    assert_eq!(site_title("ßx"), "SSx");
}

fn some_task() -> Task {
    Task::ForwardMessages {
        from_chat_id: 1,
        to_chat_id: 2,
        message_ids: vec![3],
        notify_chat_id: Some(1),
        notify_message_id: Some(2),
    }
}

#[test]
fn sends_are_followed_by_their_outcome() {
    assert!(matches!(dispatch_send(Ok(vec![4, 5])), DispatchStep::Sent(ids) if ids == vec![4, 5]));
    assert!(matches!(
        dispatch_send(Err(SendError::Retryable { delay_ms: 7000, task: some_task() })),
        DispatchStep::Enqueue { delay_ms: 7000, .. }
    ));
    assert!(matches!(
        dispatch_send(Err(SendError::Permanent { message: "no".into(), task: some_task() })),
        DispatchStep::Failed { invalidate: false, reply, .. } if reply == "Send failed: no"
    ));
    assert_eq!(
        retry_reply(Some("twitter:1"), 7000, true),
        "Send failed for twitter:1 — retrying in 7s."
    );
    assert_eq!(
        retry_reply(None, 7000, false),
        "Send failed for <unsupported> and the retry could not be queued — please send the link again."
    );
}

#[test]
fn seconds_are_rounded_to_the_even_one() {
    for (ms, s) in [(0, 0), (499, 0), (500, 0), (501, 1), (1500, 2), (2500, 2), (2501, 3)] {
        assert_eq!(rounded_seconds(ms), s, "{ms}");
        assert_eq!(format!("{:.0}", ms as f64 / 1000.0), s.to_string(), "{ms}");
    }
}

#[test]
fn concurrent_callers_share_one_fetch() {
    let mut fetches = InFlight::default();
    assert_eq!(fetches.join("twitter:1"), Role::Fetch);
    assert_eq!(fetches.join("twitter:1"), Role::Wait);
    assert_eq!(fetches.join("twitter:2"), Role::Fetch);
    fetches.finish("twitter:1");
    assert_eq!(fetches.join("twitter:1"), Role::Fetch);
    assert_eq!(fetches.join("twitter:2"), Role::Wait);
}

// ---- repairs ----

fn queued_task(media: &str, batch_index: usize, sent: Vec<i64>) -> Task {
    Task::SendMediaSequence {
        chat_id: 1,
        reply_to_message_id: 2,
        caption: "cap".into(),
        media_batches: vec![vec![photo_item(media, false, false)]],
        batch_index,
        sent_message_ids: sent,
        source_url: "https://x.com/u/status/1".into(),
        edit_before_forward: true,
        forward_channel_id: Some(2),
        notify_chat_id: Some(1),
        notify_message_id: Some(2),
        cache_data: None,
    }
}

fn check_refetches() {
    let alive = "/tmp/here/ugoira.mp4";
    let present = vec![alive.to_string()];
    assert!(!needs_refetch(&queued_task("https://cdn/1.jpg", 0, vec![]), &present));
    assert!(!needs_refetch(&queued_task(alive, 0, vec![]), &present));
    assert!(needs_refetch(&queued_task("/nonexistent-ugoira.mp4", 0, vec![]), &present));
    assert!(!needs_refetch(&queued_task("/nonexistent-ugoira.mp4", 1, vec![7]), &present));
    assert!(!needs_refetch(&queued_task("/nonexistent-ugoira.mp4", 0, vec![7]), &present));
    assert!(!needs_refetch(
        &Task::ForwardMessages {
            from_chat_id: 1,
            to_chat_id: 2,
            message_ids: vec![3],
            notify_chat_id: None,
            notify_message_id: None,
        },
        &present
    ));
}

fn check_refresh() {
    let task = queued_task("/nonexistent-ugoira.mp4", 0, vec![]);
    let fresh = Refetched {
        caption: "fresh caption".into(),
        items: vec![photo_item("https://cdn/fresh.jpg", true, false)],
        cache_data: None,
    };
    match apply_refresh(&task, &fresh).expect("a repairable task") {
        Task::SendMediaSequence {
            chat_id,
            reply_to_message_id,
            caption,
            media_batches,
            batch_index,
            sent_message_ids,
            source_url,
            edit_before_forward,
            forward_channel_id,
            notify_chat_id,
            notify_message_id,
            ..
        } => {
            assert_eq!((chat_id, reply_to_message_id), (1, 2));
            assert!(edit_before_forward);
            assert_eq!(forward_channel_id, Some(2));
            assert_eq!((notify_chat_id, notify_message_id), (Some(1), Some(2)));
            assert_eq!(source_url, "https://x.com/u/status/1");
            assert_eq!(caption, "fresh caption");
            assert!(
                matches!(
                    &media_batches[0][0],
                    MediaItemPayload::Photo { media, .. } if media == "https://cdn/fresh.jpg"
                ),
                "fresh media must replace the lost local file"
            );
            assert!(matches!(
                media_batches[0][0],
                MediaItemPayload::Photo { has_spoiler: true, .. }
            ));
            assert_eq!((batch_index, sent_message_ids.len()), (0, 0));
        }
        other => panic!("expected a media sequence, got {other:?}"),
    }
}

#[test]
fn repair_only_tasks_missing_a_local_file_need_a_refetch() {
    check_refetches();
}

#[test]
fn urls_only_tasks_missing_a_local_file_need_a_refetch() {
    check_refetches();
}

#[test]
fn repair_apply_refresh_keeps_the_delivery_envelope() {
    check_refresh();
}

#[test]
fn urls_apply_refresh_keeps_the_delivery_envelope() {
    check_refresh();
}

#[test]
fn lost_media_are_fetched_again_or_explained() {
    let task = queued_task("/gone.mp4", 0, vec![]);
    assert_eq!(
        repair_lost_local_media(&task, &vec![]),
        Some(("https://x.com/u/status/1".to_string(), 1))
    );
    assert_eq!(repair_lost_local_media(&task, &vec!["/gone.mp4".to_string()]), None);
    let fresh = refetch(&fetched(vec![illustration("https://p/1.jpg", None)]), "new", "text", 200);
    assert!(matches!(
        after_refetch(&task, fresh, Some("twitter:1")),
        RepairStep::Rewrite(Task::SendMediaSequence { caption, .. }) if caption == "new"
    ));
    assert!(refetch(&fetched(vec![]), "new", "text", 200).is_none());
    let long = refetch(&fetched(vec![illustration("https://p/1.jpg", None)]), "a: long", "long", 4);
    assert_eq!(long.unwrap().caption, "a: <blockquote expandable>long</blockquote>");
    match after_refetch(&task, None, Some("twitter:1")) {
        RepairStep::Notify(notice) => {
            assert_eq!((notice.chat_id, notice.reply_to), (1, Some(2)));
            assert_eq!(
                notice.text,
                "twitter:1 — the media held for retry was lost when the bot restarted and the post could not be fetched again. Please send the link again."
            );
        }
        other => panic!("{other:?}"),
    }
    let copy = Task::ForwardMessages {
        from_chat_id: 1,
        to_chat_id: 2,
        message_ids: vec![3],
        notify_chat_id: None,
        notify_message_id: None,
    };
    assert!(matches!(after_refetch(&copy, None, None), RepairStep::Nothing));
    let fresh = refetch(&fetched(vec![illustration("https://p/1.jpg", None)]), "new", "text", 200);
    assert!(matches!(after_refetch(&copy, fresh, None), RepairStep::Nothing));
}

#[test]
fn sweep_removes_only_our_old_temp_entries() {
    let now = 1_700_000_000_000;
    let prefix = "xmedia-";
    let old = Some(now - 7_200_000);
    assert!(sweeps("xmedia-photo-old.jpg", prefix, old, now, ORPHAN_TEMP_AGE_MS));
    assert!(!sweeps("xmedia-photo-new.jpg", prefix, Some(now), now, ORPHAN_TEMP_AGE_MS));
    assert!(!sweeps("someone-elses-file", prefix, old, now, ORPHAN_TEMP_AGE_MS));
    assert!(!sweeps("xmedia-undated", prefix, None, now, ORPHAN_TEMP_AGE_MS));
    assert!(sweeps("xmedia-photo-new.jpg", prefix, Some(now - 1), now, 0));
    assert!(!sweeps("someone-elses-file", prefix, old, now, 0));
    // Exactly at the age it stays.
    assert!(!sweeps("xmedia-a", prefix, Some(now - 3_600_000), now, ORPHAN_TEMP_AGE_MS));
}

// ---- inline queries ----

fn shown(results: &Vec<InlineResult>) -> Vec<String> {
    results
        .iter()
        .map(|r| match r {
            InlineResult::Cached { kind, file, .. } => format!("cached {kind:?}:{file}"),
            InlineResult::Url { kind, url, .. } => format!("{kind:?}:{url}"),
        })
        .collect()
}

#[test]
fn a_cached_post_answers_from_its_file_ids() {
    let mut entry = cached_photo();
    entry.media = vec![
        CachedMedia {
            kind: CachedMediaKind::Photo,
            file_id: "AgAC-photo".into(),
            url: "https://i.pximg.net/img-original/img/1.jpg".into(),
        },
        CachedMedia {
            kind: CachedMediaKind::Animation,
            file_id: "AgAC-gif".into(),
            url: "https://i.pximg.net/img-original/img/1.gif".into(),
        },
    ];
    let source = InlineSource::Cached(entry);
    let results = answer_inline_query(&source, "cap", "t\nc", 200, &vec![true, true]);
    assert_eq!(
        shown(&results),
        vec!["cached Photo:AgAC-photo", "cached Animation:AgAC-gif"]
    );
}

#[test]
fn a_degraded_cached_post_answers_with_urls_or_empty() {
    let mut entry = cached_photo();
    entry.media = vec![
        CachedMedia {
            kind: CachedMediaKind::Photo,
            file_id: String::new(),
            url: "https://p/1.jpg".into(),
        },
        CachedMedia {
            kind: CachedMediaKind::Video,
            file_id: String::new(),
            url: "https://v/1.mp4".into(),
        },
    ];
    let source = InlineSource::Cached(entry);
    let results = answer_inline_query(&source, "cap", "", 0, &vec![false, false]);
    assert_eq!(shown(&results), vec!["Photo:https://p/1.jpg"]);

    let mut entry = cached_photo();
    entry.media[0].file_id = String::new();
    entry.media[0].url = "https://i.pximg.net/img-original/img/1.jpg".into();
    let source = InlineSource::Cached(entry);
    assert!(answer_inline_query(&source, "cap", "", 0, &vec![true]).is_empty());
    assert!(answer_inline_query(&InlineSource::Unknown, "", "", 0, &vec![]).is_empty());
    assert!(answer_inline_query(&InlineSource::Fetched(None), "", "", 0, &vec![]).is_empty());
}

#[test]
fn inline_results_are_capped_at_telegram_limit() {
    let mut entry = cached_photo();
    entry.media = (0..51)
        .map(|i| CachedMedia {
            kind: CachedMediaKind::Photo,
            file_id: format!("id-{i}"),
            url: format!("https://p/{i}.jpg"),
        })
        .collect();
    assert_eq!(cached_inline_results(&entry, "caption", &vec![false; 51]).len(), 50);
}

#[test]
fn fetched_posts_answer_with_urls_the_service_can_fetch() {
    let post = fetched(vec![
        illustration("HTTPS://P/1.jpg", Some("https://p/1s.jpg")),
        illustration("https://i.pximg.net/1.jpg", None),
        illustration("/tmp/local.mp4", None),
        Media::Video {
            url: "https://v/1.mp4".into(),
            thumbnail_url: Some("https://v/1.jpg".into()),
        },
        Media::Animated { url: "https://g/1.mp4".into(), thumbnail_url: Some("bad".into()) },
    ]);
    let source = InlineSource::Fetched(Some(post));
    let guarded = vec![false, true, false, false, false];
    let results = answer_inline_query(&source, "a: long", "long", 4, &guarded);
    assert_eq!(
        shown(&results),
        vec!["Photo:https://p/1s.jpg", "Video:https://v/1.mp4", "Animation:https://g/1.mp4"]
    );
    match &results[0] {
        InlineResult::Url { id, thumbnail, title, caption, .. } => {
            assert_eq!(id, "0");
            // The medium's own URL, as the parser writes it.
            assert_eq!(thumbnail, "https://p/1.jpg");
            assert_eq!(title, "t");
            assert_eq!(caption, "a: <blockquote expandable>long</blockquote>");
        }
        other => panic!("{other:?}"),
    }
    match (&results[1], &results[2]) {
        (InlineResult::Url { id, thumbnail, .. }, InlineResult::Url { thumbnail: own, .. }) => {
            assert_eq!(id, "3");
            assert_eq!(thumbnail, "https://v/1.jpg");
            assert_eq!(own, "https://g/1.mp4");
        }
        other => panic!("{other:?}"),
    }
}

#[test]
fn single_results_follow_what_was_parsed() {
    let media = CachedMedia {
        kind: CachedMediaKind::Photo,
        file_id: String::new(),
        url: "https://p/1.jpg".into(),
    };
    assert!(cached_result(0, &media, "t", "c", false, Err("bad".into())).is_none());
    assert!(cached_result(0, &media, "t", "c", false, Ok("https://p".into())).is_some());
    let kind = CachedMediaKind::Photo;
    assert!(url_result(0, kind, "t", "c", true, Ok("u".into()), None, None).is_none());
    assert!(url_result(0, kind, "t", "c", false, Err("bad".into()), None, None).is_none());
    match url_result(
        3,
        kind,
        "t",
        "c",
        false,
        Ok("u".into()),
        Some(Ok("th".into())),
        Some(Err("bad".into())),
    ) {
        Some(InlineResult::Url { id, url, thumbnail, .. }) => {
            assert_eq!((id.as_str(), url.as_str(), thumbnail.as_str()), ("3", "u", "th"))
        }
        other => panic!("{other:?}"),
    }
}

#[test]
fn debounce_state_is_per_user() {
    let mut states = DebounceStates::default();
    assert!(states.note(1, URL_A, 0).0);
    assert!(states.note(2, URL_B, 0).0);
    let (_, generation_a) = states.note(1, URL_A, 0);
    let (_, generation_b) = states.note(2, URL_B, 0);
    assert!(states.claim(1, URL_A, generation_a, 0));
    assert!(states.claim(2, URL_B, generation_b, 0));
}

#[test]
fn answered_query_is_suppressed_per_user_only() {
    let mut states = DebounceStates::default();
    assert!(states.note(1, URL_A, 0).0);
    let (_, generation) = states.note(1, URL_A, 0);
    assert!(states.claim(1, URL_A, generation, 0));
    assert!(!states.note(1, URL_A, 0).0);
    assert!(states.note(2, URL_A, 0).0);
    let (_, generation) = states.note(2, URL_A, 0);
    assert!(states.claim(2, URL_A, generation, 0));
}

#[test]
fn idle_states_are_pruned_and_live_ones_kept() {
    let mut states = DebounceStates::default();
    assert!(states.note(1, URL_A, 1000).0);
    assert!(states.note(2, URL_B, 1002).0);
    assert_eq!(states.prune_idle_at(1000 + INLINE_STATE_TTL_MS, INLINE_STATE_TTL_MS), 1);
    assert!(!states.entries.contains_key(&1));
    assert!(states.entries.contains_key(&2));
    assert!(states.note(1, URL_A, 1003).0);
    // A clock that went back makes nothing idle.
    assert_eq!(states.prune_idle_at(0, 1), 0);
}

#[test]
fn newer_query_supersedes_and_failed_answer_is_released() {
    let mut states = DebounceStates::default();
    assert!(states.note(1, URL_A, 0).0);
    let (_, generation_a) = states.note(1, URL_B, 0);
    assert!(!states.claim(1, URL_A, generation_a, 0));
    let (_, generation_b) = states.note(1, URL_B, 0);
    assert!(states.claim(1, URL_B, generation_b, 0));
    states.release(1, URL_B, generation_b, 0);
    assert!(states.claim(1, URL_B, generation_b, 0));
    assert!(!states.claim(1, URL_B, generation_b, 0));
    assert!(!states.claim(9, URL_B, generation_b, 0));
}

#[test]
fn queries_wait_until_they_stand() {
    let mut states = DebounceStates::default();
    assert_eq!(inline_query_handler(&mut states, "", Some("k"), 1, 0), InlineStep::AnswerNow);
    assert_eq!(inline_query_handler(&mut states, "words", None, 1, 0), InlineStep::AnswerNow);
    let step = inline_query_handler(&mut states, URL_A, Some("twitter:1"), 1, 0);
    assert_eq!(step, InlineStep::Wait { generation: 1 });
    assert!(states.claim(1, URL_A, 1, 800));
    assert_eq!(
        inline_query_handler(&mut states, URL_A, Some("twitter:1"), 1, 900),
        InlineStep::Suppressed
    );
    states.generation = u64::MAX;
    assert_eq!(
        inline_query_handler(&mut states, URL_B, Some("twitter:2"), 1, 900),
        InlineStep::Wait { generation: 0 }
    );
}
