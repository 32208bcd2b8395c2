use xmedia_bot::config::{
    parse_admin_ids, Config, ConfigVars, DEFAULT_CAPTION_QUOTE_TEXT_CHARS, DEFAULT_LINK_CACHE_TTL,
};
use xmedia_bot::db::{
    due_migrations, now_ms, read_clock, unix_now, version_statement, whole_seconds, ADD_LEASE_TOKEN,
};
use xmedia_bot::link_cache::{CacheEntry, CachedMedia, CachedMediaKind, CachedPost, LinkCache};
use xmedia_bot::queue::{
    after_write, check_payload, idle_wait, log_key, reject, row_chat, row_fields, row_line,
    row_source_url, lease_token, scaled_retry_delay, settle, task_id, terminal_write_backoff,
    PersistentTaskQueue, QueueError, Settlement, TaskRow, TaskStatus, WriteStep, LOCK_TTL_MS,
    MAX_RETRIES,
};
use xmedia_bot::rate_limit::{
    acquire_global, global_bucket, limiter_for, prune_idle, Limiter, Limiters, TokenBucket,
    CAPACITY, GLOBAL_CAPACITY, REFILL_PER_MINUTE, TOKEN,
};
use xmedia_bot::table::Table;
use xmedia_bot::text::{
    parse_signed, parse_unsigned, replace_all, signed_decimal, split_on, starts_with, trim,
};

const NOW: i64 = 1_700_000_000_000;
const HOUR: u64 = 3_600_000;
const SECOND: u64 = 1_000_000_000;

fn no_vars() -> ConfigVars {
    ConfigVars {
        bot_admin: None,
        edit_message_ttl_seconds: None,
        link_cache_ttl_seconds: None,
        caption_quote_text_chars: None,
        webhook: None,
        webhook_url: None,
        webhook_listen: None,
        webhook_port: None,
        webhook_cert: None,
        webhook_secret_token: None,
    }
}

// ---- configuration ----

#[test]
fn bot_admin_keeps_the_numeric_ids_in_order() {
    let vars = ConfigVars { bot_admin: Some(" 7 ,abc,42, ,".into()), ..no_vars() };
    assert_eq!(Config::load(&vars).admin_ids, vec![7, 42]);
    assert_eq!(parse_admin_ids("-5,+6"), vec![-5, 6]);
    assert!(parse_admin_ids("").is_empty());
}

#[test]
fn webhook_flag_is_a_case_insensitive_truth_table() {
    for (value, expected) in [
        ("true", true),
        ("TRUE", true),
        ("Yes", true),
        ("1", true),
        ("false", false),
        ("on", false),
        ("", false),
    ] {
        let vars = ConfigVars { webhook: Some(value.into()), ..no_vars() };
        assert_eq!(Config::load(&vars).webhook_enabled, expected, "WEBHOOK={value:?}");
    }
    assert!(!Config::load(&no_vars()).webhook_enabled);
}

#[test]
fn invalid_ttl_falls_back_to_the_default() {
    let with = |value: &str| {
        Config::load(&ConfigVars {
            edit_message_ttl_seconds: Some(value.into()),
            ..no_vars()
        })
        .edit_message_ttl
    };
    assert_eq!(with("not-a-number"), 24 * 3600);
    assert_eq!(with("120"), 120);
    assert_eq!(with("-1"), 24 * 3600);
    assert_eq!(with("18446744073709551615"), u64::MAX);
    assert_eq!(with("18446744073709551616"), 24 * 3600);
    let plain = Config::load(&no_vars());
    assert_eq!(plain.link_cache_ttl, DEFAULT_LINK_CACHE_TTL);
    assert_eq!(plain.caption_quote_text_chars, DEFAULT_CAPTION_QUOTE_TEXT_CHARS);
}

#[test]
fn blank_webhook_cert_and_secret_count_as_unset() {
    let blank = Config::load(&ConfigVars {
        webhook_cert: Some("".into()),
        webhook_secret_token: Some("".into()),
        ..no_vars()
    });
    let present = Config::load(&ConfigVars {
        webhook_cert: Some("/x/cert.pem".into()),
        webhook_secret_token: Some("s3cret".into()),
        ..no_vars()
    });
    assert_eq!(blank.webhook_cert, None, "blank must read as unset");
    assert_eq!(blank.webhook_secret_token, None, "blank must read as unset");
    assert_eq!(present.webhook_cert.as_deref(), Some("/x/cert.pem"));
    assert_eq!(present.webhook_secret_token.as_deref(), Some("s3cret"));
}

// ---- text ----

#[test]
fn numbers_parse_as_the_standard_library_does() {
    for s in ["0", "7", "+7", "-7", "", "+", "-", " 7", "007", "9223372036854775807",
        "9223372036854775808", "-9223372036854775808", "-9223372036854775809", "7a"]
    {
        assert_eq!(parse_signed(s), s.parse::<i64>().ok(), "{s:?}");
        assert_eq!(parse_unsigned(s, u64::MAX), s.parse::<u64>().ok(), "{s:?}");
    }
    assert_eq!(signed_decimal(i64::MIN), i64::MIN.to_string());
    assert_eq!(signed_decimal(-10), "-10");
    assert_eq!(trim("\u{3000} a b\n"), "a b");
    assert_eq!(split_on("a,,b", ','), vec!["a", "", "b"]);
    assert_eq!(split_on("", ','), vec![""]);
    assert_eq!(replace_all("aaa", "aa", "b"), "ba");
    assert!(starts_with("abc", "ab") && !starts_with("abc", "bc"));
}

// ---- time and schema ----

#[test]
fn the_clock_moves_forward() {
    let before = now_ms();
    assert!(before > 1_600_000_000_000);
    assert!(unix_now() >= before / 1000);
    assert_eq!(read_clock(None), 0);
    assert_eq!(read_clock(Some(5)), 5);
    assert_eq!(read_clock(Some(u64::MAX)), i64::MAX);
    assert_eq!(whole_seconds(1999), 1);
}

#[test]
fn migrations_run_once() {
    let due = due_migrations(0);
    assert!(!due.is_empty());
    assert!(due.iter().any(|m| m.statement == ADD_LEASE_TOKEN));
    let newest = due.last().unwrap().target;
    assert!(due_migrations(newest).is_empty());
    assert!(due_migrations(newest + 1).is_empty());
    assert_eq!(version_statement(newest as u64), format!("PRAGMA user_version = {newest}"));
}

// ---- the queue ----

#[test]
fn scaled_retry_delay_scales_and_caps() {
    assert_eq!(scaled_retry_delay(1000, 0), 1000);
    assert_eq!(scaled_retry_delay(1000, 1), 2000);
    assert_eq!(scaled_retry_delay(1000, 2), 4000);
    assert_eq!(scaled_retry_delay(1500, 1), 3000);
    assert_eq!(scaled_retry_delay(1000, 10), 300_000, "capped at 300s");
    assert_eq!(scaled_retry_delay(300_000, 0), 300_000);
    assert_eq!(scaled_retry_delay(1_800_000, 0), 1_800_000);
    assert_eq!(scaled_retry_delay(1_800_000, 1), 1_800_000);
}

fn queue_with(id: &str, payload: &str, run_after: i64) -> PersistentTaskQueue {
    let mut queue = PersistentTaskQueue::new();
    queue.enqueue(id.into(), payload.into(), run_after, NOW);
    queue
}

#[test]
fn enqueue_runs_handler_once() {
    let mut queue = queue_with("a", "{\"n\":42}", NOW);
    let row = queue.lease_next(NOW, "t1").expect("a due row");
    assert_eq!((row.id.as_str(), row.payload.as_str(), row.attempts), ("a", "{\"n\":42}", 0));
    assert!(queue.lease_next(NOW, "t2").is_none(), "a leased row is held");
    assert!(matches!(settle(row.attempts, Ok(())), Settlement::Delete));
    queue.delete_row("a", "t1");
    assert!(queue.rows.is_empty());
}

#[test]
fn rows_run_in_the_order_they_are_due() {
    let mut queue = queue_with("late", "{}", NOW + 5);
    queue.enqueue("first".into(), "{}".into(), NOW - 5, NOW);
    queue.enqueue("second".into(), "{}".into(), NOW, NOW);
    assert_eq!(queue.earliest_run_after(), Some(NOW - 5));
    assert_eq!(queue.lease_next(NOW, "t").unwrap().id, "first");
    assert_eq!(queue.lease_next(NOW, "t").unwrap().id, "second");
    assert!(queue.lease_next(NOW, "t").is_none());
    assert_eq!(queue.earliest_run_after(), Some(NOW + 5));
    assert_eq!(idle_wait(queue.earliest_run_after(), NOW), Some(5));
    assert_eq!(queue.lease_next(NOW + 5, "t").unwrap().id, "late");
    assert_eq!(idle_wait(queue.earliest_run_after(), NOW), None);
}

#[test]
fn row_fields_name_the_chat_and_the_post() {
    assert_eq!(
        row_fields(
            "{\"chat_id\": 111, \"source_url\": \"https://x.com/u/status/1\"}",
            Some("twitter:1")
        ),
        "chat=111 [key=twitter:1]"
    );
    assert_eq!(row_fields("{\"from_chat_id\": 111, \"to_chat_id\": 222}", None), "chat=111");
    assert_eq!(row_fields("{\"chat_id\": \"111\"}", None), "");
    assert_eq!(row_fields("null", None), "");
    assert_eq!(row_chat("{\"chat_id\": -5}"), Some(-5));
    assert_eq!(row_source_url("{\"source_url\": \"u\"}").as_deref(), Some("u"));
    assert_eq!(row_source_url("{not json"), None);
    assert_eq!(row_line(None, Some("k")), "[key=k]");
    assert_eq!(log_key(None), "<unsupported>");
}

#[test]
fn done_rows_are_never_leased() {
    let mut queue = queue_with("a", "{\"chat_id\":1}", NOW);
    assert!(queue.lease_next(NOW, "t").is_some());
    queue.mark_done("a", "t");
    assert_eq!(queue.pending_backlog(), None, "a done row is not pending work");
    assert!(queue.lease_next(NOW + 1_000_000, "t").is_none());
    queue.recover_update(NOW + 1_000_000);
    assert!(queue.lease_next(NOW + 1_000_000, "t").is_none());
    assert!(queue.runnable_rows().is_empty());
}

#[test]
fn pending_backlog_counts_only_unleased_rows() {
    assert_eq!(PersistentTaskQueue::new().pending_backlog(), None, "empty queue");
    let mut queue = queue_with("a", "{\"chat_id\":1}", NOW);
    queue.enqueue("b".into(), "{\"chat_id\":2}".into(), NOW + 600_000, NOW);
    assert_eq!(queue.pending_backlog(), Some((2, NOW)));
    assert!(queue.lease_next(NOW, "t").is_some());
    assert_eq!(queue.pending_backlog(), Some((1, NOW + 600_000)));
}

#[test]
fn retryable_reschedules_then_dead_letters() {
    let mut queue = queue_with("a", "{\"a\":1}", NOW);
    let mut now = NOW;
    let mut runs = 0;
    loop {
        let row = queue.lease_next(now, "t").expect("due again");
        runs += 1;
        let outcome = Err(QueueError::Retryable { delay_ms: 1, payload: row.payload.clone() });
        match settle(row.attempts, outcome) {
            Settlement::Reschedule { delay_ms, payload, attempts } => {
                queue.reschedule("a", "t", &payload, now + delay_ms as i64, attempts);
                now += delay_ms as i64;
            }
            Settlement::DeadLetter { message, payload } => {
                assert_eq!(message, "retries exhausted");
                assert_eq!(payload, "{\"a\":1}");
                queue.delete_row("a", "t");
                break;
            }
            other => panic!("{other:?}"),
        }
    }
    assert_eq!(runs, MAX_RETRIES + 1, "handler should run once per attempt");
    assert!(queue.rows.is_empty());
}

#[test]
fn permanent_error_dead_letters_immediately() {
    let outcome = Err(QueueError::Permanent { message: "nope".into(), payload: "{}".into() });
    match settle(0, outcome) {
        Settlement::DeadLetter { message, payload } => {
            assert_eq!((message.as_str(), payload.as_str()), ("nope", "{}"))
        }
        other => panic!("{other:?}"),
    }
}

#[test]
fn stale_in_progress_row_is_recovered_on_start() {
    let mut queue = PersistentTaskQueue::new();
    queue.rows.push(TaskRow {
        id: "task_stale".into(),
        payload: "{\"s\":1}".into(),
        run_after: 0,
        attempts: 0,
        status: TaskStatus::InProgress,
        locked_until: NOW - 10_000,
        lease_token: Some("old".into()),
        created_at: 0,
    });
    queue.recover_update(NOW);
    let row = queue.lease_next(NOW, "new").expect("recovered");
    assert_eq!(row.payload, "{\"s\":1}");
    // The worker that lost its lease cannot write any more.
    queue.delete_row("task_stale", "old");
    queue.mark_done("task_stale", "old");
    assert_eq!(queue.rows[0].status, TaskStatus::InProgress);
    queue.reschedule("task_stale", "old", "{}", NOW, 9);
    queue.heartbeat("task_stale", "old", NOW + 1);
    assert_eq!(queue.rows.len(), 1);
    assert_eq!(queue.rows[0].payload, "{\"s\":1}");
    assert_eq!(queue.rows[0].locked_until, NOW + LOCK_TTL_MS);
}

#[test]
fn a_heartbeat_keeps_the_lease() {
    let mut queue = queue_with("a", "{}", NOW);
    assert!(queue.lease_next(NOW, "t").is_some());
    queue.heartbeat("a", "t", NOW + 100_000);
    queue.recover_update(NOW + LOCK_TTL_MS + 1);
    assert!(queue.lease_next(NOW + LOCK_TTL_MS + 1, "u").is_none());
    queue.recover_update(NOW + 100_000 + LOCK_TTL_MS + 1);
    assert!(queue.lease_next(NOW + 100_000 + LOCK_TTL_MS + 1, "u").is_some());
}

#[test]
fn payloads_can_be_replaced() {
    let mut queue = queue_with("a", "old", NOW);
    assert_eq!(queue.runnable_rows(), vec![("a".to_string(), "old".to_string())]);
    queue.replace_payload("a", "new");
    assert_eq!(queue.lease_next(NOW, "t").unwrap().payload, "new");
}

#[test]
fn unreadable_payloads_are_rejected() {
    match check_payload("{not json") {
        Some(Settlement::DeadLetter { message, payload }) => {
            assert!(message.starts_with("invalid stored payload: "), "{message}");
            assert!(message.len() > "invalid stored payload: ".len());
            assert_eq!(payload, "null");
        }
        other => panic!("{other:?}"),
    }
    assert!(check_payload("{}").is_none());
    assert!(reject(None).is_none());
}

#[test]
fn terminal_writes_back_off() {
    assert_eq!(terminal_write_backoff(0), 100);
    assert_eq!(terminal_write_backoff(1), 200);
    assert_eq!(after_write(0, true), WriteStep::Finished);
    assert_eq!(after_write(0, false), WriteStep::RetryAfter(terminal_write_backoff(0)));
    assert_eq!(after_write(2, false), WriteStep::GiveUpAfter(terminal_write_backoff(2)));
}

#[test]
fn task_ids_differ() {
    let a = task_id(1, 23);
    let b = task_id(12, 3);
    assert_ne!(a, b);
    assert_ne!(task_id(5, 0), task_id(5, 1));
    assert_eq!(lease_token(7, 12, 3), "7-12-3");
    assert_ne!(lease_token(7, 1, 23), lease_token(7, 12, 3));
    assert_ne!(lease_token(71, 2, 3), lease_token(7, 12, 3));
}

// ---- rate limits ----

#[test]
fn limiter_for_reuses_the_per_chat_bucket() {
    let mut limiters = Limiters::new();
    let a = limiter_for(&mut limiters, 1, 0);
    assert_eq!(limiters.acquire(1, 5, 0), 0);
    let b = limiter_for(&mut limiters, 1, 0);
    let c = limiter_for(&mut limiters, 2, 0);
    assert_eq!(a.bucket.tokens - b.bucket.tokens, 5 * TOKEN, "same chat → same bucket");
    assert_eq!(c.bucket.tokens, a.bucket.tokens, "different chat → different bucket");
    assert_eq!(limiters.chats.len(), 2);
}

#[test]
fn burst_is_consumed_instantly_then_refill_waits() {
    // Three tokens, one more each second.
    let mut bucket = TokenBucket::new(3, 60, 0);
    assert_eq!(bucket.acquire(3, 0), 0);
    assert_eq!(bucket.acquire(1, 0), SECOND);
    assert_eq!(bucket.acquire(1, SECOND), SECOND);
}

#[test]
fn acquire_larger_than_capacity_waits_for_the_deficit() {
    let mut bucket = TokenBucket::new(2, 60, 0);
    assert_eq!(bucket.acquire(5, 0), 3 * SECOND);
}

#[test]
fn the_global_budget_is_paced_and_shared() {
    let mut bucket = global_bucket(0);
    assert_eq!(acquire_global(&mut bucket, GLOBAL_CAPACITY, 0), 0);
    // Thirty tokens a second: the next one takes a thirtieth of it, rounded up.
    assert_eq!(acquire_global(&mut bucket, 1, 0), 33_333_334);
}

#[test]
fn prune_idle_drops_full_unheld_buckets_only() {
    let mut limiters = Limiters::new();
    let held = limiter_for(&mut limiters, 9_001, 0);
    assert!(held.bucket.is_idle(0), "a fresh bucket is full");
    limiter_for(&mut limiters, 9_002, 0);
    limiters.release(9_002);
    let mut bucket = TokenBucket::new(CAPACITY, REFILL_PER_MINUTE, 0);
    bucket.tokens = -1;
    limiters.chats.insert(9_003, Limiter { bucket, holders: 0 });
    assert_eq!(prune_idle(&mut limiters, 0), 1);
    assert!(limiters.chats.contains_key(&9_001), "held bucket pruned");
    assert!(!limiters.chats.contains_key(&9_002), "idle unheld bucket kept");
    assert!(limiters.chats.contains_key(&9_003), "indebted bucket pruned");
}

// ---- the link cache ----

fn cached_photo() -> CachedPost {
    CachedPost {
        url: "https://x.com/u/status/1".into(),
        caption: "cap".into(),
        title: "t".into(),
        content: "c".into(),
        author: "a".into(),
        author_url: "au".into(),
        tags: String::new(),
        sensitive: false,
        media: vec![CachedMedia {
            kind: CachedMediaKind::Photo,
            file_id: "AgAC-file-id".into(),
            url: "https://pbs.twimg.com/media/photo.jpg".into(),
        }],
    }
}

#[test]
fn put_get_roundtrip() {
    let mut cache = LinkCache::new();
    cache.put("twitter:1", cached_photo(), NOW);
    let got = cache.get("twitter:1", HOUR, NOW).expect("cached");
    assert_eq!(got.url, "https://x.com/u/status/1");
    assert_eq!(got.media[0].file_id, "AgAC-file-id");
    assert_eq!(got.media[0].url, "https://pbs.twimg.com/media/photo.jpg");
}

#[test]
fn expired_entry_removed_on_read() {
    let mut cache = LinkCache::new();
    cache.put("twitter:1", cached_photo(), NOW - 100_000);
    assert!(cache.get("twitter:1", 1000, NOW).is_none());
    assert!(cache.get("twitter:1", HOUR, NOW).is_none());
}

#[test]
fn unreadable_entry_is_dropped_on_read() {
    let mut cache = LinkCache::new();
    cache.entries.insert("twitter:1".into(), CacheEntry { post: None, created_at: NOW });
    assert!(cache.get("twitter:1", HOUR, NOW).is_none());
    assert_eq!(cache.clear(None), 0, "corrupted row still present");
}

#[test]
fn remove_and_prune() {
    let mut cache = LinkCache::new();
    cache.put("twitter:1", cached_photo(), NOW - 100_000);
    cache.put("pixiv:2", cached_photo(), NOW - 100_000);
    cache.remove("twitter:1");
    assert!(cache.get("twitter:1", HOUR, NOW).is_none());
    assert!(cache.get("pixiv:2", HOUR, NOW).is_some());
    assert_eq!(cache.prune(1000, NOW), 1);
    assert!(cache.get("pixiv:2", HOUR, NOW).is_none());
}

#[test]
fn clear_one_entry_or_all() {
    let mut cache = LinkCache::new();
    cache.put("twitter:1", cached_photo(), NOW);
    cache.put("pixiv:2", cached_photo(), NOW);
    assert_eq!(cache.clear(Some("twitter:1")), 1);
    assert!(cache.get("twitter:1", HOUR, NOW).is_none());
    assert!(cache.get("pixiv:2", HOUR, NOW).is_some());
    assert_eq!(cache.clear(None), 1);
    assert!(cache.get("pixiv:2", HOUR, NOW).is_none());
    assert_eq!(cache.clear(None), 0);
}

#[test]
fn degraded_posts_keep_only_their_urls() {
    let degraded = cached_photo().degraded().expect("it has a URL");
    assert_eq!(degraded.media[0].file_id, "");
    assert_eq!(degraded.media[0].url, "https://pbs.twimg.com/media/photo.jpg");
    let mut bare = cached_photo();
    bare.media[0].url = String::new();
    assert!(bare.degraded().is_none());
}

#[test]
fn tables_hold_one_value_per_key() {
    let mut table: Table<String, String> = Table::new();
    table.insert("k".into(), "1".into());
    table.insert("k".into(), "2".into());
    table.insert("l".into(), "3".into());
    assert_eq!(table.len(), 2);
    assert_eq!(table.get(&"k".to_string()).map(|s| s.as_str()), Some("2"));
    assert_eq!(table.remove(&"k".to_string()).as_deref(), Some("2"));
    assert_eq!(table.remove(&"k".to_string()), None);
    assert!(!table.contains_key(&"k".to_string()));
}
