use xmedia_bot::handlers::callback::{
    after_forward_press, after_queueing, drop_prompt, handle_callback, record_template,
    template_failure, CallbackStep, ForwardPress,
};
use xmedia_bot::handlers::edit::{
    apply_caption_edit, edit_message_handler, failed_edit_text, CaptionStep, EditStep,
};
use xmedia_bot::send::classify::{ApiError, RequestError, RequestErrorKind};
use xmedia_bot::send::post::{build_edit_markup, edit_prompt_text, record_prompt};
use xmedia_bot::send::run::forward_messages;
use xmedia_bot::send::task::Task;
use xmedia_bot::state::{ChatData, EditMessage};

const PROMPT_ID: i64 = 7;
const FORWARDED_ID: i64 = 9;
const NOW: i64 = 1_700_000_000;
const TTL: u64 = 86_400;

fn api_error(message: &str) -> RequestError {
    RequestError {
        kind: RequestErrorKind::Api(ApiError {
            description: message.to_string(),
            entity_too_large: false,
        }),
        text: message.to_string(),
    }
}

fn retry_after(seconds: u32) -> RequestError {
    RequestError {
        kind: RequestErrorKind::RetryAfter(seconds),
        text: format!("Retry after {seconds}s"),
    }
}

fn seeded(template: &str, created_at: i64) -> ChatData {
    let mut data = ChatData::default();
    data.forward_channel_id = Some(2);
    data.template.insert("tpl".to_string(), "<b>[]</b>".to_string());
    data.edit_message.insert(
        PROMPT_ID,
        EditMessage {
            url: "https://x.com/u/status/1".into(),
            chat_id: 1,
            forward_message_ids: vec![FORWARDED_ID],
            template: template.to_string(),
            created_at,
        },
    );
    data
}

fn pressed(data: &ChatData, button: &str) -> CallbackStep {
    handle_callback(data, 1, PROMPT_ID, button, TTL, NOW)
}

#[test]
fn template_button_swaps_the_caption_and_records_the_choice() {
    let mut data = seeded("", NOW);
    match pressed(&data, "template|tpl") {
        CallbackStep::EditCaption { message_id, caption, template } => {
            assert_eq!(message_id, FORWARDED_ID);
            assert_eq!(caption, "<b>[]</b>");
            record_template(&mut data, PROMPT_ID, &template);
        }
        other => panic!("{other:?}"),
    }
    assert_eq!(data.edit_message.get(&PROMPT_ID).unwrap().template, "tpl");
}

#[test]
fn a_failed_template_swap_is_reported_in_the_toast() {
    let data = seeded("", NOW);
    let failed = Err(api_error("Bad Request: chat not found"));
    match apply_caption_edit(&failed, true, 500) {
        CaptionStep::Failed(reason) => {
            let answer = template_failure(&reason);
            assert_eq!(
                answer.text.as_deref(),
                Some("Could not apply the template: Bad Request: chat not found")
            );
            assert!(!answer.drop_record && !answer.delete_prompt);
        }
        other => panic!("{other:?}"),
    }
    assert_eq!(data.edit_message.get(&PROMPT_ID).unwrap().template, "");
}

#[test]
fn a_template_that_is_gone_only_acknowledges_the_press() {
    let data = seeded("", NOW);
    match pressed(&data, "template|gone") {
        CallbackStep::Answer(answer) => {
            assert_eq!(answer.text, None);
            assert!(!answer.drop_record && !answer.delete_prompt);
        }
        other => panic!("{other:?}"),
    }
    assert!(matches!(pressed(&data, "something else"), CallbackStep::Ignore));
}

#[test]
fn forward_button_copies_then_clears_the_prompt() {
    let mut data = seeded("", NOW);
    let task = match pressed(&data, "forward") {
        CallbackStep::Forward(task) => task,
        other => panic!("{other:?}"),
    };
    match &task {
        Task::ForwardMessages {
            from_chat_id,
            to_chat_id,
            message_ids,
            notify_chat_id,
            notify_message_id,
        } => {
            assert_eq!((*from_chat_id, *to_chat_id), (1, 2));
            assert_eq!(message_ids, &vec![FORWARDED_ID]);
            assert_eq!((*notify_chat_id, *notify_message_id), (Some(1), Some(PROMPT_ID)));
        }
        other => panic!("{other:?}"),
    }
    match after_forward_press(forward_messages(&task, Ok(()), 500)) {
        ForwardPress::Answer(answer) => {
            assert_eq!(answer.text.as_deref(), Some("✅ Forwarded"));
            assert!(answer.drop_record && answer.delete_prompt);
        }
        other => panic!("{other:?}"),
    }
    drop_prompt(&mut data, PROMPT_ID);
    assert_eq!(data.edit_message.len(), 0);
}

#[test]
fn skip_drops_the_prompt_without_forwarding() {
    let mut data = seeded("", NOW);
    data.forward_channel_id = None;
    match pressed(&data, "skip") {
        CallbackStep::Answer(answer) => {
            assert_eq!(answer.text.as_deref(), Some("Skipped — nothing was forwarded."));
            assert!(answer.drop_record && answer.delete_prompt);
        }
        other => panic!("{other:?}"),
    }
    drop_prompt(&mut data, PROMPT_ID);
    match pressed(&data, "forward") {
        CallbackStep::Answer(answer) => assert_eq!(answer.text.as_deref(), Some("Expired")),
        other => panic!("{other:?}"),
    }
}

#[test]
fn forward_without_a_channel_is_reported() {
    let mut data = seeded("", NOW);
    data.forward_channel_id = None;
    match pressed(&data, "forward") {
        CallbackStep::Answer(answer) => {
            assert_eq!(answer.text.as_deref(), Some("No forward channel set."));
            assert!(!answer.drop_record && !answer.delete_prompt);
        }
        other => panic!("{other:?}"),
    }
}

#[test]
fn retryable_forward_is_queued_and_settles_the_prompt() {
    let mut data = seeded("", NOW);
    let task = match pressed(&data, "forward") {
        CallbackStep::Forward(task) => task,
        other => panic!("{other:?}"),
    };
    match after_forward_press(forward_messages(&task, Err(retry_after(7)), 500)) {
        ForwardPress::Enqueue { task, delay_ms } => {
            assert_eq!(delay_ms, 7000);
            assert!(matches!(task, Task::ForwardMessages { to_chat_id: 2, .. }));
        }
        other => panic!("{other:?}"),
    }
    let answer = after_queueing(true);
    assert_eq!(answer.text.as_deref(), Some("Forward queued for retry."));
    assert!(answer.drop_record && answer.delete_prompt);
    drop_prompt(&mut data, PROMPT_ID);
    match pressed(&data, "forward") {
        CallbackStep::Answer(answer) => assert_eq!(answer.text.as_deref(), Some("Expired")),
        other => panic!("{other:?}"),
    }
    let answer = after_queueing(false);
    assert_eq!(
        answer.text.as_deref(),
        Some("Forward failed and the retry could not be queued.")
    );
    assert!(answer.drop_record && answer.delete_prompt);
}

#[test]
fn a_forward_that_failed_for_good_leaves_the_prompt_open() {
    let data = seeded("", NOW);
    let task = match pressed(&data, "forward") {
        CallbackStep::Forward(task) => task,
        other => panic!("{other:?}"),
    };
    let result = forward_messages(&task, Err(api_error("Bad Request: chat not found")), 500);
    match after_forward_press(result) {
        ForwardPress::Answer(answer) => {
            assert_eq!(
                answer.text.as_deref(),
                Some("Forward failed: Bad Request: chat not found")
            );
            assert!(!answer.drop_record && !answer.delete_prompt);
        }
        other => panic!("{other:?}"),
    }
}

#[test]
fn unknown_and_expired_prompts_answer_expired() {
    match pressed(&ChatData::default(), "forward") {
        CallbackStep::Answer(answer) => {
            assert_eq!(answer.text.as_deref(), Some("Expired"));
            assert!(!answer.drop_record);
        }
        other => panic!("{other:?}"),
    }
    let stale = seeded("", NOW - TTL as i64 - 1);
    match pressed(&stale, "forward") {
        CallbackStep::Answer(answer) => {
            assert_eq!(answer.text.as_deref(), Some("Expired"));
            assert!(answer.drop_record && !answer.delete_prompt);
        }
        other => panic!("{other:?}"),
    }
    // The last second still counts.
    assert!(matches!(
        pressed(&seeded("", NOW - TTL as i64 + 1), "forward"),
        CallbackStep::Forward(_)
    ));
    assert!(matches!(
        pressed(&seeded("", NOW - TTL as i64), "forward"),
        CallbackStep::Answer(_)
    ));
}

fn replied(data: &ChatData, text: &str) -> EditStep {
    edit_message_handler(data, PROMPT_ID, text, TTL, NOW)
}

#[test]
fn a_reply_to_an_expired_prompt_is_not_edited() {
    let data = seeded("tpl", NOW - 90_000);
    assert!(matches!(
        replied(&data, "new caption"),
        EditStep::NotConsumed { drop_record: true }
    ));
}

#[test]
fn reply_to_a_prompt_swaps_the_caption_through_its_template() {
    match replied(&seeded("tpl", NOW), "new caption") {
        EditStep::EditCaption { message_id, caption } => {
            assert_eq!(message_id, FORWARDED_ID);
            assert_eq!(
                caption,
                "<b><a href=\"https://x.com/u/status/1\">new caption</a></b>"
            );
        }
        other => panic!("{other:?}"),
    }
}

#[test]
fn every_place_of_a_template_is_filled() {
    let mut data = seeded("twice", NOW);
    data.template.insert("twice".to_string(), "[] [[]]".to_string());
    let link = "<a href=\"https://x.com/u/status/1\">x</a>";
    assert!(matches!(
        replied(&data, "x"),
        EditStep::EditCaption { caption, .. } if caption == format!("{link} [{link}]")
    ));
    // A template that is gone leaves the bare link.
    let mut data = seeded("gone", NOW);
    data.edit_message.get(&PROMPT_ID).unwrap();
    assert!(matches!(
        replied(&data, "x"),
        EditStep::EditCaption { caption, .. } if caption == link
    ));
    data.edit_message.insert(
        PROMPT_ID,
        EditMessage {
            url: "u".into(),
            chat_id: 1,
            forward_message_ids: vec![],
            template: String::new(),
            created_at: NOW,
        },
    );
    assert!(matches!(replied(&data, "x"), EditStep::NotConsumed { drop_record: false }));
}

#[test]
fn reply_text_and_url_are_escaped_into_the_caption() {
    match replied(&seeded("", NOW), "<script>alert(1)</script>") {
        EditStep::EditCaption { caption, .. } => assert_eq!(
            caption,
            "<a href=\"https://x.com/u/status/1\">&lt;script&gt;alert(1)&lt;/script&gt;</a>"
        ),
        other => panic!("{other:?}"),
    }
    let mut data = seeded("", NOW);
    data.edit_message.insert(
        PROMPT_ID,
        EditMessage {
            url: "https://e/\"><b>&".into(),
            chat_id: 1,
            forward_message_ids: vec![1],
            template: String::new(),
            created_at: NOW,
        },
    );
    match replied(&data, "x") {
        EditStep::EditCaption { caption, .. } => assert_eq!(
            caption,
            "<a href=\"https://e/&quot;&gt;&lt;b&gt;&amp;\">x</a>"
        ),
        other => panic!("{other:?}"),
    }
}

#[test]
fn a_failed_caption_swap_is_reported_and_consumed() {
    assert!(matches!(
        replied(&seeded("tpl", NOW), "new caption"),
        EditStep::EditCaption { .. }
    ));
    let failed = Err(api_error("Bad Request: message not found"));
    match apply_caption_edit(&failed, true, 500) {
        CaptionStep::Failed(reason) => assert_eq!(
            failed_edit_text(&reason),
            "Could not update the caption (Bad Request: message not found). Send it again to retry."
        ),
        other => panic!("{other:?}"),
    }
}

#[test]
fn a_short_retryable_caption_failure_is_retried_once() {
    let waiting = Err(retry_after(1));
    assert!(matches!(
        apply_caption_edit(&waiting, true, 500),
        CaptionStep::Retry { delay_ms: 1000 }
    ));
    assert!(matches!(apply_caption_edit(&Ok(()), false, 500), CaptionStep::Applied));
    assert!(matches!(apply_caption_edit(&waiting, false, 500), CaptionStep::Failed(_)));
    // A network failure waits a second and its jitter.
    let down = Err(RequestError { kind: RequestErrorKind::Network, text: "down".into() });
    assert!(matches!(
        apply_caption_edit(&down, true, 500),
        CaptionStep::Retry { delay_ms: 1500 }
    ));
}

#[test]
fn a_long_retryable_caption_failure_is_not_retried() {
    let waiting = Err(retry_after(60));
    match apply_caption_edit(&waiting, true, 500) {
        CaptionStep::Failed(reason) => assert_eq!(reason, "Retry after 60s"),
        other => panic!("{other:?}"),
    }
    assert!(matches!(
        apply_caption_edit(&Err(retry_after(2)), true, 500),
        CaptionStep::Retry { delay_ms: 2000 }
    ));
}

#[test]
fn reply_to_an_unrelated_message_is_not_consumed() {
    assert!(matches!(
        replied(&ChatData::default(), "hello"),
        EditStep::NotConsumed { drop_record: false }
    ));
}

#[test]
fn a_prompt_offers_its_templates_in_order_and_two_ways_out() {
    let mut data = ChatData::default();
    let labels = |data: &ChatData| -> Vec<String> {
        build_edit_markup(&data.template).into_iter().map(|b| b.label).collect()
    };
    assert_eq!(labels(&data), vec!["↩️ Confirm", "🛑 Skip"]);
    data.template.insert("b".into(), "[]".into());
    data.template.insert("a".into(), "[]".into());
    assert_eq!(labels(&data), vec!["a", "b", "↩️ Confirm", "🛑 Skip"]);
    let datas: Vec<String> =
        build_edit_markup(&data.template).into_iter().map(|b| b.data).collect();
    assert_eq!(datas, vec!["template|a", "template|b", "forward", "skip"]);
    for i in 0..70 {
        data.template.insert(format!("t{i:02}"), "[]".into());
    }
    let all = labels(&data);
    assert_eq!(all.len(), 62);
    assert_eq!(all[59], "t57");
    assert_eq!(all[60], "↩️ Confirm");
}

#[test]
fn a_prompt_states_when_it_expires() {
    assert_eq!(edit_prompt_text(86_400), "Reply to edit message. Expires in 24 h.");
    assert_eq!(edit_prompt_text(5400), "Reply to edit message. Expires in 90 min.");
    assert_eq!(edit_prompt_text(61), "Reply to edit message. Expires in 61 s.");
    assert_eq!(edit_prompt_text(0), "Reply to edit message. Expires in 0 s.");
}

#[test]
fn an_opened_prompt_can_be_used() {
    let mut data = ChatData::default();
    data.forward_channel_id = Some(2);
    record_prompt(&mut data, PROMPT_ID, 1, "https://x.com/u/status/1", vec![5, 6], NOW);
    match pressed(&data, "forward") {
        CallbackStep::Forward(Task::ForwardMessages { message_ids, .. }) => {
            assert_eq!(message_ids, vec![5, 6])
        }
        other => panic!("{other:?}"),
    }
}

#[test]
fn expired_prompts_are_swept() {
    let mut data = seeded("", NOW - TTL as i64);
    data.edit_message.insert(
        8,
        EditMessage {
            url: "u".into(),
            chat_id: 1,
            forward_message_ids: vec![1],
            template: String::new(),
            created_at: NOW,
        },
    );
    assert_eq!(data.prune_expired(TTL, NOW), vec![PROMPT_ID]);
    assert_eq!(data.edit_message.len(), 1);
    assert!(data.prune_expired(TTL, NOW).is_empty());
}
