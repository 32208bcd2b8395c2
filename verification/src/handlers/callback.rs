//! The buttons of an edit-before-forward prompt.
use crate::send::classify::{SendError, SendErrorView};
use crate::send::task::{Task, TaskView};
use crate::state::{duplicate_ids, ChatData, ChatView, EditView};
use crate::text::{same, strip_prefix};
use vstd::prelude::*;

verus! {

/// The data of the button that forwards.
pub const FORWARD: &'static str = "forward";

/// The data of the button that drops the prompt.
pub const SKIP: &'static str = "skip";

/// What the data of a template's button starts with.
pub const TEMPLATE_PREFIX: &'static str = "template|";

/// How a press is answered and what becomes of the prompt.
#[derive(Debug)]
pub struct CallbackAnswer {
    pub text: Option<String>,
    /// The prompt's record goes, so that it cannot be used again.
    pub drop_record: bool,
    /// The message that shows the prompt goes.
    pub delete_prompt: bool,
}

/// [`CallbackAnswer`] over mathematical text.
pub struct AnswerView {
    pub text: Option<Seq<char>>,
    pub drop_record: bool,
    pub delete_prompt: bool,
}

impl View for CallbackAnswer {
    type V = AnswerView;

    open spec fn view(&self) -> AnswerView {
        AnswerView {
            text: crate::json::text_option(self.text),
            drop_record: self.drop_record,
            delete_prompt: self.delete_prompt,
        }
    }
}

/// What a press asks for.
#[derive(Debug)]
pub enum CallbackStep {
    Answer(CallbackAnswer),
    /// Copy the messages to the channel.
    Forward(Task),
    /// Give the first message a template as its caption.
    EditCaption { message_id: i64, caption: String, template: String },
    /// Nothing that this bot's buttons say.
    Ignore,
}

/// [`CallbackStep`] over mathematical values.
pub enum CallbackView {
    Answer(AnswerView),
    Forward(TaskView),
    EditCaption { message_id: i64, caption: Seq<char>, template: Seq<char> },
    Ignore,
}

impl View for CallbackStep {
    type V = CallbackView;

    open spec fn view(&self) -> CallbackView {
        match self {
            CallbackStep::Answer(a) => CallbackView::Answer(a@),
            CallbackStep::Forward(task) => CallbackView::Forward(task@),
            CallbackStep::EditCaption { message_id, caption, template } =>
                CallbackView::EditCaption {
                message_id: *message_id,
                caption: caption@,
                template: template@,
            },
            CallbackStep::Ignore => CallbackView::Ignore,
        }
    }
}

pub open spec fn answered(text: Seq<char>, drop_record: bool, delete_prompt: bool) -> AnswerView {
    AnswerView { text: Some(text), drop_record, delete_prompt }
}

/// The task that copies what a prompt is about. A failure is told in reply to the
/// prompt.
pub open spec fn prompted_forward(
    edit: EditView,
    channel: i64,
    chat_id: i64,
    prompt: i64,
) -> TaskView {
    TaskView::ForwardMessages {
        from_chat_id: edit.chat_id,
        to_chat_id: channel,
        message_ids: edit.forward_message_ids,
        notify_chat_id: Some(chat_id),
        notify_message_id: Some(prompt),
    }
}

/// The template that a button names, if it is a template's button.
pub open spec fn pressed_template(data: Seq<char>) -> Option<Seq<char>> {
    if crate::text::begins_with(data, TEMPLATE_PREFIX@) {
        Some(data.skip(TEMPLATE_PREFIX@.len() as int))
    } else {
        None
    }
}

/// What a press on a prompt that can be used comes to.
pub open spec fn live_press(
    c: ChatView,
    edit: EditView,
    chat_id: i64,
    prompt: i64,
    data: Seq<char>,
) -> CallbackView {
    if data == SKIP@ {
        CallbackView::Answer(answered("Skipped — nothing was forwarded."@, true, true))
    } else if data == FORWARD@ {
        match c.forward_channel_id {
            Some(channel) => CallbackView::Forward(
                prompted_forward(edit, channel, chat_id, prompt),
            ),
            None => CallbackView::Answer(answered("No forward channel set."@, false, false)),
        }
    } else {
        match pressed_template(data) {
            Some(name) => if c.template.contains_key(name) && edit.forward_message_ids.len() > 0 {
                CallbackView::EditCaption {
                    message_id: edit.forward_message_ids[0],
                    caption: c.template[name],
                    template: name,
                }
            } else {
                CallbackView::Answer(
                    AnswerView { text: None, drop_record: false, delete_prompt: false },
                )
            },
            None => CallbackView::Ignore,
        }
    }
}

/// What a press comes to.
pub open spec fn press(
    c: ChatView,
    chat_id: i64,
    prompt: i64,
    data: Seq<char>,
    ttl: int,
    now: int,
) -> CallbackView {
    if !c.edit_message.contains_key(prompt) {
        CallbackView::Answer(answered("Expired"@, false, false))
    } else if crate::state::prompt_expired(c.edit_message[prompt], ttl, now) {
        CallbackView::Answer(answered("Expired"@, true, false))
    } else {
        live_press(c, c.edit_message[prompt], chat_id, prompt, data)
    }
}

fn answer(text: &str, drop_record: bool, delete_prompt: bool) -> (r: CallbackAnswer)
    ensures
        r@ == answered(text@, drop_record, delete_prompt),
{
    CallbackAnswer { text: Some(text.to_owned()), drop_record, delete_prompt }
}

/// Handles a press on a prompt.
pub fn handle_callback(
    chat: &ChatData,
    chat_id: i64,
    prompt: i64,
    data: &str,
    ttl: u64,
    now: i64,
) -> (r: CallbackStep)
    requires
        chat.wf(),
    ensures
        r@ == press(chat@, chat_id, prompt, data@, ttl as int, now as int),
{
    let edit = match chat.edit_message.get(&prompt) {
        Some(edit) => edit,
        None => {
            return CallbackStep::Answer(answer("Expired", false, false));
        },
    };
    if edit.is_expired(ttl, now) {
        return CallbackStep::Answer(answer("Expired", true, false));
    }
    if same(data, SKIP) {
        return CallbackStep::Answer(answer("Skipped — nothing was forwarded.", true, true));
    }
    if same(data, FORWARD) {
        return match chat.forward_channel_id {
            Some(channel) => CallbackStep::Forward(
                Task::ForwardMessages {
                    from_chat_id: edit.chat_id,
                    to_chat_id: channel,
                    message_ids: duplicate_ids(&edit.forward_message_ids),
                    notify_chat_id: Some(chat_id),
                    notify_message_id: Some(prompt),
                },
            ),
            None => CallbackStep::Answer(answer("No forward channel set.", false, false)),
        };
    }
    match strip_prefix(data, TEMPLATE_PREFIX) {
        Some(name) => {
            if edit.forward_message_ids.len() > 0 {
                match chat.template.get(&name) {
                    Some(body) => {
                        return CallbackStep::EditCaption {
                            message_id: edit.forward_message_ids[0],
                            caption: body.clone(),
                            template: name,
                        };
                    },
                    None => {},
                }
            }
            CallbackStep::Answer(
                CallbackAnswer { text: None, drop_record: false, delete_prompt: false },
            )
        },
        None => CallbackStep::Ignore,
    }
}

/// What follows the attempt to copy a prompt's messages.
#[derive(Debug)]
pub enum ForwardPress {
    Answer(CallbackAnswer),
    /// Queue the copy; [`after_queueing`] says how the press is answered.
    Enqueue { task: Task, delay_ms: u64 },
}

pub enum ForwardPressView {
    Answer(AnswerView),
    Enqueue { task: TaskView, delay_ms: int },
}

impl View for ForwardPress {
    type V = ForwardPressView;

    open spec fn view(&self) -> ForwardPressView {
        match self {
            ForwardPress::Answer(a) => ForwardPressView::Answer(a@),
            ForwardPress::Enqueue { task, delay_ms } => ForwardPressView::Enqueue {
                task: task@,
                delay_ms: *delay_ms as int,
            },
        }
    }
}

/// A copy that went through settles the prompt; one that failed for good leaves
/// it open.
pub open spec fn forward_pressed(result: Result<(), SendErrorView>) -> ForwardPressView {
    match result {
        Ok(()) => ForwardPressView::Answer(answered("✅ Forwarded"@, true, true)),
        Err(SendErrorView::Retryable { delay_ms, task }) => ForwardPressView::Enqueue {
            task,
            delay_ms,
        },
        Err(SendErrorView::Permanent { message, .. }) => ForwardPressView::Answer(
            answered("Forward failed: "@ + message, false, false),
        ),
    }
}

pub fn after_forward_press(result: Result<(), SendError>) -> (r: ForwardPress)
    ensures
        r@ == forward_pressed(crate::send::post::unit_result(result)),
{
    match result {
        Ok(()) => ForwardPress::Answer(answer("✅ Forwarded", true, true)),
        Err(SendError::Retryable { delay_ms, task }) => ForwardPress::Enqueue { task, delay_ms },
        Err(SendError::Permanent { message, .. }) => {
            let mut out = "Forward failed: ".to_owned();
            out.append(message.as_str());
            ForwardPress::Answer(answer(out.as_str(), false, false))
        },
    }
}

/// A queued copy settles the prompt whether or not it could be queued: the row
/// carries the messages itself, and a second press must not copy them twice.
pub fn after_queueing(queued: bool) -> (r: CallbackAnswer)
    ensures
        r@ == answered(
            if queued {
                "Forward queued for retry."@
            } else {
                "Forward failed and the retry could not be queued."@
            },
            true,
            true,
        ),
{
    if queued {
        answer("Forward queued for retry.", true, true)
    } else {
        answer("Forward failed and the retry could not be queued.", true, true)
    }
}

/// How a press on a template's button is answered where the caption could not be
/// changed.
pub fn template_failure(reason: &str) -> (r: CallbackAnswer)
    ensures
        r@ == answered("Could not apply the template: "@ + reason@, false, false),
{
    let mut out = "Could not apply the template: ".to_owned();
    out.append(reason);
    answer(out.as_str(), false, false)
}

/// A chat after a prompt was given up.
pub open spec fn without_prompt(c: ChatView, prompt: i64) -> ChatView {
    ChatView { edit_message: c.edit_message.remove(prompt), ..c }
}

pub fn drop_prompt(chat: &mut ChatData, prompt: i64)
    requires
        old(chat).wf(),
    ensures
        final(chat).wf(),
        final(chat)@ == without_prompt(old(chat)@, prompt),
{
    let _ = chat.edit_message.remove(&prompt);
}

/// A chat after a template was applied to a prompt: the prompt's replies are put
/// into it from then on.
pub open spec fn with_template(c: ChatView, prompt: i64, name: Seq<char>) -> ChatView {
    if c.edit_message.contains_key(prompt) {
        ChatView {
            edit_message: c.edit_message.insert(
                prompt,
                EditView { template: name, ..c.edit_message[prompt] },
            ),
            ..c
        }
    } else {
        c
    }
}

pub fn record_template(chat: &mut ChatData, prompt: i64, name: &str)
    requires
        old(chat).wf(),
    ensures
        final(chat).wf(),
        final(chat)@ == with_template(old(chat)@, prompt, name@),
{
    let changed = match chat.edit_message.get(&prompt) {
        Some(edit) => {
            let mut copy = edit.duplicate();
            copy.template = name.to_owned();
            Some(copy)
        },
        None => None,
    };
    match changed {
        Some(edit) => {
            chat.edit_message.insert(prompt, edit);
        },
        None => {},
    }
}

// ---- laws ----

/// Skipping never forwards, whatever else is set, and no later press on the same
/// prompt does.
pub proof fn law_skipping_never_forwards(
    c: ChatView,
    chat_id: i64,
    prompt: i64,
    ttl: int,
    now: int,
    data: Seq<char>,
    later: int,
)
    requires
        c.edit_message.contains_key(prompt),
        !crate::state::prompt_expired(c.edit_message[prompt], ttl, now),
    ensures
        press(c, chat_id, prompt, SKIP@, ttl, now) matches CallbackView::Answer(a)
            && a.drop_record && a.delete_prompt,
        press(without_prompt(c, prompt), chat_id, prompt, data, ttl, later)
            == CallbackView::Answer(answered("Expired"@, false, false)),
{
}

/// An expired prompt can only be answered: no button of it forwards or edits.
pub proof fn law_expired_prompts_do_nothing(
    c: ChatView,
    chat_id: i64,
    prompt: i64,
    data: Seq<char>,
    ttl: int,
    now: int,
)
    requires
        c.edit_message.contains_key(prompt) ==> crate::state::prompt_expired(
            c.edit_message[prompt],
            ttl,
            now,
        ),
    ensures
        press(c, chat_id, prompt, data, ttl, now) matches CallbackView::Answer(a) && a.text
            == Some("Expired"@),
{
}

/// Each button of a prompt does what it says: the template's puts that template
/// in, and the other two settle the prompt.
pub proof fn law_buttons_do_what_they_say(
    c: ChatView,
    chat_id: i64,
    prompt: i64,
    name: Seq<char>,
    ttl: int,
    now: int,
)
    requires
        c.edit_message.contains_key(prompt),
        !crate::state::prompt_expired(c.edit_message[prompt], ttl, now),
        c.edit_message[prompt].forward_message_ids.len() > 0,
        c.template.contains_key(name),
        c.forward_channel_id is Some,
    ensures
        press(
            c,
            chat_id,
            prompt,
            crate::send::post::template_button(name).data,
            ttl,
            now,
        ) matches CallbackView::EditCaption { caption, template, .. } && caption == c.template[name]
            && template == name,
        press(
            c,
            chat_id,
            prompt,
            crate::send::post::confirm_button().data,
            ttl,
            now,
        ) is Forward,
        press(
            c,
            chat_id,
            prompt,
            crate::send::post::skip_button().data,
            ttl,
            now,
        ) == CallbackView::Answer(answered("Skipped — nothing was forwarded."@, true, true)),
{
    let data = crate::send::post::template_button(name).data;
    reveal_strlit("template|");
    reveal_strlit("skip");
    reveal_strlit("forward");
    assert(data.skip("template|"@.len() as int) =~= name);
    assert(data.subrange(0, "template|"@.len() as int) =~= "template|"@);
    assert(data[0] == 't');
    assert("skip"@[0] == 's' && "forward"@[0] == 'f');
}

/// The button that confirms copies every message that the prompt is about, in order,
/// out of the chat they were sent to and into the chat's channel; a failure is told in
/// reply to the prompt. Without a channel the prompt stays as it is.
pub proof fn law_confirming_forwards_what_was_sent(
    c: ChatView,
    chat_id: i64,
    prompt: i64,
    ttl: int,
    now: int,
)
    requires
        c.edit_message.contains_key(prompt),
        !crate::state::prompt_expired(c.edit_message[prompt], ttl, now),
    ensures
        c.forward_channel_id matches Some(channel) ==> (press(
            c,
            chat_id,
            prompt,
            crate::send::post::confirm_button().data,
            ttl,
            now,
        ) matches CallbackView::Forward(task) && task matches TaskView::ForwardMessages {
            from_chat_id,
            to_chat_id,
            message_ids,
            notify_chat_id,
            notify_message_id,
        } && from_chat_id == c.edit_message[prompt].chat_id && to_chat_id == channel && message_ids
            == c.edit_message[prompt].forward_message_ids && notify_chat_id == Some(chat_id)
            && notify_message_id == Some(prompt)),
        c.forward_channel_id is None ==> (press(
            c,
            chat_id,
            prompt,
            crate::send::post::confirm_button().data,
            ttl,
            now,
        ) matches CallbackView::Answer(a) && !a.drop_record && !a.delete_prompt),
{
    reveal_strlit("skip");
    reveal_strlit("forward");
    assert("skip"@[0] == 's' && "forward"@[0] == 'f');
}

/// A template's button changes the caption of the first message that the prompt is
/// about, to the template of that name. Once it is recorded, a reply to the prompt is
/// put into that template, and nothing else of the chat changed.
pub proof fn law_templates_go_onto_the_first_message(
    c: ChatView,
    chat_id: i64,
    prompt: i64,
    other: i64,
    name: Seq<char>,
    words: Seq<char>,
    ttl: int,
    now: int,
)
    requires
        c.edit_message.contains_key(prompt),
        !crate::state::prompt_expired(c.edit_message[prompt], ttl, now),
        c.edit_message[prompt].forward_message_ids.len() > 0,
        c.template.contains_key(name),
        name.len() > 0,
    ensures
        press(
            c,
            chat_id,
            prompt,
            crate::send::post::template_button(name).data,
            ttl,
            now,
        ) matches CallbackView::EditCaption { message_id, caption, template } && message_id
            == c.edit_message[prompt].forward_message_ids.first() && caption == c.template[name]
            && template == name,
        ({
            let after = with_template(c, prompt, name);
            let edit = c.edit_message[prompt];
            &&& after.template == c.template
            &&& after.message_format == c.message_format
            &&& after.forward_channel_id == c.forward_channel_id
            &&& after.edit_before_forward == c.edit_before_forward
            &&& other != prompt ==> after.edit_message.contains_key(other)
                == c.edit_message.contains_key(other) && after.edit_message[other]
                == c.edit_message[other]
            &&& after.edit_message.contains_key(prompt)
            &&& after.edit_message[prompt].url == edit.url
            &&& after.edit_message[prompt].chat_id == edit.chat_id
            &&& after.edit_message[prompt].forward_message_ids == edit.forward_message_ids
            &&& after.edit_message[prompt].created_at == edit.created_at
            &&& super::edit::reply_step(after, prompt, words, ttl, now)
                matches super::edit::EditStepView::EditCaption { message_id, caption } && message_id
                == edit.forward_message_ids.first() && caption == crate::text::replaced(
                c.template[name],
                seq!['[', ']'],
                super::edit::link_of(edit.url, words),
            )
        }),
{
    lemma_template_press(name);
    reveal_strlit("[]");
    assert("[]"@ =~= seq!['[', ']']);
}

proof fn lemma_template_press(name: Seq<char>)
    ensures
        pressed_template(crate::send::post::template_button(name).data) == Some(name),
        crate::send::post::template_button(name).data != SKIP@,
        crate::send::post::template_button(name).data != FORWARD@,
{
    let data = crate::send::post::template_button(name).data;
    reveal_strlit("template|");
    reveal_strlit("skip");
    reveal_strlit("forward");
    assert(data.skip("template|"@.len() as int) =~= name);
    assert(data.subrange(0, "template|"@.len() as int) =~= "template|"@);
    assert(data[0] == 't');
    assert("skip"@[0] == 's' && "forward"@[0] == 'f');
}

/// Giving up a prompt takes that prompt alone.
pub proof fn law_prompts_are_given_up_one_by_one(c: ChatView, prompt: i64, other: i64)
    ensures
        ({
            let after = without_prompt(c, prompt);
            &&& !after.edit_message.contains_key(prompt)
            &&& other != prompt ==> after.edit_message.contains_key(other)
                == c.edit_message.contains_key(other)
            &&& other != prompt && c.edit_message.contains_key(other)
                ==> after.edit_message[other] == c.edit_message[other]
            &&& after.template == c.template
            &&& after.message_format == c.message_format
            &&& after.forward_channel_id == c.forward_channel_id
            &&& after.edit_before_forward == c.edit_before_forward
        }),
{
}

/// A copy that went through settles its prompt, one that can be repeated is queued as it
/// is, and one that failed for good leaves the prompt open and says why.
pub proof fn law_failed_copies_leave_the_prompt_open(result: Result<(), SendErrorView>)
    ensures
        match result {
            Ok(_) => forward_pressed(result) matches ForwardPressView::Answer(a) && a.drop_record
                && a.delete_prompt,
            Err(SendErrorView::Retryable { delay_ms: wait, task: kept }) => forward_pressed(result)
                matches ForwardPressView::Enqueue { task, delay_ms } && task == kept && delay_ms
                == wait,
            Err(SendErrorView::Permanent { message, .. }) => forward_pressed(result)
                matches ForwardPressView::Answer(a) && !a.drop_record && !a.delete_prompt && (
            a.text matches Some(text) && message.is_suffix_of(text)),
        },
{
    if let Err(SendErrorView::Permanent { message, .. }) = result {
        let text = "Forward failed: "@ + message;
        assert(text.subrange(text.len() - message.len(), text.len() as int) =~= message);
    }
}

/// A template that is gone changes nothing: the prompt stays as it is. Data that none of
/// the bot's buttons carries is passed over.
pub proof fn law_unknown_buttons_change_nothing(
    c: ChatView,
    chat_id: i64,
    prompt: i64,
    name: Seq<char>,
    data: Seq<char>,
    ttl: int,
    now: int,
)
    requires
        c.edit_message.contains_key(prompt),
        !crate::state::prompt_expired(c.edit_message[prompt], ttl, now),
        !c.template.contains_key(name),
        data.len() == 0 || (data[0] != 's' && data[0] != 'f' && data[0] != 't'),
    ensures
        press(
            c,
            chat_id,
            prompt,
            crate::send::post::template_button(name).data,
            ttl,
            now,
        ) matches CallbackView::Answer(a) && a.text is None && !a.drop_record && !a.delete_prompt,
        press(c, chat_id, prompt, data, ttl, now) is Ignore,
{
    lemma_template_press(name);
    reveal_strlit("template|");
    reveal_strlit("skip");
    reveal_strlit("forward");
    assert("skip"@[0] == 's' && "forward"@[0] == 'f' && "template|"@[0] == 't');
    if crate::text::begins_with(data, "template|"@) {
        assert(data.subrange(0, "template|"@.len() as int)[0] == data[0]);
    }
}

} // verus!
