//! What follows a send: the prompt to edit it, the copy in the channel, and what
//! the user is told where it failed.
use super::classify::{SendError, SendErrorView};
use super::task::{Task, TaskView};
use crate::json::{json_field, JsonField, JsonFieldView};
use crate::names::sorted_names;
use crate::state::{duplicate_ids, ChatData, ChatView, EditMessage, EditView};
use crate::table::Table;
use crate::text::decimal;
use vstd::prelude::*;

verus! {

/// How many templates a prompt offers at most.
pub const MAX_TEMPLATE_BUTTONS: usize = 60;

/// What a prompt says once it expired.
pub const EDIT_PROMPT_EXPIRED_TEXT: &'static str = "Expired — nothing was forwarded.";

// ---- the prompt ----

/// A button under a message. Each stands in a row of its own.
#[derive(Debug)]
pub struct Button {
    pub label: String,
    /// What the service sends back when it is pressed.
    pub data: String,
}

/// [`Button`] over mathematical text.
#[verifier::ext_equal]
pub struct ButtonView {
    pub label: Seq<char>,
    pub data: Seq<char>,
}

impl View for Button {
    type V = ButtonView;

    open spec fn view(&self) -> ButtonView {
        ButtonView { label: self.label@, data: self.data@ }
    }
}

pub open spec fn button_views(v: Seq<Button>) -> Seq<ButtonView> {
    v.map_values(|b: Button| b@)
}

pub open spec fn template_button(name: Seq<char>) -> ButtonView {
    ButtonView { label: name, data: "template|"@ + name }
}

pub open spec fn confirm_button() -> ButtonView {
    ButtonView { label: "↩️ Confirm"@, data: "forward"@ }
}

pub open spec fn skip_button() -> ButtonView {
    ButtonView { label: "🛑 Skip"@, data: "skip"@ }
}

/// The first of some names.
pub open spec fn first_of<T>(s: Seq<T>, n: nat) -> Seq<T> {
    if s.len() <= n {
        s
    } else {
        s.take(n as int)
    }
}

/// The buttons of a prompt: the templates in the order of their names, then the
/// two that settle it.
pub open spec fn edit_keyboard(templates: Map<Seq<char>, Seq<char>>) -> Seq<ButtonView> {
    first_of(
        crate::names::in_order(templates.dom()),
        MAX_TEMPLATE_BUTTONS as nat,
    ).map_values(|name: Seq<char>| template_button(name)).push(confirm_button()).push(skip_button())
}

fn make_button(label: &str, data: &str) -> (r: Button)
    ensures
        r@ == (ButtonView { label: label@, data: data@ }),
{
    Button { label: label.to_owned(), data: data.to_owned() }
}

pub fn build_edit_markup(templates: &Table<String, String>) -> (r: Vec<Button>)
    requires
        templates.wf(),
    ensures
        button_views(r@) == edit_keyboard(templates@),
{
    let names = sorted_names(templates);
    let ghost all = crate::text::texts(names@);
    let ghost show = |name: Seq<char>| template_button(name);
    let mut out: Vec<Button> = Vec::new();
    let mut i: usize = 0;
    assert(button_views(out@) =~= all.take(0).map_values(show));
    while i < names.len() && i < MAX_TEMPLATE_BUTTONS
        invariant
            all == crate::text::texts(names@),
            show == (|name: Seq<char>| template_button(name)),
            i <= names@.len(),
            i <= MAX_TEMPLATE_BUTTONS,
            button_views(out@) == all.take(i as int).map_values(show),
        decreases names@.len() - i,
    {
        let mut data = "template|".to_owned();
        data.append(names[i].as_str());
        let ghost had = out@;
        out.push(make_button(names[i].as_str(), data.as_str()));
        proof {
            assert(all.take(i + 1) =~= all.take(i as int).push(all[i as int]));
            assert(all.take(i + 1).map_values(show) =~= all.take(i as int).map_values(show).push(
                show(all[i as int]),
            ));
            assert(button_views(out@) =~= button_views(had).push(template_button(all[i as int])));
        }
        i = i + 1;
    }
    assert(all.take(i as int) =~= first_of(all, MAX_TEMPLATE_BUTTONS as nat));
    let ghost shown = out@;
    out.push(make_button("↩️ Confirm", "forward"));
    out.push(make_button("🛑 Skip", "skip"));
    assert(button_views(out@) =~= button_views(shown).push(confirm_button()).push(skip_button()));
    out
}

/// A time in the largest unit that it is a multiple of.
pub open spec fn duration_text(seconds: nat) -> Seq<char> {
    if seconds > 0 && seconds % 3600 == 0 {
        crate::text::digits(seconds / 3600) + " h"@
    } else if seconds > 0 && seconds % 60 == 0 {
        crate::text::digits(seconds / 60) + " min"@
    } else {
        crate::text::digits(seconds) + " s"@
    }
}

pub fn duration(seconds: u64) -> (r: String)
    ensures
        r@ == duration_text(seconds as nat),
{
    if seconds > 0 && seconds % 3600 == 0 {
        let mut out = decimal(seconds / 3600);
        out.append(" h");
        out
    } else if seconds > 0 && seconds % 60 == 0 {
        let mut out = decimal(seconds / 60);
        out.append(" min");
        out
    } else {
        let mut out = decimal(seconds);
        out.append(" s");
        out
    }
}

/// What a prompt says. It states when it expires.
pub open spec fn prompt_text(ttl: nat) -> Seq<char> {
    "Reply to edit message. Expires in "@ + duration_text(ttl) + "."@
}

pub fn edit_prompt_text(ttl: u64) -> (r: String)
    ensures
        r@ == prompt_text(ttl as nat),
{
    let mut out = "Reply to edit message. Expires in ".to_owned();
    out.append(duration(ttl).as_str());
    out.append(".");
    out
}

// ---- after a send ----

/// What follows a send that went through.
#[derive(Debug)]
pub enum PostSendStep {
    Nothing,
    /// Open a prompt; once it stands, it is recorded with [`record_prompt`].
    Prompt { chat_id: i64, reply_to: i64, text: String, keyboard: Vec<Button> },
    /// Copy the messages to the channel.
    Forward(Task),
}

/// [`PostSendStep`] over mathematical values.
pub enum PostSendView {
    Nothing,
    Prompt { chat_id: i64, reply_to: i64, text: Seq<char>, keyboard: Seq<ButtonView> },
    Forward(TaskView),
}

impl View for PostSendStep {
    type V = PostSendView;

    open spec fn view(&self) -> PostSendView {
        match self {
            PostSendStep::Nothing => PostSendView::Nothing,
            PostSendStep::Prompt { chat_id, reply_to, text, keyboard } => PostSendView::Prompt {
                chat_id: *chat_id,
                reply_to: *reply_to,
                text: text@,
                keyboard: button_views(keyboard@),
            },
            PostSendStep::Forward(task) => PostSendView::Forward(task@),
        }
    }
}

/// A prompt comes before a copy; a copy needs a channel; a copy itself is
/// followed by nothing.
pub open spec fn follows_send(
    t: TaskView,
    ids: Seq<i64>,
    templates: Map<Seq<char>, Seq<char>>,
    ttl: nat,
) -> PostSendView {
    match t {
        TaskView::ForwardMessages { .. } => PostSendView::Nothing,
        TaskView::SendMediaSequence {
            chat_id,
            reply_to_message_id,
            edit_before_forward,
            forward_channel_id,
            notify_chat_id,
            notify_message_id,
            ..
        } => after_delivery(
            chat_id,
            reply_to_message_id,
            edit_before_forward,
            forward_channel_id,
            notify_chat_id,
            notify_message_id,
            ids,
            templates,
            ttl,
        ),
        TaskView::SendAnimation {
            chat_id,
            reply_to_message_id,
            edit_before_forward,
            forward_channel_id,
            notify_chat_id,
            notify_message_id,
            ..
        } => after_delivery(
            chat_id,
            reply_to_message_id,
            edit_before_forward,
            forward_channel_id,
            notify_chat_id,
            notify_message_id,
            ids,
            templates,
            ttl,
        ),
    }
}

pub open spec fn after_delivery(
    chat_id: i64,
    reply_to: i64,
    edit: bool,
    channel: Option<i64>,
    notify_chat_id: Option<i64>,
    notify_message_id: Option<i64>,
    ids: Seq<i64>,
    templates: Map<Seq<char>, Seq<char>>,
    ttl: nat,
) -> PostSendView {
    if edit {
        PostSendView::Prompt {
            chat_id,
            reply_to,
            text: prompt_text(ttl),
            keyboard: edit_keyboard(templates),
        }
    } else {
        match channel {
            Some(to) => PostSendView::Forward(
                TaskView::ForwardMessages {
                    from_chat_id: chat_id,
                    to_chat_id: to,
                    message_ids: ids,
                    notify_chat_id,
                    notify_message_id,
                },
            ),
            None => PostSendView::Nothing,
        }
    }
}

/// What follows a send that went through. `templates` are those of the chat, and
/// `ttl` is how many seconds a prompt lives.
pub fn post_send_actions(
    task: &Task,
    message_ids: &Vec<i64>,
    templates: &Table<String, String>,
    ttl: u64,
) -> (r: PostSendStep)
    requires
        templates.wf(),
    ensures
        r@ == follows_send(task@, message_ids@, templates@, ttl as nat),
{
    let (chat_id, reply_to, edit, channel, notify_chat_id, notify_message_id) = match task {
        Task::ForwardMessages { .. } => {
            return PostSendStep::Nothing;
        },
        Task::SendMediaSequence {
            chat_id,
            reply_to_message_id,
            edit_before_forward,
            forward_channel_id,
            notify_chat_id,
            notify_message_id,
            ..
        } => (
            *chat_id,
            *reply_to_message_id,
            *edit_before_forward,
            *forward_channel_id,
            *notify_chat_id,
            *notify_message_id,
        ),
        Task::SendAnimation {
            chat_id,
            reply_to_message_id,
            edit_before_forward,
            forward_channel_id,
            notify_chat_id,
            notify_message_id,
            ..
        } => (
            *chat_id,
            *reply_to_message_id,
            *edit_before_forward,
            *forward_channel_id,
            *notify_chat_id,
            *notify_message_id,
        ),
    };
    if edit {
        return PostSendStep::Prompt {
            chat_id,
            reply_to,
            text: edit_prompt_text(ttl),
            keyboard: build_edit_markup(templates),
        };
    }
    match channel {
        Some(to) => PostSendStep::Forward(
            Task::ForwardMessages {
                from_chat_id: chat_id,
                to_chat_id: to,
                message_ids: duplicate_ids(message_ids),
                notify_chat_id,
                notify_message_id,
            },
        ),
        None => PostSendStep::Nothing,
    }
}

/// A chat after a prompt was opened in it.
pub open spec fn prompted(c: ChatView, prompt: i64, record: EditView) -> ChatView {
    ChatView { edit_message: c.edit_message.insert(prompt, record), ..c }
}

/// Records an open prompt and the messages it is about.
pub fn record_prompt(
    data: &mut ChatData,
    prompt: i64,
    chat_id: i64,
    source_url: &str,
    message_ids: Vec<i64>,
    now: i64,
)
    requires
        old(data).wf(),
    ensures
        final(data).wf(),
        final(data)@ == prompted(
            old(data)@,
            prompt,
            EditView {
                url: source_url@,
                chat_id,
                forward_message_ids: message_ids@,
                template: Seq::empty(),
                created_at: now,
            },
        ),
{
    let record = EditMessage {
        url: source_url.to_owned(),
        chat_id,
        forward_message_ids: message_ids,
        template: String::new(),
        created_at: now,
    };
    assert(record@.template =~= Seq::<char>::empty());
    data.edit_message.insert(prompt, record);
}

// ---- telling the user ----

/// A message to a chat, as a reply where there is something to reply to.
#[derive(Debug)]
pub struct Notice {
    pub chat_id: i64,
    pub reply_to: Option<i64>,
    pub text: String,
}

/// [`Notice`] over mathematical text.
pub struct NoticeView {
    pub chat_id: i64,
    pub reply_to: Option<i64>,
    pub text: Seq<char>,
}

impl View for Notice {
    type V = NoticeView;

    open spec fn view(&self) -> NoticeView {
        NoticeView { chat_id: self.chat_id, reply_to: self.reply_to, text: self.text@ }
    }
}

pub open spec fn notice_option(n: Option<Notice>) -> Option<NoticeView> {
    match n {
        Some(n) => Some(n@),
        None => None,
    }
}

/// The notice about a task; none where nobody asked for one.
pub open spec fn notice_of(
    chat_id: Option<i64>,
    message_id: Option<i64>,
    text: Seq<char>,
) -> Option<NoticeView> {
    match chat_id {
        Some(chat_id) => Some(NoticeView { chat_id, reply_to: message_id, text }),
        None => None,
    }
}

pub fn notify_failure(chat_id: Option<i64>, message_id: Option<i64>, message: &str) -> (r: Option<
    Notice,
>)
    ensures
        notice_option(r) == notice_of(chat_id, message_id, message@),
{
    match chat_id {
        Some(chat_id) => Some(
            Notice { chat_id, reply_to: message_id, text: message.to_owned() },
        ),
        None => None,
    }
}

/// What the user reads of a task that was given up. `key` names the post, where
/// the task has one.
pub open spec fn failure_words(key: Option<Seq<char>>, message: Seq<char>) -> Seq<char> {
    match key {
        Some(key) => "Task failed after retries for "@ + key + ": "@ + message,
        None => "Task failed after retries: "@ + message,
    }
}

pub fn failure_text(key: Option<&str>, message: &str) -> (r: String)
    ensures
        r@ == failure_words(crate::queue::token_view(key), message@),
{
    match key {
        Some(key) => {
            let mut out = "Task failed after retries for ".to_owned();
            out.append(key);
            out.append(": ");
            out.append(message);
            out
        },
        None => {
            let mut out = "Task failed after retries: ".to_owned();
            out.append(message);
            out
        },
    }
}

/// The number under a field of a payload, if it is one.
pub open spec fn number_in(field: JsonFieldView) -> Option<i64> {
    match field {
        JsonFieldView::Int(n) => Some(n),
        _ => None,
    }
}

fn number(field: JsonField) -> (r: Option<i64>)
    ensures
        r == number_in(field@),
{
    match field {
        JsonField::Int(n) => Some(n),
        _ => None,
    }
}

/// The notice about a row that was given up, from the two fields of its payload
/// that say whom to tell.
pub fn dead_letter_notice(chat: JsonField, reply: JsonField, key: Option<&str>, message: &str) -> (r:
    Option<Notice>)
    ensures
        notice_option(r) == notice_of(
            number_in(chat@),
            number_in(reply@),
            failure_words(crate::queue::token_view(key), message@),
        ),
{
    notify_failure(number(chat), number(reply), failure_text(key, message).as_str())
}

/// The notice about a row that was given up.
pub fn dead_letter_notify(payload: &str, key: Option<&str>, message: &str) -> (r: Option<Notice>)
    ensures
        notice_option(r) == notice_of(
            number_in(crate::json::json_field_of(payload@, "notify_chat_id"@)),
            number_in(crate::json::json_field_of(payload@, "notify_message_id"@)),
            failure_words(crate::queue::token_view(key), message@),
        ),
{
    dead_letter_notice(
        json_field(payload, "notify_chat_id"),
        json_field(payload, "notify_message_id"),
        key,
        message,
    )
}

// ---- after a copy ----

/// What follows the attempt to copy messages to the channel.
#[derive(Debug)]
pub enum ForwardStep {
    Done,
    Enqueue { task: Task, delay_ms: u64 },
    Notify(Notice),
}

pub enum ForwardView {
    Done,
    Enqueue { task: TaskView, delay_ms: int },
    Notify(NoticeView),
}

impl View for ForwardStep {
    type V = ForwardView;

    open spec fn view(&self) -> ForwardView {
        match self {
            ForwardStep::Done => ForwardView::Done,
            ForwardStep::Enqueue { task, delay_ms } => ForwardView::Enqueue {
                task: task@,
                delay_ms: *delay_ms as int,
            },
            ForwardStep::Notify(n) => ForwardView::Notify(n@),
        }
    }
}

pub open spec fn unit_result(r: Result<(), SendError>) -> Result<(), SendErrorView> {
    match r {
        Ok(()) => Ok(()),
        Err(e) => Err(e@),
    }
}

/// A copy that may be tried again is queued; one that failed for good is told to
/// whoever asked for it.
pub open spec fn forward_step(
    result: Result<(), SendErrorView>,
    notify: (Option<i64>, Option<i64>),
    key: Option<Seq<char>>,
) -> ForwardView {
    match result {
        Ok(()) => ForwardView::Done,
        Err(SendErrorView::Retryable { delay_ms, task }) => ForwardView::Enqueue {
            task,
            delay_ms,
        },
        Err(SendErrorView::Permanent { message, .. }) => match notice_of(
            notify.0,
            notify.1,
            failure_words(key, message),
        ) {
            Some(n) => ForwardView::Notify(n),
            None => ForwardView::Done,
        },
    }
}

pub fn after_forward(
    result: Result<(), SendError>,
    notify_chat_id: Option<i64>,
    notify_message_id: Option<i64>,
    key: Option<&str>,
) -> (r: ForwardStep)
    ensures
        r@ == forward_step(
            unit_result(result),
            (notify_chat_id, notify_message_id),
            crate::queue::token_view(key),
        ),
{
    match result {
        Ok(()) => ForwardStep::Done,
        Err(SendError::Retryable { delay_ms, task }) => ForwardStep::Enqueue { task, delay_ms },
        Err(SendError::Permanent { message, .. }) => {
            let text = failure_text(key, message.as_str());
            match notify_failure(notify_chat_id, notify_message_id, text.as_str()) {
                Some(n) => ForwardStep::Notify(n),
                None => ForwardStep::Done,
            }
        },
    }
}

// ---- a task of the queue ----

/// What an attempt at a queued task comes to.
#[derive(Debug)]
pub enum TaskStep {
    /// The task went through. Its messages are followed by their post-send
    /// actions, where it sent any.
    Done { post_send: Option<Vec<i64>> },
    /// The task goes back with the state it carries.
    Retry { delay_ms: u64, task: Task },
    /// The task is given up. `invalidate` says that the cache entry it was sent
    /// from stopped working.
    Fail { message: String, task: Task, invalidate: bool },
}

pub enum TaskStepView {
    Done { post_send: Option<Seq<i64>> },
    Retry { delay_ms: int, task: TaskView },
    Fail { message: Seq<char>, task: TaskView, invalidate: bool },
}

pub open spec fn ids_option(v: Option<Vec<i64>>) -> Option<Seq<i64>> {
    match v {
        Some(v) => Some(v@),
        None => None,
    }
}

impl View for TaskStep {
    type V = TaskStepView;

    open spec fn view(&self) -> TaskStepView {
        match self {
            TaskStep::Done { post_send } => TaskStepView::Done { post_send: ids_option(*post_send) },
            TaskStep::Retry { delay_ms, task } => TaskStepView::Retry {
                delay_ms: *delay_ms as int,
                task: task@,
            },
            TaskStep::Fail { message, task, invalidate } => TaskStepView::Fail {
                message: message@,
                task: task@,
                invalidate: *invalidate,
            },
        }
    }
}

pub open spec fn ids_result(r: Result<Vec<i64>, SendError>) -> Result<Seq<i64>, SendErrorView> {
    match r {
        Ok(v) => Ok(v@),
        Err(e) => Err(e@),
    }
}

/// What an attempt at a task comes to.
pub open spec fn task_step(t: TaskView, result: Result<Seq<i64>, SendErrorView>) -> TaskStepView {
    match result {
        Ok(ids) => TaskStepView::Done {
            post_send: if t is ForwardMessages {
                None
            } else {
                Some(ids)
            },
        },
        Err(SendErrorView::Retryable { delay_ms, task }) => TaskStepView::Retry { delay_ms, task },
        Err(SendErrorView::Permanent { message, task }) => TaskStepView::Fail {
            message,
            task,
            invalidate: super::run::invalidated(task),
        },
    }
}

/// Settles an attempt at a queued task.
pub fn handle_task(task: &Task, result: Result<Vec<i64>, SendError>) -> (r: TaskStep)
    ensures
        r@ == task_step(task@, ids_result(result)),
{
    match result {
        Ok(ids) => {
            let post_send = match task {
                Task::ForwardMessages { .. } => None,
                _ => Some(ids),
            };
            TaskStep::Done { post_send }
        },
        Err(SendError::Retryable { delay_ms, task }) => TaskStep::Retry { delay_ms, task },
        Err(SendError::Permanent { message, task }) => {
            let invalidate = super::run::invalidates_cache(&task);
            TaskStep::Fail { message, task, invalidate }
        },
    }
}

// ---- files kept for a retry ----

/// Whether a piece of a path names anything.
pub open spec fn is_name(piece: Seq<char>) -> bool {
    piece.len() > 0 && piece != "."@
}

/// What a path begins with: the root, the current directory where it says so, or
/// nothing.
pub open spec fn path_start(path: Seq<char>) -> Seq<Seq<char>> {
    if crate::text::begins_with(path, "/"@) {
        seq!["/"@]
    } else if crate::text::pieces(path, '/')[0] == "."@ {
        seq!["."@]
    } else {
        Seq::empty()
    }
}

/// The components of a path. Slashes that are doubled or trail, and dots between
/// them, make none.
pub open spec fn components(path: Seq<char>) -> Seq<Seq<char>> {
    path_start(path) + crate::text::pieces(path, '/').filter(|piece: Seq<char>| is_name(piece))
}

/// Whether a file stands in a directory: its path begins with the components of
/// the directory's.
pub open spec fn stands_in(path: Seq<char>, dir: Seq<char>) -> bool {
    components(dir).is_prefix_of(components(path))
}

/// Whether a directory holds a file that a task needs.
pub open spec fn holds_media(dir: Seq<char>, t: TaskView) -> bool {
    exists|i: int|
        0 <= i < super::task::local_paths(t).len() && stands_in(
            #[trigger] super::task::local_paths(t)[i],
            dir,
        )
}

fn components_of(path: &str) -> (r: Vec<String>)
    ensures
        crate::text::texts(r@) == components(path@),
{
    let pieces = crate::text::split_on(path, '/');
    let ghost all = crate::text::pieces(path@, '/');
    let ghost named = |piece: Seq<char>| is_name(piece);
    let mut out: Vec<String> = Vec::new();
    assert(all[0] == pieces@[0]@);
    if crate::text::starts_with(path, "/") {
        out.push("/".to_owned());
    } else if crate::text::same(pieces[0].as_str(), ".") {
        out.push(".".to_owned());
    }
    let mut i: usize = 0;
    proof {
        reveal(Seq::filter);
        assert(all.take(0).filter(named) =~= Seq::<Seq<char>>::empty());
        assert(crate::text::texts(out@) =~= path_start(path@) + all.take(0).filter(named));
    }
    while i < pieces.len()
        invariant
            all == crate::text::texts(pieces@),
            named == (|piece: Seq<char>| is_name(piece)),
            i <= pieces@.len(),
            crate::text::texts(out@) == path_start(path@) + all.take(i as int).filter(named),
        decreases pieces@.len() - i,
    {
        proof {
            reveal(Seq::filter);
            assert(all.take(i + 1).drop_last() =~= all.take(i as int));
            assert(all.take(i + 1).last() == pieces@[i as int]@);
        }
        if crate::text::chars_of(pieces[i].as_str()).len() > 0 && !crate::text::same(
            pieces[i].as_str(),
            ".",
        ) {
            let ghost had = out@;
            out.push(pieces[i].clone());
            proof {
                assert(crate::text::texts(out@) =~= crate::text::texts(had).push(
                    pieces@[i as int]@,
                ));
                assert(path_start(path@) + all.take(i as int).filter(named).push(
                    pieces@[i as int]@,
                ) =~= (path_start(path@) + all.take(i as int).filter(named)).push(
                    pieces@[i as int]@,
                ));
            }
        }
        i = i + 1;
    }
    assert(all.take(i as int) =~= all);
    out
}

fn is_inside(path: &str, dir: &str) -> (r: bool)
    ensures
        r == stands_in(path@, dir@),
{
    let file = components_of(path);
    let base = components_of(dir);
    let ghost whole = components(path@);
    let ghost start = components(dir@);
    if base.len() > file.len() {
        return false;
    }
    let mut i: usize = 0;
    while i < base.len()
        invariant
            whole == crate::text::texts(file@),
            start == crate::text::texts(base@),
            base@.len() <= file@.len(),
            i <= base@.len(),
            forall|j: int| 0 <= j < i ==> #[trigger] start[j] == whole[j],
            whole == components(path@),
            start == components(dir@),
        decreases base@.len() - i,
    {
        assert(start[i as int] == base@[i as int]@);
        assert(whole[i as int] == file@[i as int]@);
        if !crate::text::same(base[i].as_str(), file[i].as_str()) {
            assert(start[i as int] != whole.subrange(0, start.len() as int)[i as int]);
            return false;
        }
        i = i + 1;
    }
    assert(start =~= whole.subrange(0, start.len() as int));
    true
}

/// Which of the directories that are kept alive hold media of a task, so that
/// they can go once it is settled.
pub fn release_keep_alive(dirs: &Vec<String>, task: &Task) -> (r: Vec<bool>)
    ensures
        r@ == crate::text::texts(dirs@).map_values(|dir: Seq<char>| holds_media(dir, task@)),
{
    let paths = task.local_media_paths();
    let ghost files = super::task::local_paths(task@);
    let mut out: Vec<bool> = Vec::new();
    let mut d: usize = 0;
    while d < dirs.len()
        invariant
            files == super::task::local_paths(task@),
            files == crate::text::texts(paths@),
            d <= dirs@.len(),
            out@.len() == d,
            forall|j: int| 0 <= j < d ==> #[trigger] out@[j] == holds_media(dirs@[j]@, task@),
        decreases dirs@.len() - d,
    {
        let mut found = false;
        let mut i: usize = 0;
        while i < paths.len()
            invariant
                files == super::task::local_paths(task@),
                files == crate::text::texts(paths@),
                d < dirs@.len(),
                i <= paths@.len(),
                found ==> holds_media(dirs@[d as int]@, task@),
                !found ==> forall|j: int|
                    0 <= j < i ==> !stands_in(#[trigger] files[j], dirs@[d as int]@),
            decreases paths@.len() - i,
        {
            assert(files[i as int] == paths@[i as int]@);
            if is_inside(paths[i].as_str(), dirs[d].as_str()) {
                found = true;
                assert(stands_in(files[i as int], dirs@[d as int]@));
            }
            i = i + 1;
        }
        out.push(found);
        d = d + 1;
    }
    assert(out@ =~= crate::text::texts(dirs@).map_values(
        |dir: Seq<char>| holds_media(dir, task@),
    ));
    out
}

// ---- laws ----

/// A prompt offers at most the template buttons it may, and it always ends in the
/// two buttons that settle it.
pub proof fn law_every_prompt_can_be_settled(templates: Map<Seq<char>, Seq<char>>)
    ensures
        edit_keyboard(templates).len() <= MAX_TEMPLATE_BUTTONS + 2,
        edit_keyboard(templates).len() >= 2,
        edit_keyboard(templates)[edit_keyboard(templates).len() - 2] == confirm_button(),
        edit_keyboard(templates).last() == skip_button(),
{
}

/// While a chat edits before it forwards, no send forwards by itself.
pub proof fn law_edited_posts_wait_for_confirmation(
    t: TaskView,
    ids: Seq<i64>,
    templates: Map<Seq<char>, Seq<char>>,
    ttl: nat,
)
    requires
        t matches TaskView::SendMediaSequence { edit_before_forward, .. } ==> edit_before_forward,
        t matches TaskView::SendAnimation { edit_before_forward, .. } ==> edit_before_forward,
    ensures
        !(follows_send(t, ids, templates, ttl) is Forward),
{
}

/// What is forwarded is exactly what was sent, out of the chat it was sent to.
pub proof fn law_the_channel_gets_what_was_sent(
    t: TaskView,
    ids: Seq<i64>,
    templates: Map<Seq<char>, Seq<char>>,
    ttl: nat,
)
    ensures
        follows_send(t, ids, templates, ttl) matches PostSendView::Forward(f) ==> (f matches
            TaskView::ForwardMessages { from_chat_id, message_ids, .. } && t.chat() == Some(
            from_chat_id,
        ) && message_ids == ids),
{
}

/// A prompt offers the chat's templates by their names, in the order of the names: each
/// button shows one name and asks for that template. All of them are offered where there
/// are at most sixty, else the first sixty.
pub proof fn law_prompts_offer_the_templates(templates: Map<Seq<char>, Seq<char>>, i: int)
    requires
        0 <= i < crate::names::in_order(templates.dom()).len(),
        i < 60,
    ensures
        ({
            let names = crate::names::in_order(templates.dom());
            let keyboard = edit_keyboard(templates);
            &&& keyboard.len() == 2 + if names.len() <= 60 {
                names.len()
            } else {
                60
            }
            &&& keyboard[i].label == names[i]
            &&& keyboard[i].data == seq!['t', 'e', 'm', 'p', 'l', 'a', 't', 'e', '|'] + names[i]
        }),
        confirm_button().data == seq!['f', 'o', 'r', 'w', 'a', 'r', 'd'],
        skip_button().data == seq!['s', 'k', 'i', 'p'],
{
    reveal_strlit("template|");
    reveal_strlit("forward");
    reveal_strlit("skip");
    assert("template|"@ =~= seq!['t', 'e', 'm', 'p', 'l', 'a', 't', 'e', '|']);
    assert("forward"@ =~= seq!['f', 'o', 'r', 'w', 'a', 'r', 'd']);
    assert("skip"@ =~= seq!['s', 'k', 'i', 'p']);
}

/// A time is told exactly: the number times its unit is the time.
pub proof fn law_durations_are_exact(n: nat)
    ensures
        n > 0 ==> duration_text(3600 * n) == crate::text::digits(n) + " h"@,
        n > 0 && n % 60 != 0 ==> duration_text(60 * n) == crate::text::digits(n) + " min"@,
        n == 0 || n % 60 != 0 ==> duration_text(n) == crate::text::digits(n) + " s"@,
{
    assert((3600 * n) % 3600 == 0 && (3600 * n) / 3600 == n);
    assert((60 * n) % 60 == 0 && (60 * n) / 60 == n);
    assert(n % 60 != 0 ==> (60 * n) % 3600 != 0);
}

/// What follows a send is decided by the task: a prompt in the chat, in reply to the
/// link, where posts are edited first; else a copy to the task's channel, where it has
/// one; else nothing. A failed copy is told to whoever would have been told of the send.
pub proof fn law_sends_are_followed_as_the_task_says(
    t: TaskView,
    ids: Seq<i64>,
    templates: Map<Seq<char>, Seq<char>>,
    ttl: nat,
)
    ensures
        match t {
            TaskView::SendMediaSequence {
                chat_id: chat,
                reply_to_message_id,
                edit_before_forward,
                forward_channel_id,
                ..
            } => {
                &&& follows_send(t, ids, templates, ttl) is Prompt <==> edit_before_forward
                &&& follows_send(t, ids, templates, ttl) is Forward <==> !edit_before_forward
                    && forward_channel_id is Some
                &&& follows_send(t, ids, templates, ttl) matches PostSendView::Prompt {
                    chat_id,
                    reply_to,
                    keyboard,
                    ..
                } ==> chat_id == chat && reply_to == reply_to_message_id && keyboard
                    == edit_keyboard(templates)
                &&& follows_send(t, ids, templates, ttl) matches PostSendView::Forward(f) ==> f
                    matches TaskView::ForwardMessages { from_chat_id, to_chat_id, message_ids, .. }
                    && from_chat_id == chat && Some(to_chat_id) == forward_channel_id && message_ids
                    == ids && f.notify() == t.notify()
            },
            TaskView::SendAnimation {
                chat_id: chat,
                reply_to_message_id,
                edit_before_forward,
                forward_channel_id,
                ..
            } => {
                &&& follows_send(t, ids, templates, ttl) is Prompt <==> edit_before_forward
                &&& follows_send(t, ids, templates, ttl) is Forward <==> !edit_before_forward
                    && forward_channel_id is Some
                &&& follows_send(t, ids, templates, ttl) matches PostSendView::Prompt {
                    chat_id,
                    reply_to,
                    keyboard,
                    ..
                } ==> chat_id == chat && reply_to == reply_to_message_id && keyboard
                    == edit_keyboard(templates)
                &&& follows_send(t, ids, templates, ttl) matches PostSendView::Forward(f) ==> f
                    matches TaskView::ForwardMessages { from_chat_id, to_chat_id, message_ids, .. }
                    && from_chat_id == chat && Some(to_chat_id) == forward_channel_id && message_ids
                    == ids && f.notify() == t.notify()
            },
            TaskView::ForwardMessages { .. } => follows_send(t, ids, templates, ttl) is Nothing,
        },
{
}

/// Opening a prompt records it under its own number, and touches neither the other
/// prompts nor anything the chat is set to.
pub proof fn law_prompts_are_recorded_apart(
    c: ChatView,
    prompt: i64,
    other: i64,
    record: EditView,
)
    ensures
        ({
            let after = prompted(c, prompt, record);
            &&& after.edit_message.contains_key(prompt)
            &&& after.edit_message[prompt] == record
            &&& other != prompt ==> after.edit_message.contains_key(other)
                == c.edit_message.contains_key(other) && after.edit_message[other]
                == c.edit_message[other]
            &&& after.edit_before_forward == c.edit_before_forward
            &&& after.forward_channel_id == c.forward_channel_id
            &&& after.template == c.template
        }),
{
}

/// A failure is told in the chat that asked for it, in reply to the message it asked
/// with, and says what went wrong and with which post; where nobody asked, nobody is
/// told.
pub proof fn law_failures_are_told_to_who_asked(
    chat: Option<i64>,
    message: Option<i64>,
    key: Option<Seq<char>>,
    reason: Seq<char>,
)
    ensures
        notice_of(chat, message, failure_words(key, reason)) is Some <==> chat is Some,
        notice_of(chat, message, failure_words(key, reason)) matches Some(n) ==> Some(n.chat_id)
            == chat && n.reply_to == message && reason.is_suffix_of(n.text) && (key matches Some(k)
            ==> crate::text::has(n.text, k)),
{
    let text = failure_words(key, reason);
    assert(text.subrange(text.len() - reason.len(), text.len() as int) =~= reason);
    if let Some(k) = key {
        let at = "Task failed after retries for "@.len() as int;
        assert(text.subrange(at, at + k.len()) =~= k);
        assert(crate::text::occurs_at(text, k, at));
    }
}

/// An attempt that can be repeated goes back with its own task and wait; one that
/// failed for good is given up with its reason, and takes a cache entry with it only
/// where the task was sent out of the cache. A copy is not followed by anything.
pub proof fn law_attempts_are_settled_by_their_result(
    t: TaskView,
    result: Result<Seq<i64>, SendErrorView>,
    copy: Result<(), SendErrorView>,
    notify: (Option<i64>, Option<i64>),
    key: Option<Seq<char>>,
)
    ensures
        match result {
            Ok(ids) => task_step(t, result) matches TaskStepView::Done { post_send } && post_send
                == if t is ForwardMessages {
                None::<Seq<i64>>
            } else {
                Some(ids)
            },
            Err(SendErrorView::Retryable { delay_ms: wait, task: kept }) => task_step(t, result)
                matches TaskStepView::Retry { delay_ms, task } && delay_ms == wait && task == kept,
            Err(SendErrorView::Permanent { message: reason, task: kept }) => task_step(t, result)
                matches TaskStepView::Fail { message, task, invalidate } && message == reason
                && task == kept && (invalidate <==> kept.cached_send()),
        },
        match copy {
            Ok(_) => forward_step(copy, notify, key) is Done,
            Err(SendErrorView::Retryable { delay_ms: wait, task: kept }) => forward_step(
                copy,
                notify,
                key,
            ) matches ForwardView::Enqueue { task, delay_ms } && delay_ms == wait && task == kept,
            Err(SendErrorView::Permanent { message, .. }) => match notify.0 {
                Some(chat) => forward_step(copy, notify, key) matches ForwardView::Notify(n)
                    && n.chat_id == chat && n.reply_to == notify.1 && message.is_suffix_of(n.text),
                None => forward_step(copy, notify, key) is Done,
            },
        },
{
    if let Err(SendErrorView::Permanent { message, .. }) = copy {
        law_failures_are_told_to_who_asked(notify.0, notify.1, key, message);
    }
}

proof fn lemma_named_concat(a: Seq<Seq<char>>, b: Seq<Seq<char>>)
    ensures
        (a + b).filter(|piece: Seq<char>| is_name(piece)) == a.filter(
            |piece: Seq<char>| is_name(piece),
        ) + b.filter(|piece: Seq<char>| is_name(piece)),
    decreases b.len(),
{
    let named = |piece: Seq<char>| is_name(piece);
    reveal(Seq::filter);
    if b.len() == 0 {
        assert(a + b =~= a);
        assert(a.filter(named) + b.filter(named) =~= a.filter(named));
    } else {
        assert((a + b).drop_last() =~= a + b.drop_last());
        assert((a + b).last() == b.last());
        lemma_named_concat(a, b.drop_last());
        if is_name(b.last()) {
            assert((a.filter(named) + b.drop_last().filter(named)).push(b.last()) =~= a.filter(
                named,
            ) + b.drop_last().filter(named).push(b.last()));
        }
    }
}

/// A file stands in the directory that its path names, however deep; one in a directory
/// whose name is merely longer does not.
pub proof fn law_files_stand_in_their_directories(dir: Seq<char>, rest: Seq<char>)
    requires
        dir.len() > 0,
        dir[0] == '/',
    ensures
        stands_in(dir, dir),
        stands_in(dir + seq!['/'] + rest, dir),
        rest.len() > 0 && !rest.contains('/') && is_name(
            crate::text::pieces(dir, '/').last(),
        ) ==> !stands_in(dir + rest, dir),
{
    let named = |piece: Seq<char>| is_name(piece);
    reveal_strlit("/");
    let slash = "/"@;
    assert(slash =~= seq!['/']);
    let parts = crate::text::pieces(dir, '/');
    crate::text::lemma_pieces_nonempty(dir, '/');
    crate::text::law_parts_are_split_apart(dir, rest, '/');
    let inner = dir + seq!['/'] + rest;
    assert(dir.subrange(0, 1) =~= slash);
    assert(inner.subrange(0, 1) =~= slash);
    let more = crate::text::pieces(rest, '/');
    lemma_named_concat(parts, more);
    let start = seq![slash];
    assert(path_start(dir) == start && path_start(inner) == start);
    let whole = components(inner);
    let base = components(dir);
    assert(whole =~= base + more.filter(named));
    assert(base =~= whole.subrange(0, base.len() as int));
    assert(base =~= base.subrange(0, base.len() as int));
    if rest.len() > 0 && !rest.contains('/') && is_name(parts.last()) {
        let long = dir + rest;
        assert(long.subrange(0, 1) =~= slash);
        let front = parts.drop_last();
        let grown = parts.last() + rest;
        assert(crate::text::pieces(long, '/') == front.push(grown));
        assert(front.push(parts.last()) =~= parts);
        reveal(Seq::filter);
        assert(front.push(grown).drop_last() =~= front);
        assert(parts.filter(named) == front.filter(named).push(parts.last()));
        let n = (start + front.filter(named)).len() as int;
        assert(base.len() == n + 1);
        assert(base[n] == parts.last());
        let other = components(long);
        if stands_in(long, dir) {
            assert(other.subrange(0, base.len() as int)[n] == base[n]);
            assert(other[n] == grown);
            assert(grown.len() > parts.last().len());
        }
    }
}

/// A prompt says when it expires.
pub proof fn law_prompts_say_when_they_expire(ttl: nat)
    ensures
        crate::text::has(prompt_text(ttl), duration_text(ttl)),
{
    let none = Seq::<char>::empty();
    crate::text::law_texts_are_found_where_they_stand(
        "Reply to edit message. Expires in "@,
        duration_text(ttl),
        "."@,
        none,
    );
}

/// A directory holds the media of a task just where a file of the task stands in it; its
/// number of a chat is read out of a payload only where it is one.
pub proof fn law_directories_hold_what_stands_in_them(
    t: TaskView,
    dir: Seq<char>,
    rest: Seq<char>,
    i: int,
    field: JsonFieldView,
)
    requires
        dir.len() > 0,
        dir[0] == '/',
        0 <= i < t.items().len(),
        t.items()[i].url() == dir + seq!['/'] + rest,
        !t.items()[i].by_id(),
    ensures
        holds_media(dir, t),
        field matches JsonFieldView::Int(n) ==> number_in(field) == Some(n),
        !(field is Int) ==> number_in(field) is None,
{
    let path = dir + seq!['/'] + rest;
    law_files_stand_in_their_directories(dir, rest);
    super::task::law_web_addresses_are_remote(path);
    super::task::law_every_file_of_a_task_is_listed(t, path);
    assert(t.items()[i].url() == path);
    let k = super::task::local_paths(t).index_of(path);
    assert(super::task::local_paths(t)[k] == path);
}

/// Slashes that are doubled or trail, and dots between them, change nothing about where a
/// path leads.
pub proof fn law_empty_steps_lead_nowhere(dir: Seq<char>, rest: Seq<char>)
    requires
        dir.len() > 0,
        dir[0] == '/',
    ensures
        components(dir + seq!['/']) == components(dir),
        components(dir + seq!['/', '/'] + rest) == components(dir + seq!['/'] + rest),
        components(dir + seq!['/', '.', '/'] + rest) == components(dir + seq!['/'] + rest),
        rest.len() > 0 && rest != seq!['.'] && !rest.contains('/') ==> components(
            dir + seq!['/'] + rest,
        ) == components(dir).push(rest),
{
    let named = |piece: Seq<char>| is_name(piece);
    reveal_strlit("/");
    reveal_strlit(".");
    let slash = "/"@;
    assert(slash =~= seq!['/']);
    assert("."@ =~= seq!['.']);
    let none = Seq::<char>::empty();
    let dot = seq!['.'];
    let parts = crate::text::pieces(dir, '/');
    let more = crate::text::pieces(rest, '/');
    let plain = dir + seq!['/'] + rest;
    let trailing = dir + seq!['/'];
    let doubled = dir + seq!['/', '/'] + rest;
    let dotted = dir + seq!['/', '.', '/'] + rest;
    assert(dir.subrange(0, 1) =~= slash);
    assert(plain.subrange(0, 1) =~= slash);
    assert(trailing.subrange(0, 1) =~= slash);
    assert(doubled.subrange(0, 1) =~= slash);
    assert(dotted.subrange(0, 1) =~= slash);
    crate::text::law_parts_are_split_apart(dir, rest, '/');
    crate::text::law_parts_are_split_apart(dir, none, '/');
    assert(trailing =~= dir + seq!['/'] + none);
    crate::text::law_parts_are_split_apart(trailing, rest, '/');
    assert(doubled =~= trailing + seq!['/'] + rest);
    let inner = dir + seq!['/'] + dot;
    crate::text::law_parts_are_split_apart(dir, dot, '/');
    crate::text::law_parts_are_split_apart(inner, rest, '/');
    assert(dotted =~= inner + seq!['/'] + rest);
    assert(!none.contains('/'));
    assert(!dot.contains('/')) by {
        assert(dot[0] == '.');
    }
    lemma_named_one(none);
    lemma_named_one(dot);
    lemma_named_one(rest);
    lemma_named_concat(parts, more);
    lemma_named_concat(parts, seq![none]);
    lemma_named_concat(parts + seq![none], more);
    lemma_named_concat(parts, seq![dot]);
    lemma_named_concat(parts + seq![dot], more);
    let kept = parts.filter(named);
    assert(kept + Seq::<Seq<char>>::empty() =~= kept);
    assert(components(trailing) =~= components(dir));
    assert(components(doubled) =~= components(plain));
    assert(components(dotted) =~= components(plain));
    if rest.len() > 0 && rest != seq!['.'] && !rest.contains('/') {
        assert(components(plain) =~= components(dir).push(rest));
    }
}

proof fn lemma_named_one(piece: Seq<char>)
    ensures
        seq![piece].filter(|piece: Seq<char>| is_name(piece)) == if piece.len() > 0 && piece
            != "."@ {
            seq![piece]
        } else {
            Seq::empty()
        },
{
    reveal(Seq::filter);
    let one = seq![piece];
    let named = |piece: Seq<char>| is_name(piece);
    assert(one.drop_last() =~= Seq::<Seq<char>>::empty());
    assert(one.drop_last().filter(named) =~= Seq::<Seq<char>>::empty());
    assert(one.last() == piece);
    assert(Seq::<Seq<char>>::empty().push(piece) =~= one);
}

/// A bare name is a path of one component, and the current directory is told apart from
/// it.
pub proof fn law_a_name_is_one_component(name: Seq<char>)
    requires
        name.len() > 0,
        !name.contains('/'),
    ensures
        name != seq!['.'] ==> components(name) == seq![name],
        components(seq!['.']) == seq![seq!['.']],
{
    reveal_strlit("/");
    reveal_strlit(".");
    assert("."@ =~= seq!['.']);
    let dot = seq!['.'];
    assert(!dot.contains('/')) by {
        assert(dot[0] == '.');
    }
    let none = Seq::<char>::empty();
    crate::text::law_parts_are_split_apart(none, name, '/');
    crate::text::law_parts_are_split_apart(none, dot, '/');
    lemma_named_one(name);
    lemma_named_one(dot);
    if crate::text::begins_with(name, "/"@) {
        assert(name.subrange(0, 1)[0] == name[0]);
        assert(name.contains(name[0]));
    }
    if crate::text::begins_with(dot, "/"@) {
        assert(dot.subrange(0, 1)[0] == dot[0]);
    }
    assert(seq![name][0] == name);
    assert(seq![dot][0] == dot);
    if name != dot {
        assert(components(name) =~= seq![name]);
    }
    assert(components(dot) =~= seq![dot]);
}

} // verus!
