//! Replies to an edit-before-forward prompt: they become the caption of the first
//! message.
use crate::html::{escape_attribute, escape_text};
use crate::send::classify::{
    classify_with, ClassView, Classification, RequestError, JITTER_TO_MS,
};
use crate::state::{ChatData, ChatView, EditView};
use crate::text::replace_all;
use vstd::prelude::*;

verus! {

/// How long a caption edit waits at most before it is tried once more.
pub const CAPTION_EDIT_MAX_RETRY_WAIT_MS: u64 = 2000;

// ---- the caption ----

/// A link with the user's words as its text.
pub open spec fn link_of(url: Seq<char>, words: Seq<char>) -> Seq<char> {
    "<a href=\""@ + crate::html::escaped_attribute(url) + "\">"@ + crate::html::escaped_text(words)
        + "</a>"@
}

/// The caption that a reply makes: the link, put into the prompt's template where
/// it has one that the chat still knows.
pub open spec fn caption_of(c: ChatView, edit: EditView, words: Seq<char>) -> Seq<char> {
    let link = link_of(edit.url, words);
    if edit.template.len() > 0 && c.template.contains_key(edit.template) {
        crate::text::replaced(c.template[edit.template], "[]"@, link)
    } else {
        link
    }
}

fn make_link(url: &str, words: &str) -> (r: String)
    ensures
        r@ == link_of(url@, words@),
{
    let mut out = "<a href=\"".to_owned();
    out.append(escape_attribute(url).as_str());
    out.append("\">");
    out.append(escape_text(words).as_str());
    out.append("</a>");
    out
}

// ---- the reply ----

/// What a reply comes to.
#[derive(Debug)]
pub enum EditStep {
    /// It is no answer to a prompt and goes on as any other message. A prompt
    /// that expired is given up with it.
    NotConsumed { drop_record: bool },
    EditCaption { message_id: i64, caption: String },
}

/// [`EditStep`] over mathematical text.
pub enum EditStepView {
    NotConsumed { drop_record: bool },
    EditCaption { message_id: i64, caption: Seq<char> },
}

impl View for EditStep {
    type V = EditStepView;

    open spec fn view(&self) -> EditStepView {
        match self {
            EditStep::NotConsumed { drop_record } => EditStepView::NotConsumed {
                drop_record: *drop_record,
            },
            EditStep::EditCaption { message_id, caption } => EditStepView::EditCaption {
                message_id: *message_id,
                caption: caption@,
            },
        }
    }
}

/// What a reply comes to: only a prompt that can be used takes it.
pub open spec fn reply_step(
    c: ChatView,
    replied: i64,
    words: Seq<char>,
    ttl: int,
    now: int,
) -> EditStepView {
    if !c.edit_message.contains_key(replied) {
        EditStepView::NotConsumed { drop_record: false }
    } else if crate::state::prompt_expired(c.edit_message[replied], ttl, now) {
        EditStepView::NotConsumed { drop_record: true }
    } else if c.edit_message[replied].forward_message_ids.len() == 0 {
        EditStepView::NotConsumed { drop_record: false }
    } else {
        EditStepView::EditCaption {
            message_id: c.edit_message[replied].forward_message_ids[0],
            caption: caption_of(c, c.edit_message[replied], words),
        }
    }
}

/// Reads a reply as an answer to a prompt.
pub fn edit_message_handler(chat: &ChatData, replied: i64, words: &str, ttl: u64, now: i64) -> (r:
    EditStep)
    requires
        chat.wf(),
    ensures
        r@ == reply_step(chat@, replied, words@, ttl as int, now as int),
{
    let edit = match chat.edit_message.get(&replied) {
        Some(edit) => edit,
        None => {
            return EditStep::NotConsumed { drop_record: false };
        },
    };
    if edit.is_expired(ttl, now) {
        return EditStep::NotConsumed { drop_record: true };
    }
    if edit.forward_message_ids.len() == 0 {
        return EditStep::NotConsumed { drop_record: false };
    }
    let link = make_link(edit.url.as_str(), words);
    let message_id: i64 = edit.forward_message_ids[0];
    if crate::text::chars_of(edit.template.as_str()).len() > 0 {
        match chat.template.get(&edit.template) {
            Some(template) => {
                proof {
                    reveal_strlit("[]");
                }
                return EditStep::EditCaption {
                    message_id,
                    caption: replace_all(template.as_str(), "[]", link.as_str()),
                };
            },
            None => {},
        }
    }
    EditStep::EditCaption { message_id, caption: link }
}

/// What the user reads where the caption could not be changed.
pub fn failed_edit_text(reason: &str) -> (r: String)
    ensures
        r@ == "Could not update the caption ("@ + reason@ + "). Send it again to retry."@,
{
    let mut out = "Could not update the caption (".to_owned();
    out.append(reason);
    out.append("). Send it again to retry.");
    out
}

// ---- the edit itself ----

/// What follows the attempt to change a caption.
#[derive(Debug)]
pub enum CaptionStep {
    Applied,
    /// Wait and try again.
    Retry { delay_ms: u64 },
    Failed(String),
}

/// [`CaptionStep`] over mathematical text.
pub enum CaptionStepView {
    Applied,
    Retry { delay_ms: int },
    Failed(Seq<char>),
}

impl View for CaptionStep {
    type V = CaptionStepView;

    open spec fn view(&self) -> CaptionStepView {
        match self {
            CaptionStep::Applied => CaptionStepView::Applied,
            CaptionStep::Retry { delay_ms } => CaptionStepView::Retry {
                delay_ms: *delay_ms as int,
            },
            CaptionStep::Failed(reason) => CaptionStepView::Failed(reason@),
        }
    }
}

/// The first attempt is tried again where the wait for it is short; a second one
/// never is.
pub open spec fn caption_step(
    result: Result<(), RequestError>,
    first: bool,
    jitter: int,
) -> CaptionStepView {
    match result {
        Ok(()) => CaptionStepView::Applied,
        Err(e) => match crate::send::classify::classified(e, jitter) {
            ClassView::Retryable { delay_ms } => if first && delay_ms
                <= CAPTION_EDIT_MAX_RETRY_WAIT_MS {
                CaptionStepView::Retry { delay_ms }
            } else {
                CaptionStepView::Failed(e.text@)
            },
            _ => CaptionStepView::Failed(e.text@),
        },
    }
}

/// Settles an attempt to change a caption. `first` says that it was the first.
pub fn apply_caption_edit(result: &Result<(), RequestError>, first: bool, jitter: u64) -> (r:
    CaptionStep)
    requires
        jitter <= JITTER_TO_MS,
    ensures
        r@ == caption_step(*result, first, jitter as int),
{
    match result {
        Ok(()) => CaptionStep::Applied,
        Err(e) => {
            match classify_with(e, jitter) {
                Classification::Retryable { delay_ms } => {
                    if first && delay_ms <= CAPTION_EDIT_MAX_RETRY_WAIT_MS {
                        return CaptionStep::Retry { delay_ms };
                    }
                },
                _ => {},
            }
            CaptionStep::Failed(e.text.clone())
        },
    }
}

// ---- laws ----

/// A caption is attempted at most twice.
pub proof fn law_a_caption_is_tried_twice_at_most(result: Result<(), RequestError>, jitter: int)
    ensures
        !(caption_step(result, false, jitter) is Retry),
{
}

/// A link holds the two tags that it is made of and no others, whatever the URL
/// and the user's words are.
pub proof fn law_replies_cannot_add_markup(url: Seq<char>, words: Seq<char>)
    ensures
        forall|i: int|
            0 <= i < link_of(url, words).len() && #[trigger] link_of(url, words)[i] == '<' ==> i
                == 0 || i == link_of(url, words).len() - 4,
{
    crate::html::law_escaped_text_has_no_markup(words);
    crate::html::law_escaped_attribute_stays_quoted(url);
    reveal_strlit("<a href=\"");
    reveal_strlit("\">");
    reveal_strlit("</a>");
    let href = crate::html::escaped_attribute(url);
    let shown = crate::html::escaped_text(words);
    let a = "<a href=\""@;
    let b = "\">"@;
    let c = "</a>"@;
    assert forall|i: int|
        0 <= i < link_of(url, words).len() && #[trigger] link_of(url, words)[i] == '<' implies i == 0
        || i == link_of(url, words).len() - 4 by {
        let n1 = a.len();
        let n2 = n1 + href.len();
        let n3 = n2 + b.len();
        let n4 = n3 + shown.len();
        if i < n1 {
            assert(link_of(url, words)[i] == a[i]);
        } else if i < n2 {
            assert(link_of(url, words)[i] == href[i - n1]);
        } else if i < n3 {
            assert(link_of(url, words)[i] == b[i - n2]);
        } else if i < n4 {
            assert(link_of(url, words)[i] == shown[i - n3]);
        } else {
            assert(link_of(url, words)[i] == c[i - n4]);
        }
    }
}

/// A reply to a prompt that can be used changes the caption of the first message that
/// the prompt is about, however many there are, and no other; any other reply changes
/// nothing. A prompt is given up only once it expired.
pub proof fn law_a_reply_edits_the_first_message(
    c: ChatView,
    replied: i64,
    words: Seq<char>,
    ttl: int,
    now: int,
)
    ensures
        ({
            let step = reply_step(c, replied, words, ttl, now);
            let usable = c.edit_message.contains_key(replied) && !crate::state::prompt_expired(
                c.edit_message[replied],
                ttl,
                now,
            ) && c.edit_message[replied].forward_message_ids.len() > 0;
            &&& step is EditCaption <==> usable
            &&& step matches EditStepView::EditCaption { message_id, caption } ==> message_id
                == c.edit_message[replied].forward_message_ids.first() && caption == caption_of(
                c,
                c.edit_message[replied],
                words,
            )
            &&& step matches EditStepView::NotConsumed { drop_record } ==> (drop_record <==> (
            c.edit_message.contains_key(replied) && crate::state::prompt_expired(
                c.edit_message[replied],
                ttl,
                now,
            )))
        }),
{
}

/// The caption that a reply makes links the user's words to the post: the link's
/// address is the post's URL and its text is what the user wrote, each escaped. A
/// template takes the link in place of its marks and keeps the rest; without a template
/// that the chat knows, the link is all there is.
pub proof fn law_a_reply_links_its_words_to_the_post(c: ChatView, edit: EditView, words: Seq<char>)
    ensures
        ({
            let link = link_of(edit.url, words);
            let href = crate::html::escaped_attribute(edit.url);
            let shown = crate::html::escaped_text(words);
            &&& link.len() == 9 + href.len() + 2 + shown.len() + 4
            &&& link.take(9) == seq!['<', 'a', ' ', 'h', 'r', 'e', 'f', '=', '"']
            &&& link.subrange(9, 9 + href.len() as int) == href
            &&& link.subrange(9 + href.len() as int, 11 + href.len() as int) == seq!['"', '>']
            &&& link.subrange(11 + href.len() as int, link.len() - 4) == shown
            &&& link.skip(link.len() - 4) == seq!['<', '/', 'a', '>']
            &&& edit.template.len() == 0 || !c.template.contains_key(edit.template) ==> caption_of(
                c,
                edit,
                words,
            ) == link
            &&& edit.template.len() > 0 && c.template.contains_key(edit.template) ==> caption_of(
                c,
                edit,
                words,
            ) == crate::text::replaced(c.template[edit.template], seq!['[', ']'], link)
        }),
{
    reveal_strlit("<a href=\"");
    reveal_strlit("\">");
    reveal_strlit("</a>");
    reveal_strlit("[]");
    let link = link_of(edit.url, words);
    let href = crate::html::escaped_attribute(edit.url);
    let shown = crate::html::escaped_text(words);
    assert(link.take(9) =~= seq!['<', 'a', ' ', 'h', 'r', 'e', 'f', '=', '"']);
    assert(link.subrange(9, 9 + href.len() as int) =~= href);
    assert(link.subrange(9 + href.len() as int, 11 + href.len() as int) =~= seq!['"', '>']);
    assert(link.subrange(11 + href.len() as int, link.len() - 4) =~= shown);
    assert(link.skip(link.len() - 4) =~= seq!['<', '/', 'a', '>']);
    assert("[]"@ =~= seq!['[', ']']);
}

/// An attempt that went through is done. One that failed is tried again only where it
/// was the first, can succeed later, and need not wait for more than two seconds; else
/// the user is told why.
pub proof fn law_failed_captions_are_told(result: Result<(), RequestError>, first: bool, jitter: int)
    ensures
        caption_step(result, first, jitter) is Applied <==> result is Ok,
        caption_step(result, first, jitter) matches CaptionStepView::Retry { delay_ms } ==> first
            && delay_ms <= 2000 && (result matches Err(e) && crate::send::classify::classified(
            e,
            jitter,
        ) == (ClassView::Retryable { delay_ms })),
        caption_step(result, first, jitter) matches CaptionStepView::Failed(words) ==> (result
            matches Err(e) && words == e.text@ && !(first && (crate::send::classify::classified(
            e,
            jitter,
        ) matches ClassView::Retryable { delay_ms } && delay_ms <= 2000))),
{
}

} // verus!
