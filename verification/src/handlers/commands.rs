//! What the commands do: which of them are refused, what they change in the chat
//! and what they answer.
use super::grammar::{Command, CommandView};
use crate::html::escape_text;
use crate::link_cache::CachedMediaKind;
use crate::names::{sorted_names, sorted_texts};
use crate::site::{Media, RenderFields, SiteMediaView};
use crate::state::{ChatData, ChatView};
use crate::table::Table;
use crate::text::{
    cap_text, chars_of, decimal, find_blank, find_char, fits_bytes, join, parse_signed, plural, same,
    signed_decimal, slice_chars, trim,
};
use vstd::prelude::*;

verus! {

pub const CHAT_STATE_READ_ERROR: &'static str = "Couldn't read chat settings; try again.";

/// How many template names the settings show.
pub const MAX_SETTINGS_TEMPLATE_NAMES: usize = 30;

/// The longest name whose button still fits the service's limit of 64 bytes.
pub const MAX_TEMPLATE_NAME_BYTES: usize = 55;

/// How many templates a chat may have.
pub const MAX_TEMPLATES: usize = 50;

/// The longest template, after escaping.
pub const MAX_TEMPLATE_BODY_CHARS: usize = 1024;

pub const MAX_SETTINGS_CHARS: usize = 4000;

pub const MAX_DEBUG_REPORT_CHARS: usize = 4000;

pub const MAX_DEBUG_DUMP_CHARS: usize = 3500;

// ---- formats ----

/// The placeholders that a caption format may use.
pub open spec fn placeholders() -> Seq<Seq<char>> {
    seq!["url"@, "author"@, "author_url"@, "title"@, "content"@, "tags"@]
}

pub open spec fn is_placeholder(token: Seq<char>) -> bool {
    ||| token == "url"@
    ||| token == "author"@
    ||| token == "author_url"@
    ||| token == "title"@
    ||| token == "content"@
    ||| token == "tags"@
}

pub fn known_placeholder(token: &str) -> (r: bool)
    ensures
        r == is_placeholder(token@),
{
    same(token, "url") || same(token, "author") || same(token, "author_url") || same(
        token,
        "title",
    ) || same(token, "content") || same(token, "tags")
}

/// The names of the placeholders.
pub fn format_placeholders() -> (r: Vec<String>)
    ensures
        crate::text::texts(r@) == placeholders(),
{
    let mut out: Vec<String> = Vec::new();
    out.push("url".to_owned());
    out.push("author".to_owned());
    out.push("author_url".to_owned());
    out.push("title".to_owned());
    out.push("content".to_owned());
    out.push("tags".to_owned());
    assert(crate::text::texts(out@) =~= placeholders());
    out
}

/// The first token in braces that is no placeholder. A brace that is not closed
/// begins no token.
pub open spec fn first_unknown(s: Seq<char>) -> Option<Seq<char>>
    decreases s.len(),
{
    let open = crate::text::until_char(s, '{');
    if open < 0 || open >= s.len() {
        None
    } else {
        let after = s.skip(open + 1);
        let close = crate::text::until_char(after, '}');
        if close < 0 || close >= after.len() {
            None
        } else if !is_placeholder(after.take(close)) {
            Some(after.take(close))
        } else {
            first_unknown(after.skip(close + 1))
        }
    }
}

pub fn unknown_placeholder(format: &str) -> (r: Option<String>)
    ensures
        crate::json::text_option(r) == first_unknown(format@),
{
    let v = chars_of(format);
    let total: usize = v.len();
    let mut from: usize = 0;
    assert(v@.skip(0) =~= v@);
    loop
        invariant
            total == v@.len(),
            from <= total,
            first_unknown(v@.skip(from as int)) == first_unknown(format@),
        decreases total - from,
    {
        let open = find_char(&v, from, '{');
        if open == total {
            return None;
        }
        let ghost after = v@.skip(open + 1);
        assert(v@.skip(from as int).skip(open - from + 1) =~= after);
        let close = find_char(&v, open + 1, '}');
        if close == total {
            return None;
        }
        let token = slice_chars(&v, open + 1, close);
        assert(v@.subrange(open + 1, close as int) =~= after.take(close - open - 1));
        if !known_placeholder(token.as_str()) {
            return Some(token);
        }
        assert(after.skip(close - open) =~= v@.skip(close + 1));
        from = close + 1;
    }
}

// ---- what a chat is told of itself ----

pub open spec fn format_line(site: Seq<char>, format: Seq<char>) -> Seq<char> {
    site + " => "@ + format
}

/// The lines of a chat's own formats, in the order of the sites.
pub open spec fn format_lines(m: Map<Seq<char>, Seq<char>>) -> Seq<Seq<char>> {
    crate::names::in_order(m.dom()).map_values(|site: Seq<char>| format_line(site, m[site]))
}

pub open spec fn channel_line(channel: Option<i64>) -> Seq<char> {
    match channel {
        Some(id) => "Forward channel: "@ + crate::text::signed_digits(id as int),
        None => "Forward channel: not set (use /set_forward_channel <@channel or id>)"@,
    }
}

pub open spec fn edit_line(on: bool) -> Seq<char> {
    if on {
        "Edit before forward: on"@
    } else {
        "Edit before forward: off"@
    }
}

/// The formats, one to a line.
pub open spec fn formats_text(lines: Seq<Seq<char>>) -> Seq<char> {
    if lines.len() == 0 {
        "Caption formats: built-in for every site"@
    } else {
        "Caption formats:\n  "@ + crate::text::joined(lines, "\n  "@)
    }
}

/// The templates' names, as many as are shown.
pub open spec fn templates_text(names: Seq<Seq<char>>) -> Seq<char> {
    if names.len() == 0 {
        "Templates: none"@
    } else {
        let shown = crate::text::joined(
            crate::send::post::first_of(names, MAX_SETTINGS_TEMPLATE_NAMES as nat),
            ", "@,
        );
        let head = "Templates ("@ + crate::text::digits(names.len()) + "): "@ + shown;
        if names.len() > MAX_SETTINGS_TEMPLATE_NAMES {
            head + ", +"@ + crate::text::digits(
                (names.len() - MAX_SETTINGS_TEMPLATE_NAMES) as nat,
            ) + " more"@
        } else {
            head
        }
    }
}

/// A chat's settings before they are cut to the service's limit.
pub open spec fn settings_words(c: ChatView) -> Seq<char> {
    channel_line(c.forward_channel_id) + "\n"@ + edit_line(c.edit_before_forward) + "\n"@
        + formats_text(crate::names::sorted(format_lines(c.message_format))) + "\n"@
        + templates_text(crate::names::in_order(c.template.dom()))
}

fn channel_text(channel: Option<i64>) -> (r: String)
    ensures
        r@ == channel_line(channel),
{
    match channel {
        Some(id) => {
            let mut out = "Forward channel: ".to_owned();
            out.append(signed_decimal(id).as_str());
            out
        },
        None => "Forward channel: not set (use /set_forward_channel <@channel or id>)".to_owned(),
    }
}

/// The lines of a chat's formats, in the order of the sites.
fn format_texts(formats: &Table<String, String>) -> (r: Vec<String>)
    requires
        formats.wf(),
    ensures
        crate::text::texts(r@) == format_lines(formats@),
{
    let sites = sorted_names(formats);
    let ghost m = formats@;
    let ghost names = crate::names::in_order(m.dom());
    let mut out: Vec<String> = Vec::new();
    let mut i: usize = 0;
    while i < sites.len()
        invariant
            formats.wf(),
            m == formats@,
            names == crate::text::texts(sites@),
            crate::names::lists(names, m.dom()),
            i <= sites@.len(),
            out@.len() == i,
            forall|j: int|
                0 <= j < i ==> (#[trigger] out@[j])@ == format_line(names[j], m[names[j]]),
        decreases sites@.len() - i,
    {
        assert(names[i as int] == sites@[i as int]@);
        assert(names.contains(names[i as int]));
        assert(m.dom().contains(names[i as int]));
        let mut line = sites[i].clone();
        line.append(" => ");
        match formats.get(&sites[i]) {
            Some(format) => {
                line.append(format.as_str());
            },
            None => {},
        }
        out.push(line);
        i = i + 1;
    }
    assert(crate::text::texts(out@) =~= format_lines(m));
    out
}

fn formats_listing(lines: &Vec<String>) -> (r: String)
    ensures
        r@ == formats_text(crate::text::texts(lines@)),
{
    if lines.len() == 0 {
        return "Caption formats: built-in for every site".to_owned();
    }
    let mut out = "Caption formats:\n  ".to_owned();
    out.append(join(lines, "\n  ").as_str());
    out
}

/// The first of some texts.
pub fn first_texts(v: &Vec<String>, n: usize) -> (r: Vec<String>)
    ensures
        crate::text::texts(r@) == crate::send::post::first_of(crate::text::texts(v@), n as nat),
{
    let ghost all = crate::text::texts(v@);
    let mut out: Vec<String> = Vec::new();
    let mut i: usize = 0;
    while i < v.len() && i < n
        invariant
            all == crate::text::texts(v@),
            i <= v@.len(),
            i <= n,
            out@.len() == i,
            forall|j: int| 0 <= j < i ==> (#[trigger] out@[j])@ == v@[j]@,
        decreases v@.len() - i,
    {
        out.push(v[i].clone());
        i = i + 1;
    }
    assert(crate::text::texts(out@) =~= crate::send::post::first_of(all, n as nat));
    out
}

fn templates_listing(names: &Vec<String>) -> (r: String)
    ensures
        r@ == templates_text(crate::text::texts(names@)),
{
    let n: usize = names.len();
    if n == 0 {
        return "Templates: none".to_owned();
    }
    let shown = first_texts(names, MAX_SETTINGS_TEMPLATE_NAMES);
    let mut out = "Templates (".to_owned();
    out.append(decimal(n as u64).as_str());
    out.append("): ");
    out.append(join(&shown, ", ").as_str());
    if n > MAX_SETTINGS_TEMPLATE_NAMES {
        out.append(", +");
        out.append(decimal((n - MAX_SETTINGS_TEMPLATE_NAMES) as u64).as_str());
        out.append(" more");
    }
    out
}

/// What a chat is configured to do, for anyone in it.
pub fn settings_text(data: &ChatData) -> (r: String)
    requires
        data.wf(),
    ensures
        crate::text::capped(settings_words(data@), MAX_SETTINGS_CHARS as int, r@),
{
    let mut out = channel_text(data.forward_channel_id);
    out.append("\n");
    if data.edit_before_forward {
        out.append("Edit before forward: on");
    } else {
        out.append("Edit before forward: off");
    }
    out.append("\n");
    let lines = sorted_texts(&format_texts(&data.message_format));
    out.append(formats_listing(&lines).as_str());
    out.append("\n");
    let names = sorted_names(&data.template);
    out.append(templates_listing(&names).as_str());
    cap_text(out.as_str(), MAX_SETTINGS_CHARS)
}

// ---- what a command changes ----

/// A change to a chat.
#[derive(Debug)]
pub enum ChatEdit {
    SetChannel(i64),
    RemoveChannel,
    ToggleEdit,
    /// The body is escaped already.
    SetTemplate { name: String, body: String },
    RemoveTemplate(String),
    ResetFormat(String),
    SetFormat { site: String, format: String },
}

/// [`ChatEdit`] over mathematical text.
pub enum ChatEditView {
    SetChannel(i64),
    RemoveChannel,
    ToggleEdit,
    SetTemplate { name: Seq<char>, body: Seq<char> },
    RemoveTemplate(Seq<char>),
    ResetFormat(Seq<char>),
    SetFormat { site: Seq<char>, format: Seq<char> },
}

impl View for ChatEdit {
    type V = ChatEditView;

    open spec fn view(&self) -> ChatEditView {
        match self {
            ChatEdit::SetChannel(id) => ChatEditView::SetChannel(*id),
            ChatEdit::RemoveChannel => ChatEditView::RemoveChannel,
            ChatEdit::ToggleEdit => ChatEditView::ToggleEdit,
            ChatEdit::SetTemplate { name, body } => ChatEditView::SetTemplate {
                name: name@,
                body: body@,
            },
            ChatEdit::RemoveTemplate(name) => ChatEditView::RemoveTemplate(name@),
            ChatEdit::ResetFormat(site) => ChatEditView::ResetFormat(site@),
            ChatEdit::SetFormat { site, format } => ChatEditView::SetFormat {
                site: site@,
                format: format@,
            },
        }
    }
}

/// What came of a change.
#[derive(Debug)]
pub enum Edited {
    ChannelSet,
    ChannelRemoved,
    NoChannelToRemove,
    /// Editing needs a channel to forward to.
    ChannelFirst,
    EditDisabled,
    EditEnabled,
    TemplateSet,
    TooManyTemplates,
    TemplateRemoved(String),
    /// There is no such template; these are the ones there are.
    NoTemplate { name: String, saved: Vec<String> },
    FormatReset,
    FormatSet,
}

/// [`Edited`] over mathematical text.
pub enum EditedView {
    ChannelSet,
    ChannelRemoved,
    NoChannelToRemove,
    ChannelFirst,
    EditDisabled,
    EditEnabled,
    TemplateSet,
    TooManyTemplates,
    TemplateRemoved(Seq<char>),
    NoTemplate { name: Seq<char>, saved: Seq<Seq<char>> },
    FormatReset,
    FormatSet,
}

impl View for Edited {
    type V = EditedView;

    open spec fn view(&self) -> EditedView {
        match self {
            Edited::ChannelSet => EditedView::ChannelSet,
            Edited::ChannelRemoved => EditedView::ChannelRemoved,
            Edited::NoChannelToRemove => EditedView::NoChannelToRemove,
            Edited::ChannelFirst => EditedView::ChannelFirst,
            Edited::EditDisabled => EditedView::EditDisabled,
            Edited::EditEnabled => EditedView::EditEnabled,
            Edited::TemplateSet => EditedView::TemplateSet,
            Edited::TooManyTemplates => EditedView::TooManyTemplates,
            Edited::TemplateRemoved(name) => EditedView::TemplateRemoved(name@),
            Edited::NoTemplate { name, saved } => EditedView::NoTemplate {
                name: name@,
                saved: crate::text::texts(saved@),
            },
            Edited::FormatReset => EditedView::FormatReset,
            Edited::FormatSet => EditedView::FormatSet,
        }
    }
}

/// A chat after a change, and what came of it. Turning editing off gives up the
/// open prompts.
pub open spec fn edited(c: ChatView, e: ChatEditView) -> (ChatView, EditedView) {
    match e {
        ChatEditView::SetChannel(id) => (
            ChatView { forward_channel_id: Some(id), ..c },
            EditedView::ChannelSet,
        ),
        ChatEditView::RemoveChannel => if c.forward_channel_id is Some {
            (ChatView { forward_channel_id: None, ..c }, EditedView::ChannelRemoved)
        } else {
            (c, EditedView::NoChannelToRemove)
        },
        ChatEditView::ToggleEdit => if c.forward_channel_id is None {
            (c, EditedView::ChannelFirst)
        } else if c.edit_before_forward {
            (
                ChatView { edit_before_forward: false, edit_message: Map::empty(), ..c },
                EditedView::EditDisabled,
            )
        } else {
            (ChatView { edit_before_forward: true, ..c }, EditedView::EditEnabled)
        },
        ChatEditView::SetTemplate { name, body } => if c.template.dom().len() >= MAX_TEMPLATES
            && !c.template.contains_key(name) {
            (c, EditedView::TooManyTemplates)
        } else {
            (ChatView { template: c.template.insert(name, body), ..c }, EditedView::TemplateSet)
        },
        ChatEditView::RemoveTemplate(name) => if c.template.contains_key(name) {
            (
                ChatView { template: c.template.remove(name), ..c },
                EditedView::TemplateRemoved(name),
            )
        } else {
            (c, EditedView::NoTemplate { name, saved: crate::names::in_order(c.template.dom()) })
        },
        ChatEditView::ResetFormat(site) => (
            ChatView { message_format: c.message_format.remove(site), ..c },
            EditedView::FormatReset,
        ),
        ChatEditView::SetFormat { site, format } => (
            ChatView { message_format: c.message_format.insert(site, format), ..c },
            EditedView::FormatSet,
        ),
    }
}

/// Changes a chat.
pub fn apply_edit(data: &mut ChatData, edit: ChatEdit) -> (r: Edited)
    requires
        old(data).wf(),
    ensures
        final(data).wf(),
        final(data)@ == edited(old(data)@, edit@).0,
        r@ == edited(old(data)@, edit@).1,
{
    match edit {
        ChatEdit::SetChannel(id) => {
            data.forward_channel_id = Some(id);
            Edited::ChannelSet
        },
        ChatEdit::RemoveChannel => {
            if data.forward_channel_id.is_some() {
                data.forward_channel_id = None;
                Edited::ChannelRemoved
            } else {
                Edited::NoChannelToRemove
            }
        },
        ChatEdit::ToggleEdit => {
            if data.forward_channel_id.is_none() {
                Edited::ChannelFirst
            } else if data.edit_before_forward {
                data.edit_before_forward = false;
                data.edit_message = Table::new();
                Edited::EditDisabled
            } else {
                data.edit_before_forward = true;
                Edited::EditEnabled
            }
        },
        ChatEdit::SetTemplate { name, body } => {
            if data.template.len() >= MAX_TEMPLATES && !data.template.contains_key(&name) {
                Edited::TooManyTemplates
            } else {
                data.template.insert(name, body);
                Edited::TemplateSet
            }
        },
        ChatEdit::RemoveTemplate(name) => {
            if data.template.contains_key(&name) {
                let _ = data.template.remove(&name);
                Edited::TemplateRemoved(name)
            } else {
                let saved = sorted_names(&data.template);
                Edited::NoTemplate { name, saved }
            }
        },
        ChatEdit::ResetFormat(site) => {
            let _ = data.message_format.remove(&site);
            Edited::FormatReset
        },
        ChatEdit::SetFormat { site, format } => {
            data.message_format.insert(site, format);
            Edited::FormatSet
        },
    }
}

/// What is answered to a change. `stored` says whether it was written down, and
/// not only remembered.
pub open spec fn edited_words(e: EditedView, stored: bool) -> Seq<char> {
    match e {
        EditedView::ChannelSet => if stored {
            "Add successfully."@
        } else {
            "Forward channel set only in memory; retry later."@
        },
        EditedView::ChannelRemoved => "Remove successfully."@,
        EditedView::NoChannelToRemove => "No channel to remove."@,
        EditedView::ChannelFirst => "Please enable forward channel first."@,
        EditedView::EditDisabled => "Disable edit before forward."@,
        EditedView::EditEnabled => "Enable edit before forward."@,
        EditedView::TemplateSet => if stored {
            "Template set."@
        } else {
            "Template set only in memory; retry later."@
        },
        EditedView::TooManyTemplates => "This chat already has the maximum of 50 templates."@,
        EditedView::TemplateRemoved(name) => "Template '"@ + name + "' removed."@,
        EditedView::NoTemplate { name, saved } => if saved.len() == 0 {
            "No template named '"@ + name + "'. None are saved yet."@
        } else {
            "No template named '"@ + name + "'. Saved: "@ + crate::text::joined(saved, ", "@)
        },
        EditedView::FormatReset => if stored {
            "Format reset to the built-in one."@
        } else {
            "Reset in memory only; retry later."@
        },
        EditedView::FormatSet => if stored {
            "Format set. Use /debug <link> to preview the caption."@
        } else {
            "Format set only in memory; retry later."@
        },
    }
}

/// What is answered to a change; `None` where the chat could not be read, so that
/// nothing was changed.
pub open spec fn edit_answer(e: Option<EditedView>, stored: bool) -> Seq<char> {
    match e {
        Some(e) => edited_words(e, stored),
        None => CHAT_STATE_READ_ERROR@,
    }
}

pub open spec fn edited_option(e: Option<Edited>) -> Option<EditedView> {
    match e {
        Some(e) => Some(e@),
        None => None,
    }
}

fn stored_or(stored: bool, yes: &str, no: &str) -> (r: String)
    ensures
        r@ == if stored {
            yes@
        } else {
            no@
        },
{
    if stored {
        yes.to_owned()
    } else {
        no.to_owned()
    }
}

pub fn edit_reply(outcome: Option<Edited>, stored: bool) -> (r: String)
    ensures
        r@ == edit_answer(edited_option(outcome), stored),
{
    let e = match outcome {
        Some(e) => e,
        None => {
            return CHAT_STATE_READ_ERROR.to_owned();
        },
    };
    match e {
        Edited::ChannelSet => stored_or(
            stored,
            "Add successfully.",
            "Forward channel set only in memory; retry later.",
        ),
        Edited::ChannelRemoved => "Remove successfully.".to_owned(),
        Edited::NoChannelToRemove => "No channel to remove.".to_owned(),
        Edited::ChannelFirst => "Please enable forward channel first.".to_owned(),
        Edited::EditDisabled => "Disable edit before forward.".to_owned(),
        Edited::EditEnabled => "Enable edit before forward.".to_owned(),
        Edited::TemplateSet => stored_or(
            stored,
            "Template set.",
            "Template set only in memory; retry later.",
        ),
        Edited::TooManyTemplates => "This chat already has the maximum of 50 templates.".to_owned(),
        Edited::TemplateRemoved(name) => {
            let mut out = "Template '".to_owned();
            out.append(name.as_str());
            out.append("' removed.");
            out
        },
        Edited::NoTemplate { name, saved } => {
            let mut out = "No template named '".to_owned();
            out.append(name.as_str());
            if saved.len() == 0 {
                out.append("'. None are saved yet.");
            } else {
                out.append("'. Saved: ");
                out.append(join(&saved, ", ").as_str());
            }
            out
        },
        Edited::FormatReset => stored_or(
            stored,
            "Format reset to the built-in one.",
            "Reset in memory only; retry later.",
        ),
        Edited::FormatSet => stored_or(
            stored,
            "Format set. Use /debug <link> to preview the caption.",
            "Format set only in memory; retry later.",
        ),
    }
}

// ---- what a command comes to ----

/// A channel as the user names it.
#[derive(Debug)]
pub enum ChannelRef {
    Id(i64),
    Username(String),
}

/// [`ChannelRef`] over mathematical text.
pub enum ChannelView {
    Id(i64),
    Username(Seq<char>),
}

impl View for ChannelRef {
    type V = ChannelView;

    open spec fn view(&self) -> ChannelView {
        match self {
            ChannelRef::Id(id) => ChannelView::Id(*id),
            ChannelRef::Username(name) => ChannelView::Username(name@),
        }
    }
}

/// What is known round a command.
#[derive(Debug)]
pub struct CommandContext {
    /// Who sent it, where that is known.
    pub sender_id: Option<i64>,
    pub admin_ids: Vec<i64>,
    /// Whether it is a reply, and the text of what it replies to.
    pub replied: Option<String>,
    /// The key of the post that its argument links to.
    pub key: Option<String>,
    /// The names of the sites there are.
    pub sites: Vec<String>,
}

/// [`CommandContext`] over mathematical values.
pub struct ContextView {
    pub sender_id: Option<i64>,
    pub admin_ids: Seq<i64>,
    pub replied: Option<Seq<char>>,
    pub key: Option<Seq<char>>,
    pub sites: Seq<Seq<char>>,
}

impl View for CommandContext {
    type V = ContextView;

    open spec fn view(&self) -> ContextView {
        ContextView {
            sender_id: self.sender_id,
            admin_ids: self.admin_ids@,
            replied: crate::json::text_option(self.replied),
            key: crate::json::text_option(self.key),
            sites: crate::text::texts(self.sites@),
        }
    }
}

/// What a command asks for.
#[derive(Debug)]
pub enum CommandStep {
    /// A message of its own.
    Say(String),
    /// An answer to the command.
    Reply(String),
    /// Look the channel up and test the rights in it.
    FindChannel(ChannelRef),
    Change(ChatEdit),
    ShowSettings,
    /// Show everything that is known of the chat.
    Dump,
    ClearAll,
    ClearOne { key: String, link: String },
    /// Send the link's media without anything that follows a send.
    Send(String),
    /// Fetch the link and report on it.
    Inspect(String),
}

/// [`CommandStep`] over mathematical text.
pub enum CommandStepView {
    Say(Seq<char>),
    Reply(Seq<char>),
    FindChannel(ChannelView),
    Change(ChatEditView),
    ShowSettings,
    Dump,
    ClearAll,
    ClearOne { key: Seq<char>, link: Seq<char> },
    Send(Seq<char>),
    Inspect(Seq<char>),
}

impl View for CommandStep {
    type V = CommandStepView;

    open spec fn view(&self) -> CommandStepView {
        match self {
            CommandStep::Say(t) => CommandStepView::Say(t@),
            CommandStep::Reply(t) => CommandStepView::Reply(t@),
            CommandStep::FindChannel(c) => CommandStepView::FindChannel(c@),
            CommandStep::Change(e) => CommandStepView::Change(e@),
            CommandStep::ShowSettings => CommandStepView::ShowSettings,
            CommandStep::Dump => CommandStepView::Dump,
            CommandStep::ClearAll => CommandStepView::ClearAll,
            CommandStep::ClearOne { key, link } => CommandStepView::ClearOne {
                key: key@,
                link: link@,
            },
            CommandStep::Send(url) => CommandStepView::Send(url@),
            CommandStep::Inspect(url) => CommandStepView::Inspect(url@),
        }
    }
}

/// Who counts as the sender: nobody in particular where it is not known.
pub open spec fn sender_of(x: ContextView) -> i64 {
    match x.sender_id {
        Some(id) => id,
        None => (-1) as i64,
    }
}

pub open spec fn is_admin(x: ContextView) -> bool {
    x.admin_ids.contains(sender_of(x))
}

/// The sender, if an admin.
pub fn require_admin(x: &CommandContext) -> (r: Option<i64>)
    ensures
        r == if is_admin(x@) {
            Some(sender_of(x@))
        } else {
            None
        },
{
    let id: i64 = match x.sender_id {
        Some(id) => id,
        None => -1,
    };
    let mut i: usize = 0;
    while i < x.admin_ids.len()
        invariant
            id == sender_of(x@),
            i <= x.admin_ids@.len(),
            forall|j: int| 0 <= j < i ==> x.admin_ids@[j] != id,
        decreases x.admin_ids@.len() - i,
    {
        if x.admin_ids[i] == id {
            assert(x.admin_ids@[i as int] == id);
            return Some(id);
        }
        i = i + 1;
    }
    None
}

pub open spec fn channel_of(arg: Seq<char>) -> ChannelView {
    match crate::text::signed_value(arg) {
        Some(id) => ChannelView::Id(id as i64),
        None => ChannelView::Username(arg),
    }
}

pub open spec fn set_channel_step(arg: Seq<char>) -> CommandStepView {
    if arg.len() == 0 {
        CommandStepView::Reply(channel_error_words(SetForwardChannelError::EmptyParameter))
    } else {
        CommandStepView::FindChannel(channel_of(arg))
    }
}

/// A template is saved where it is a reply to a message with a place for the
/// link, its name fits its button and its body fits a caption.
pub open spec fn set_template_step(arg: Seq<char>, replied: Option<Seq<char>>) -> CommandStepView {
    let name = crate::text::trimmed(arg);
    match replied {
        None => CommandStepView::Reply("Please reply to a message to set as template."@),
        Some(text) => if !(crate::text::has(text, "[]"@)) {
            CommandStepView::Reply("Please reply to a message with [] to set as template."@)
        } else if name.len() == 0 {
            CommandStepView::Reply("Please provide a name for the template."@)
        } else if crate::text::text_bytes(name) > MAX_TEMPLATE_NAME_BYTES {
            CommandStepView::Reply("Template name is too long (max 55 bytes)."@)
        } else if crate::html::escaped_text(text).len() > MAX_TEMPLATE_BODY_CHARS {
            CommandStepView::Reply("Template is too long (max 1024 characters)."@)
        } else {
            CommandStepView::Change(
                ChatEditView::SetTemplate { name, body: crate::html::escaped_text(text) },
            )
        },
    }
}

pub open spec fn remove_template_step(arg: Seq<char>) -> CommandStepView {
    let name = crate::text::trimmed(arg);
    if name.len() == 0 {
        CommandStepView::Reply(
            "Usage: /remove_template <name> (see /settings for the saved names)"@,
        )
    } else {
        CommandStepView::Change(ChatEditView::RemoveTemplate(name))
    }
}

/// What is said of a token that is no placeholder.
pub open spec fn unknown_words(token: Seq<char>) -> Seq<char> {
    "Unknown placeholder {"@ + token
        + "}. Available: {url} {author} {author_url} {title} {content} {tags}"@
}

/// A format is set for a site that there is. A dash goes back to the site's own
/// caption.
pub open spec fn set_format_step(arg: Seq<char>, sites: Seq<Seq<char>>) -> CommandStepView {
    let n = crate::text::until_blank(arg);
    let site = arg.take(n);
    let format = if n < arg.len() {
        crate::text::trimmed(arg.skip(n + 1))
    } else {
        Seq::empty()
    };
    if format.len() == 0 {
        CommandStepView::Reply("Usage: /set_format <site> <format>"@)
    } else if !sites.contains(site) {
        CommandStepView::Reply("Unknown site. Use twitter, bsky, pixiv, misskey or bilibili."@)
    } else if format == "-"@ {
        CommandStepView::Change(ChatEditView::ResetFormat(site))
    } else {
        match first_unknown(format) {
            Some(token) => CommandStepView::Reply(unknown_words(token)),
            None => CommandStepView::Change(ChatEditView::SetFormat { site, format }),
        }
    }
}

pub open spec fn clear_cache_step(arg: Seq<char>, x: ContextView) -> CommandStepView {
    let link = crate::text::trimmed(arg);
    if !is_admin(x) {
        CommandStepView::Reply("Admin only."@)
    } else if link.len() == 0 {
        CommandStepView::ClearAll
    } else {
        match x.key {
            Some(key) => CommandStepView::ClearOne { key, link },
            None => CommandStepView::Reply(
                "Unrecognized link. Use a twitter/x, pixiv, bsky, misskey or bilibili post URL."@,
            ),
        }
    }
}

pub const NO_SITE_TEXT: &'static str =
    "No enabled site matches this link (twitter/x, pixiv, bsky, misskey or bilibili).";

/// What a command comes to.
pub open spec fn command_step(c: CommandView, x: ContextView) -> CommandStepView {
    match c {
        CommandView::Start => CommandStepView::Say(super::grammar::START_TEXT@),
        CommandView::Help => CommandStepView::Say(super::grammar::help_of()),
        CommandView::SetForwardChannel(arg) => set_channel_step(arg),
        CommandView::RemoveForwardChannel => CommandStepView::Change(ChatEditView::RemoveChannel),
        CommandView::EditBeforeForward => CommandStepView::Change(ChatEditView::ToggleEdit),
        CommandView::SetTemplate(arg) => set_template_step(arg, x.replied),
        CommandView::RemoveTemplate(arg) => remove_template_step(arg),
        CommandView::Settings => CommandStepView::ShowSettings,
        CommandView::BotDict => if is_admin(x) {
            CommandStepView::Dump
        } else {
            CommandStepView::Reply("Admin only."@)
        },
        CommandView::SetFormat(arg) => set_format_step(arg, x.sites),
        CommandView::ClearCache(arg) => clear_cache_step(arg, x),
        CommandView::Test(arg) => {
            let url = crate::text::trimmed(arg);
            if url.len() == 0 {
                CommandStepView::Reply("Usage: /test <post url>"@)
            } else if x.key is None {
                CommandStepView::Reply(NO_SITE_TEXT@)
            } else {
                CommandStepView::Send(url)
            }
        },
        CommandView::Debug(arg) => {
            let url = crate::text::trimmed(arg);
            if url.len() == 0 {
                CommandStepView::Reply("Usage: /debug <post url>"@)
            } else {
                CommandStepView::Inspect(url)
            }
        },
    }
}

fn say(text: &str) -> (r: CommandStep)
    ensures
        r@ == CommandStepView::Reply(text@),
{
    CommandStep::Reply(text.to_owned())
}

fn is_empty(s: &str) -> (r: bool)
    ensures
        r == (s@.len() == 0),
{
    chars_of(s).len() == 0
}

fn listed_site(sites: &Vec<String>, site: &str) -> (r: bool)
    ensures
        r == crate::text::texts(sites@).contains(site@),
{
    let mut i: usize = 0;
    while i < sites.len()
        invariant
            i <= sites@.len(),
            forall|j: int| 0 <= j < i ==> (#[trigger] sites@[j])@ != site@,
        decreases sites@.len() - i,
    {
        if same(sites[i].as_str(), site) {
            assert(crate::text::texts(sites@)[i as int] == site@);
            return true;
        }
        i = i + 1;
    }
    proof {
        let all = crate::text::texts(sites@);
        assert forall|j: int| 0 <= j < all.len() implies all[j] != site@ by {
            assert(all[j] == sites@[j]@);
        }
    }
    false
}

fn set_forward_channel(arg: &str) -> (r: CommandStep)
    ensures
        r@ == set_channel_step(arg@),
{
    if is_empty(arg) {
        return CommandStep::Reply(channel_error_text(&SetForwardChannelError::EmptyParameter));
    }
    match parse_signed(arg) {
        Some(id) => CommandStep::FindChannel(ChannelRef::Id(id)),
        None => CommandStep::FindChannel(ChannelRef::Username(arg.to_owned())),
    }
}

fn set_template(arg: &str, replied: &Option<String>) -> (r: CommandStep)
    ensures
        r@ == set_template_step(arg@, crate::json::text_option(*replied)),
{
    let name = trim(arg);
    match replied {
        None => say("Please reply to a message to set as template."),
        Some(text) => {
            if !crate::text::contains(text.as_str(), "[]") {
                return say("Please reply to a message with [] to set as template.");
            }
            if is_empty(name.as_str()) {
                return say("Please provide a name for the template.");
            }
            if !fits_bytes(name.as_str(), MAX_TEMPLATE_NAME_BYTES) {
                return say("Template name is too long (max 55 bytes).");
            }
            let body = escape_text(text.as_str());
            if chars_of(body.as_str()).len() > MAX_TEMPLATE_BODY_CHARS {
                return say("Template is too long (max 1024 characters).");
            }
            CommandStep::Change(ChatEdit::SetTemplate { name, body })
        },
    }
}

fn remove_template(arg: &str) -> (r: CommandStep)
    ensures
        r@ == remove_template_step(arg@),
{
    let name = trim(arg);
    if is_empty(name.as_str()) {
        say("Usage: /remove_template <name> (see /settings for the saved names)")
    } else {
        CommandStep::Change(ChatEdit::RemoveTemplate(name))
    }
}

fn set_format(arg: &str, sites: &Vec<String>) -> (r: CommandStep)
    ensures
        r@ == set_format_step(arg@, crate::text::texts(sites@)),
{
    let v = chars_of(arg);
    let total: usize = v.len();
    let n = find_blank(&v);
    let site = slice_chars(&v, 0, n);
    assert(v@.subrange(0, n as int) =~= arg@.take(n as int));
    if n == total {
        return say("Usage: /set_format <site> <format>");
    }
    let rest = slice_chars(&v, n + 1, total);
    assert(v@.subrange(n + 1, total as int) =~= arg@.skip(n + 1));
    let format = trim(rest.as_str());
    if is_empty(format.as_str()) {
        return say("Usage: /set_format <site> <format>");
    }
    if !listed_site(sites, site.as_str()) {
        return say("Unknown site. Use twitter, bsky, pixiv, misskey or bilibili.");
    }
    if same(format.as_str(), "-") {
        return CommandStep::Change(ChatEdit::ResetFormat(site));
    }
    match unknown_placeholder(format.as_str()) {
        Some(token) => {
            let mut out = "Unknown placeholder {".to_owned();
            out.append(token.as_str());
            out.append("}. Available: {url} {author} {author_url} {title} {content} {tags}");
            CommandStep::Reply(out)
        },
        None => CommandStep::Change(ChatEdit::SetFormat { site, format }),
    }
}

fn clear_cache(arg: &str, x: &CommandContext) -> (r: CommandStep)
    ensures
        r@ == clear_cache_step(arg@, x@),
{
    let link = trim(arg);
    if require_admin(x).is_none() {
        return say("Admin only.");
    }
    if is_empty(link.as_str()) {
        return CommandStep::ClearAll;
    }
    match &x.key {
        Some(key) => CommandStep::ClearOne { key: key.clone(), link },
        None => say(
            "Unrecognized link. Use a twitter/x, pixiv, bsky, misskey or bilibili post URL.",
        ),
    }
}

/// Runs a command as far as it goes without the outside.
pub fn execute_command(command: &Command, x: &CommandContext) -> (r: CommandStep)
    ensures
        r@ == command_step(command@, x@),
{
    match command {
        Command::Start => CommandStep::Say(super::grammar::START_TEXT.to_owned()),
        Command::Help => CommandStep::Say(super::grammar::help_text()),
        Command::SetForwardChannel(arg) => set_forward_channel(arg.as_str()),
        Command::RemoveForwardChannel => CommandStep::Change(ChatEdit::RemoveChannel),
        Command::EditBeforeForward => CommandStep::Change(ChatEdit::ToggleEdit),
        Command::SetTemplate(arg) => set_template(arg.as_str(), &x.replied),
        Command::RemoveTemplate(arg) => remove_template(arg.as_str()),
        Command::Settings => CommandStep::ShowSettings,
        Command::BotDict => {
            if require_admin(x).is_some() {
                CommandStep::Dump
            } else {
                say("Admin only.")
            }
        },
        Command::SetFormat(arg) => set_format(arg.as_str(), &x.sites),
        Command::ClearCache(arg) => clear_cache(arg.as_str(), x),
        Command::Test(arg) => {
            let url = trim(arg.as_str());
            if is_empty(url.as_str()) {
                say("Usage: /test <post url>")
            } else if x.key.is_none() {
                say(NO_SITE_TEXT)
            } else {
                CommandStep::Send(url)
            }
        },
        Command::Debug(arg) => {
            let url = trim(arg.as_str());
            if is_empty(url.as_str()) {
                say("Usage: /debug <post url>")
            } else {
                CommandStep::Inspect(url)
            }
        },
    }
}

/// What is answered once the cache was cleared.
pub open spec fn cleared_words(removed: nat, link: Option<Seq<char>>) -> Seq<char> {
    match link {
        None => "Cleared "@ + crate::text::digits(removed) + " cached entr"@
            + crate::text::plural_of(removed as int) + "."@,
        Some(link) => "Cleared cache for "@ + link + " ("@ + crate::text::digits(removed)
            + " entr"@ + crate::text::plural_of(removed as int) + ")."@,
    }
}

pub fn cleared_text(removed: usize, link: Option<&str>) -> (r: String)
    ensures
        r@ == cleared_words(removed as nat, crate::queue::token_view(link)),
{
    match link {
        None => {
            let mut out = "Cleared ".to_owned();
            out.append(decimal(removed as u64).as_str());
            out.append(" cached entr");
            out.append(plural(removed).as_str());
            out.append(".");
            out
        },
        Some(link) => {
            let mut out = "Cleared cache for ".to_owned();
            out.append(link);
            out.append(" (");
            out.append(decimal(removed as u64).as_str());
            out.append(" entr");
            out.append(plural(removed).as_str());
            out.append(").");
            out
        },
    }
}

/// The dump of what is known of a chat, as it is sent.
pub fn state_dump(dump: &str) -> (r: String)
    ensures
        crate::text::capped(crate::html::escaped_text(dump@), MAX_DEBUG_DUMP_CHARS as int, r@),
{
    cap_text(escape_text(dump).as_str(), MAX_DEBUG_DUMP_CHARS)
}

// ---- the forward channel ----

/// Why a channel cannot be forwarded to.
#[derive(Debug)]
pub enum SetForwardChannelError {
    EmptyParameter,
    NotChannel,
    NotAdmin,
    /// The service refused to say, in these words.
    NotBotAdmin(String),
    NotBotCanPost,
}

pub open spec fn channel_error_words(e: SetForwardChannelError) -> Seq<char> {
    match e {
        SetForwardChannelError::EmptyParameter =>
            "Receive empty parameter.\nYou should enter a channel id or username"@,
        SetForwardChannelError::NotChannel => "Given id / username is not a channel"@,
        SetForwardChannelError::NotAdmin => "You are not an administrator of the channel"@,
        SetForwardChannelError::NotBotAdmin(words) => words@
            + "\nPlease add the bot as an admin to the channel"@,
        SetForwardChannelError::NotBotCanPost => "Bot can't post messages to the channel"@,
    }
}

pub fn channel_error_text(e: &SetForwardChannelError) -> (r: String)
    ensures
        r@ == channel_error_words(*e),
{
    match e {
        SetForwardChannelError::EmptyParameter =>
            "Receive empty parameter.\nYou should enter a channel id or username".to_owned(),
        SetForwardChannelError::NotChannel => "Given id / username is not a channel".to_owned(),
        SetForwardChannelError::NotAdmin =>
            "You are not an administrator of the channel".to_owned(),
        SetForwardChannelError::NotBotAdmin(words) => {
            let mut out = words.clone();
            out.append("\nPlease add the bot as an admin to the channel");
            out
        },
        SetForwardChannelError::NotBotCanPost =>
            "Bot can't post messages to the channel".to_owned(),
    }
}

/// What the service says of a chat.
#[derive(Clone, Copy, Debug)]
pub struct ChatInfo {
    pub id: i64,
    pub is_channel: bool,
}

/// An administrator of a channel.
#[derive(Clone, Copy, Debug)]
pub struct Admin {
    pub user_id: u64,
    pub can_post: bool,
}

/// After the chat was looked up: it has to be a channel, and somebody has to have
/// asked.
pub open spec fn chat_found(
    found: Result<ChatInfo, String>,
    sender: Option<u64>,
) -> Result<(i64, u64), SetForwardChannelError> {
    match found {
        Err(words) => Err(SetForwardChannelError::NotBotAdmin(words)),
        Ok(chat) => if !chat.is_channel {
            Err(SetForwardChannelError::NotChannel)
        } else {
            match sender {
                Some(sender) => Ok((chat.id, sender)),
                None => Err(SetForwardChannelError::NotAdmin),
            }
        },
    }
}

/// Tests a chat that was looked up; the result is its id and who asked.
pub fn after_chat(found: Result<ChatInfo, String>, sender: Option<u64>) -> (r: Result<
    (i64, u64),
    SetForwardChannelError,
>)
    ensures
        r == chat_found(found, sender),
{
    match found {
        Err(words) => Err(SetForwardChannelError::NotBotAdmin(words)),
        Ok(chat) => {
            if !chat.is_channel {
                return Err(SetForwardChannelError::NotChannel);
            }
            match sender {
                Some(sender) => Ok((chat.id, sender)),
                None => Err(SetForwardChannelError::NotAdmin),
            }
        },
    }
}

pub open spec fn administers(admins: Seq<Admin>, user: u64) -> bool {
    exists|i: int| 0 <= i < admins.len() && (#[trigger] admins[i]).user_id == user
}

pub open spec fn can_post(admins: Seq<Admin>, user: u64) -> bool {
    exists|i: int|
        0 <= i < admins.len() && (#[trigger] admins[i]).user_id == user && admins[i].can_post
}

/// Whether a user is among the administrators, and may post where that is asked.
fn finds(admins: &Vec<Admin>, user: u64, posting: bool) -> (r: bool)
    ensures
        r == if posting {
            can_post(admins@, user)
        } else {
            administers(admins@, user)
        },
{
    let mut i: usize = 0;
    while i < admins.len()
        invariant
            i <= admins@.len(),
            forall|j: int|
                0 <= j < i ==> !((#[trigger] admins@[j]).user_id == user && (!posting
                    || admins@[j].can_post)),
        decreases admins@.len() - i,
    {
        if admins[i].user_id == user && (!posting || admins[i].can_post) {
            assert(admins@[i as int].user_id == user);
            return true;
        }
        i = i + 1;
    }
    false
}

/// After the administrators were asked for: the sender has to be one of them.
pub fn after_admins(found: &Result<Vec<Admin>, String>, sender: u64) -> (r: Result<
    (),
    SetForwardChannelError,
>)
    ensures
        match found {
            Err(words) => r matches Err(SetForwardChannelError::NotBotAdmin(w)) && w@ == words@,
            Ok(admins) => if administers(admins@, sender) {
                r is Ok
            } else {
                r matches Err(SetForwardChannelError::NotAdmin)
            },
        },
{
    match found {
        Err(words) => Err(SetForwardChannelError::NotBotAdmin(words.clone())),
        Ok(admins) => {
            if finds(admins, sender, false) {
                return Ok(());
            }
            Err(SetForwardChannelError::NotAdmin)
        },
    }
}

/// After the bot learnt who it is: it has to be an administrator that may post.
pub fn after_me(me: Result<u64, String>, admins: &Vec<Admin>) -> (r: Result<
    (),
    SetForwardChannelError,
>)
    ensures
        match me {
            Err(words) => r == Err::<(), SetForwardChannelError>(
                SetForwardChannelError::NotBotAdmin(words),
            ),
            Ok(me) => if can_post(admins@, me) {
                r is Ok
            } else {
                r matches Err(SetForwardChannelError::NotBotCanPost)
            },
        },
{
    match me {
        Err(words) => Err(SetForwardChannelError::NotBotAdmin(words)),
        Ok(me) => {
            if finds(admins, me, true) {
                return Ok(());
            }
            Err(SetForwardChannelError::NotBotCanPost)
        },
    }
}

// ---- what a link would send ----

/// The caption that a link would send: the rendered one, with the text of a long
/// post quoted. `text` is the post's title and content.
pub fn preview_caption(rendered: &str, text: &str, quote_chars: usize) -> (r: String)
    ensures
        crate::caption::quotes(rendered@, text@, quote_chars as int, r@),
{
    crate::caption::quote_long_caption(rendered, text, quote_chars)
}

/// The caption in a report: quoted, unless it holds a quotation already.
pub open spec fn report_caption(caption: Seq<char>) -> Seq<char> {
    if crate::text::has(caption, "<blockquote"@) {
        caption
    } else {
        "<blockquote>"@ + caption + "</blockquote>"@
    }
}

pub open spec fn kind_name(kind: CachedMediaKind) -> Seq<char> {
    match kind {
        CachedMediaKind::Photo => "image"@,
        CachedMediaKind::Video => "video"@,
        CachedMediaKind::Animation => "gif"@,
    }
}

/// The line of a medium in a report; `i` counts from nothing.
pub open spec fn media_line(i: nat, m: SiteMediaView) -> Seq<char> {
    "\n  "@ + crate::text::digits(i + 1) + ". "@ + kind_name(m.kind) + ": "@
        + crate::html::escaped_text(m.url)
}

/// The lines of the first media of a report.
pub open spec fn media_lines(media: Seq<SiteMediaView>, n: nat) -> Seq<char>
    decreases n,
{
    if n == 0 {
        Seq::empty()
    } else {
        media_lines(media, (n - 1) as nat) + media_line((n - 1) as nat, media[n - 1])
    }
}

/// The lines of the render fields, which are escaped already but for the URL.
pub open spec fn render_lines(f: Option<RenderFields>) -> Seq<char> {
    match f {
        Some(f) => "\nauthor: "@ + f.author@ + "\nauthor_url: "@ + crate::html::escaped_text(
            f.author_url@,
        ) + "\ntags: "@ + f.tags@,
        None => Seq::empty(),
    }
}

/// A report before it is cut to the service's limit.
pub open spec fn report_words(
    url: Seq<char>,
    key: Seq<char>,
    site_id: Seq<char>,
    source_url: Seq<char>,
    title: Seq<char>,
    content: Seq<char>,
    render: Option<RenderFields>,
    sensitive: bool,
    caption: Seq<char>,
    media: Seq<SiteMediaView>,
) -> Seq<char> {
    "Parse result for "@ + crate::html::escaped_text(url) + "\nsite: "@ + site_id + "\nkey: "@
        + crate::html::escaped_text(key) + "\nsource_url: "@ + crate::html::escaped_text(source_url)
        + "\ntitle: "@ + crate::html::escaped_text(title) + "\ncontent: "@
        + crate::html::escaped_text(content) + render_lines(render) + "\nsensitive: "@ + (
    if sensitive {
        "true"@
    } else {
        "false"@
    }) + "\ncaption: "@ + report_caption(caption) + "\nmedia ("@ + crate::text::digits(media.len())
        + "):"@ + media_lines(media, media.len())
}

fn render_text(render: &Option<RenderFields>) -> (r: String)
    ensures
        r@ == render_lines(*render),
{
    match render {
        Some(f) => {
            let mut out = "\nauthor: ".to_owned();
            out.append(f.author.as_str());
            out.append("\nauthor_url: ");
            out.append(escape_text(f.author_url.as_str()).as_str());
            out.append("\ntags: ");
            out.append(f.tags.as_str());
            out
        },
        None => {
            let out = String::new();
            assert(out@ =~= Seq::<char>::empty());
            out
        },
    }
}

fn caption_text(caption: &str) -> (r: String)
    ensures
        r@ == report_caption(caption@),
{
    if crate::text::contains(caption, "<blockquote") {
        return caption.to_owned();
    }
    let mut out = "<blockquote>".to_owned();
    out.append(caption);
    out.append("</blockquote>");
    out
}

fn media_text(media: &Vec<Media>) -> (r: String)
    ensures
        r@ == media_lines(crate::site::site_media_views(media@), media@.len()),
{
    let ghost all = crate::site::site_media_views(media@);
    let mut out = String::new();
    let n: usize = media.len();
    let mut i: usize = 0;
    assert(out@ =~= Seq::<char>::empty());
    while i < n
        invariant
            n == media@.len(),
            i <= n,
            all == crate::site::site_media_views(media@),
            out@ == media_lines(all, i as nat),
        decreases n - i,
    {
        assert(all[i as int] == media@[i as int]@);
        let mut line = "\n  ".to_owned();
        line.append(decimal(i as u64 + 1).as_str());
        line.append(". ");
        match media[i].kind() {
            CachedMediaKind::Photo => {
                line.append("image");
            },
            CachedMediaKind::Video => {
                line.append("video");
            },
            CachedMediaKind::Animation => {
                line.append("gif");
            },
        }
        line.append(": ");
        line.append(escape_text(media[i].url().as_str()).as_str());
        out.append(line.as_str());
        i = i + 1;
    }
    out
}

/// What is found behind a link, as an HTML message. `key` is the link's key where
/// a site knows it, and `caption` is the one that would be sent, cut to the
/// service's limit.
pub fn debug_report(
    url: &str,
    key: Option<&str>,
    site_id: &str,
    source_url: &str,
    title: &str,
    content: &str,
    render: &Option<RenderFields>,
    sensitive: bool,
    caption: &str,
    media: &Vec<Media>,
) -> (r: String)
    ensures
        crate::text::capped(
            report_words(
                url@,
                crate::queue::log_key_of(crate::queue::token_view(key)),
                site_id@,
                source_url@,
                title@,
                content@,
                *render,
                sensitive,
                caption@,
                crate::site::site_media_views(media@),
            ),
            MAX_DEBUG_REPORT_CHARS as int,
            r@,
        ),
{
    let mut out = "Parse result for ".to_owned();
    out.append(escape_text(url).as_str());
    out.append("\nsite: ");
    out.append(site_id);
    out.append("\nkey: ");
    out.append(escape_text(crate::queue::log_key(key).as_str()).as_str());
    out.append("\nsource_url: ");
    out.append(escape_text(source_url).as_str());
    out.append("\ntitle: ");
    out.append(escape_text(title).as_str());
    out.append("\ncontent: ");
    out.append(escape_text(content).as_str());
    out.append(render_text(render).as_str());
    out.append("\nsensitive: ");
    if sensitive {
        out.append("true");
    } else {
        out.append("false");
    }
    out.append("\ncaption: ");
    out.append(caption_text(caption).as_str());
    out.append("\nmedia (");
    out.append(decimal(media.len() as u64).as_str());
    out.append("):");
    out.append(media_text(media).as_str());
    cap_text(out.as_str(), MAX_DEBUG_REPORT_CHARS)
}

/// What is answered where a link could not be inspected: no site knows it, or the
/// fetch failed in some words.
pub fn inspect_failure(words: Option<&str>) -> (r: String)
    ensures
        r@ == match crate::queue::token_view(words) {
            Some(words) => "Fetch failed: "@ + words,
            None => NO_SITE_TEXT@,
        },
{
    match words {
        Some(words) => {
            let mut out = "Fetch failed: ".to_owned();
            out.append(words);
            out
        },
        None => NO_SITE_TEXT.to_owned(),
    }
}

// ---- laws ----

/// Whoever is no admin gets a refusal from the commands that are for admins, and
/// nothing else happens.
pub proof fn law_admin_commands_are_refused(c: CommandView, x: ContextView)
    requires
        !is_admin(x),
        c is BotDict || c is ClearCache,
    ensures
        command_step(c, x) == CommandStepView::Reply("Admin only."@),
{
}

/// A template that is saved has a name that its button can carry: with its prefix
/// it takes at most 64 bytes.
pub proof fn law_saved_names_fit_their_button(c: CommandView, x: ContextView)
    ensures
        command_step(c, x) matches CommandStepView::Change(
            ChatEditView::SetTemplate { name, .. },
        ) ==> name.len() > 0 && crate::text::text_bytes(
            crate::send::post::template_button(name).data,
        ) <= 64,
{
    if let CommandStepView::Change(ChatEditView::SetTemplate { name, .. }) = command_step(c, x) {
        crate::text::lemma_bytes_add("template|"@, name);
        reveal_strlit("template|");
        crate::text::lemma_ascii_bytes("template|"@);
    }
}

/// No format with an unknown placeholder is ever saved, and none for an unknown
/// site.
pub proof fn law_saved_formats_are_known(c: CommandView, x: ContextView)
    ensures
        command_step(c, x) matches CommandStepView::Change(
            ChatEditView::SetFormat { site, format },
        ) ==> first_unknown(format) is None && x.sites.contains(site) && format.len() > 0,
{
}

/// A chat never gets more templates than it may have.
pub proof fn law_templates_stay_bounded(c: ChatView, e: ChatEditView)
    requires
        c.template.dom().finite(),
        c.template.dom().len() <= MAX_TEMPLATES,
    ensures
        edited(c, e).0.template.dom().finite(),
        edited(c, e).0.template.dom().len() <= MAX_TEMPLATES,
{
    match e {
        ChatEditView::SetTemplate { name, body } => {
            assert(c.template.insert(name, body).dom() =~= c.template.dom().insert(name));
        },
        ChatEditView::RemoveTemplate(name) => {
            assert(c.template.remove(name).dom() =~= c.template.dom().remove(name));
        },
        _ => {},
    }
}

/// A change touches one setting and leaves the others as they are.
pub proof fn law_a_change_touches_one_setting(c: ChatView, e: ChatEditView)
    ensures
        !(e is SetChannel || e is RemoveChannel) ==> edited(c, e).0.forward_channel_id
            == c.forward_channel_id,
        !(e is ToggleEdit) ==> edited(c, e).0.edit_before_forward == c.edit_before_forward
            && edited(c, e).0.edit_message == c.edit_message,
        !(e is SetTemplate || e is RemoveTemplate) ==> edited(c, e).0.template == c.template,
        !(e is SetFormat || e is ResetFormat) ==> edited(c, e).0.message_format
            == c.message_format,
{
}

/// What was set is what is read: a format that was set is the one that the site's
/// captions use, and a reset goes back to none.
pub proof fn law_formats_read_back(c: ChatView, site: Seq<char>, format: Seq<char>)
    ensures
        crate::state::format_of(edited(c, ChatEditView::SetFormat { site, format }).0, site)
            == format,
        crate::state::format_of(
            edited(c, ChatEditView::ResetFormat(site)).0,
            site,
        ) == Seq::<char>::empty(),
{
}

/// Toggling editing off leaves no prompt open, so that nothing of before can be
/// forwarded.
pub proof fn law_disabling_gives_up_the_prompts(c: ChatView)
    requires
        c.edit_before_forward,
        c.forward_channel_id is Some,
    ensures
        edited(c, ChatEditView::ToggleEdit).0.edit_message == Map::<
            i64,
            crate::state::EditView,
        >::empty(),
{
}

/// What was set is what the chat has: a channel, a template under its name, a format for
/// its site, each without touching the others of its sort. What was removed is gone, and
/// what was not there leaves the chat as it was.
pub proof fn law_settings_read_back(
    c: ChatView,
    id: i64,
    name: Seq<char>,
    body: Seq<char>,
    other: Seq<char>,
)
    requires
        other != name,
    ensures
        edited(c, ChatEditView::SetChannel(id)).0.forward_channel_id == Some(id),
        edited(c, ChatEditView::RemoveChannel).0.forward_channel_id is None,
        c.forward_channel_id is None ==> edited(c, ChatEditView::RemoveChannel).0 == c,
        ({
            let set = edited(c, ChatEditView::SetTemplate { name, body });
            let room = c.template.contains_key(name) || c.template.dom().len() < 50;
            &&& room ==> set.0.template.contains_key(name) && set.0.template[name] == body
                && set.1 is TemplateSet
            &&& !room ==> set.0 == c && set.1 is TooManyTemplates
            &&& set.0.template.contains_key(other) == c.template.contains_key(other)
            &&& set.0.template[other] == c.template[other]
        }),
        ({
            let gone = edited(c, ChatEditView::RemoveTemplate(name));
            &&& !gone.0.template.contains_key(name)
            &&& gone.0.template.contains_key(other) == c.template.contains_key(other)
            &&& c.template.contains_key(other) ==> gone.0.template[other] == c.template[other]
            &&& c.template.contains_key(name) ==> gone.1 == EditedView::TemplateRemoved(name)
            &&& !c.template.contains_key(name) ==> gone.1 is NoTemplate
        }),
        ({
            let set = edited(c, ChatEditView::SetFormat { site: name, format: body }).0;
            let reset = edited(c, ChatEditView::ResetFormat(name)).0;
            &&& crate::state::format_of(set, other) == crate::state::format_of(c, other)
            &&& crate::state::format_of(reset, other) == crate::state::format_of(c, other)
        }),
{
}

/// Editing before forwarding is switched on and off in turn where there is a channel to
/// forward to, and not at all where there is none. Switching it on keeps the prompts
/// that are open.
pub proof fn law_editing_is_switched_in_turn(c: ChatView)
    ensures
        ({
            let once = edited(c, ChatEditView::ToggleEdit).0;
            let twice = edited(once, ChatEditView::ToggleEdit).0;
            &&& c.forward_channel_id is Some ==> once.edit_before_forward == !c.edit_before_forward
                && twice.edit_before_forward == c.edit_before_forward
            &&& c.forward_channel_id is None ==> once == c
            &&& !c.edit_before_forward ==> once.edit_message == c.edit_message
        }),
        edited(c, ChatEditView::ToggleEdit).1 is EditEnabled <==> c.forward_channel_id is Some
            && !c.edit_before_forward,
        edited(c, ChatEditView::ToggleEdit).1 is EditDisabled <==> c.forward_channel_id is Some
            && c.edit_before_forward,
{
}

/// Each command does its own work: the ones that change a chat ask for that change, the
/// ones with a link work on that link, without the blanks round it, and the ones for
/// admins work for admins.
pub proof fn law_commands_do_their_own_work(x: ContextView, arg: Seq<char>)
    ensures
        command_step(CommandView::RemoveForwardChannel, x) == CommandStepView::Change(
            ChatEditView::RemoveChannel,
        ),
        command_step(CommandView::EditBeforeForward, x) == CommandStepView::Change(
            ChatEditView::ToggleEdit,
        ),
        command_step(CommandView::Settings, x) is ShowSettings,
        command_step(CommandView::Start, x) is Say,
        command_step(CommandView::Help, x) is Say,
        command_step(CommandView::BotDict, x) is Dump <==> is_admin(x),
        command_step(CommandView::Test(arg), x) is Send <==> crate::text::trimmed(arg).len() > 0
            && x.key is Some,
        command_step(CommandView::Test(arg), x) matches CommandStepView::Send(url) ==> url
            == crate::text::trimmed(arg),
        command_step(CommandView::Debug(arg), x) is Inspect <==> crate::text::trimmed(arg).len()
            > 0,
        command_step(CommandView::Debug(arg), x) matches CommandStepView::Inspect(url) ==> url
            == crate::text::trimmed(arg),
        command_step(CommandView::ClearCache(arg), x) is ClearAll <==> is_admin(x)
            && crate::text::trimmed(arg).len() == 0,
        command_step(CommandView::ClearCache(arg), x) is ClearOne <==> is_admin(x)
            && crate::text::trimmed(arg).len() > 0 && x.key is Some,
        command_step(CommandView::ClearCache(arg), x) matches CommandStepView::ClearOne { key, link }
            ==> Some(key) == x.key && link == crate::text::trimmed(arg),
        command_step(CommandView::RemoveTemplate(arg), x) is Change <==> crate::text::trimmed(
            arg,
        ).len() > 0,
        command_step(CommandView::RemoveTemplate(arg), x) matches CommandStepView::Change(e) ==> e
            == ChatEditView::RemoveTemplate(crate::text::trimmed(arg)),
        command_step(CommandView::SetForwardChannel(arg), x) is FindChannel <==> arg.len() > 0,
        command_step(CommandView::SetForwardChannel(arg), x) matches CommandStepView::FindChannel(
            channel,
        ) ==> match crate::text::signed_value(arg) {
            Some(id) => channel == ChannelView::Id(id as i64),
            None => channel == ChannelView::Username(arg),
        },
{
}

/// An admin is one whose id is listed; a sender that is not known is never taken for
/// another one.
pub proof fn law_admins_are_listed(x: ContextView)
    ensures
        x.sender_id matches Some(id) ==> (is_admin(x) <==> x.admin_ids.contains(id)),
        x.sender_id is None && is_admin(x) ==> x.admin_ids.contains(-1i64),
{
}

/// A template is saved exactly where the command replies to a text with a place for the
/// link, has a name that fits its button, and the text fits a caption. It is saved under
/// the name without the blanks round it, and its body is the text, escaped.
pub proof fn law_templates_are_what_was_replied_to(x: ContextView, arg: Seq<char>)
    ensures
        ({
            let name = crate::text::trimmed(arg);
            let step = command_step(CommandView::SetTemplate(arg), x);
            &&& step is Change <==> (x.replied matches Some(text) && crate::text::has(text, "[]"@)
                && 0 < name.len() && crate::text::text_bytes(name) <= 55
                && crate::html::escaped_text(text).len() <= 1024)
            &&& step matches CommandStepView::Change(e) ==> e == (ChatEditView::SetTemplate {
                name,
                body: crate::html::escaped_text(x.replied->0),
            })
            &&& !(step is Change) ==> step is Reply
        }),
{
}

/// A format is saved for the site that stands before the first blank, and is all that
/// follows it, without the blanks round it. A lone dash goes back to the site's own
/// caption.
pub proof fn law_formats_are_saved_for_their_site(
    x: ContextView,
    site: Seq<char>,
    rest: Seq<char>,
)
    requires
        crate::text::until_blank(site + seq![' '] + rest) == site.len(),
        x.sites.contains(site),
        crate::text::trimmed(rest).len() > 0,
    ensures
        ({
            let step = command_step(CommandView::SetFormat(site + seq![' '] + rest), x);
            let format = crate::text::trimmed(rest);
            &&& format == seq!['-'] ==> step == CommandStepView::Change(
                ChatEditView::ResetFormat(site),
            )
            &&& format != seq!['-'] && first_unknown(format) is None ==> step
                == CommandStepView::Change(ChatEditView::SetFormat { site, format })
            &&& format != seq!['-'] && first_unknown(format) is Some ==> step is Reply
        }),
{
    let arg = site + seq![' '] + rest;
    reveal_strlit("-");
    assert("-"@ =~= seq!['-']);
    assert(arg.take(site.len() as int) =~= site);
    assert(arg.skip((site.len() + 1) as int) =~= rest);
}

/// A token that a format is refused for stands in it, in braces, and is no placeholder;
/// a text without braces has none. The placeholders are the six parts of a post.
pub proof fn law_refused_tokens_stand_in_the_format(s: Seq<char>)
    ensures
        first_unknown(s) matches Some(token) ==> !placeholders().contains(token)
            && crate::text::has(s, seq!['{'] + token + seq!['}']),
        (forall|i: int| 0 <= i < s.len() ==> #[trigger] s[i] != '{') ==> first_unknown(s) is None,
    decreases s.len(),
{
    let open = crate::text::until_char(s, '{');
    crate::text::lemma_until_char(s, '{');
    if 0 <= open < s.len() {
        let after = s.skip(open + 1);
        let close = crate::text::until_char(after, '}');
        crate::text::lemma_until_char(after, '}');
        if 0 <= close < after.len() {
            let token = after.take(close);
            let p = placeholders();
            if !is_placeholder(token) {
                assert forall|k: int| 0 <= k < p.len() implies p[k] != token by {
                    assert(p[0] == "url"@ && p[1] == "author"@ && p[2] == "author_url"@ && p[3]
                        == "title"@ && p[4] == "content"@ && p[5] == "tags"@);
                }
                let braced = seq!['{'] + token + seq!['}'];
                assert(s.subrange(open, open + braced.len()) =~= braced) by {
                    assert(after[close] == s[open + 1 + close]);
                }
                assert(crate::text::occurs_at(s, braced, open));
            } else {
                let rest = after.skip(close + 1);
                law_refused_tokens_stand_in_the_format(rest);
                if let Some(t) = first_unknown(rest) {
                    let braced = seq!['{'] + t + seq!['}'];
                    let i = choose|i: int| crate::text::occurs_at(rest, braced, i);
                    let at = open + close + 2 + i;
                    assert(s.subrange(at, at + braced.len()) =~= rest.subrange(
                        i,
                        i + braced.len(),
                    ));
                    assert(crate::text::occurs_at(s, braced, at));
                }
            }
        }
    }
}

/// A channel is taken only where the service knows it as one and says who asked for it;
/// it is the channel that was asked for.
pub proof fn law_only_channels_are_forwarded_to(
    found: Result<ChatInfo, String>,
    sender: Option<u64>,
)
    ensures
        chat_found(found, sender) is Ok <==> (found matches Ok(chat) && chat.is_channel)
            && sender is Some,
        chat_found(found, sender) matches Ok(pair) ==> pair.0 == found->Ok_0.id && Some(pair.1)
            == sender,
{
}

/// A report lists every medium of the post, under its number.
pub proof fn law_reports_list_every_medium(media: Seq<SiteMediaView>, n: nat, i: int)
    requires
        0 <= i < n <= media.len(),
    ensures
        crate::text::has(media_lines(media, n), media_line(i as nat, media[i])),
        crate::text::has(
            media_line(i as nat, media[i]),
            crate::html::escaped_text(media[i].url),
        ),
        crate::text::has(media_line(i as nat, media[i]), crate::text::digits((i + 1) as nat)),
    decreases n,
{
    let line = media_line(i as nat, media[i]);
    let url = crate::html::escaped_text(media[i].url);
    let number = crate::text::digits((i + 1) as nat);
    assert(line.subrange(line.len() - url.len(), line.len() as int) =~= url);
    assert(crate::text::occurs_at(line, url, line.len() - url.len()));
    let at = "\n  "@.len() as int;
    assert(line.subrange(at, at + number.len()) =~= number);
    assert(crate::text::occurs_at(line, number, at));
    let all = media_lines(media, n);
    let front = media_lines(media, (n - 1) as nat);
    if i == n - 1 {
        assert(all.subrange(front.len() as int, (front.len() + line.len()) as int) =~= line);
        assert(crate::text::occurs_at(all, line, front.len() as int));
    } else {
        law_reports_list_every_medium(media, (n - 1) as nat, i);
        let k = choose|k: int| crate::text::occurs_at(front, line, k);
        assert(all.subrange(k, k + line.len()) =~= front.subrange(k, k + line.len()));
        assert(crate::text::occurs_at(all, line, k));
    }
}

/// The settings tell the channel that posts are forwarded to, whether they are edited
/// first, and how many templates there are.
pub proof fn law_settings_are_told(c: ChatView)
    ensures
        c.forward_channel_id matches Some(id) ==> crate::text::has(
            settings_words(c),
            crate::text::signed_digits(id as int),
        ),
        crate::text::has(
            settings_words(c),
            if c.edit_before_forward {
                "Edit before forward: on"@
            } else {
                "Edit before forward: off"@
            },
        ),
{
    let all = settings_words(c);
    let head = channel_line(c.forward_channel_id);
    if let Some(id) = c.forward_channel_id {
        let n = crate::text::signed_digits(id as int);
        let at = "Forward channel: "@.len() as int;
        assert(head.subrange(at, at + n.len()) =~= n);
        assert(all.subrange(at, at + n.len()) =~= n);
        assert(crate::text::occurs_at(all, n, at));
    }
    let line = edit_line(c.edit_before_forward);
    let at = (head.len() + "\n"@.len()) as int;
    assert(all.subrange(at, at + line.len()) =~= line);
    assert(crate::text::occurs_at(all, line, at));
}

/// The settings show every format of the chat with its site, how many templates there
/// are, and the first thirty of them by name.
pub proof fn law_settings_list_formats_and_templates(
    c: ChatView,
    sites: Seq<Seq<char>>,
    names: Seq<Seq<char>>,
    i: int,
    k: int,
)
    requires
        crate::names::lists(sites, c.message_format.dom()),
        crate::names::lists(names, c.template.dom()),
    ensures
        0 <= i < sites.len() ==> crate::text::has(
            settings_words(c),
            sites[i] + " => "@ + c.message_format[sites[i]],
        ),
        0 <= k < names.len() && k < 30 ==> crate::text::has(settings_words(c), names[k]),
        names.len() > 0 ==> crate::text::has(settings_words(c), crate::text::digits(names.len())),
{
    crate::names::law_listing_is_unique(sites, c.message_format.dom());
    crate::names::law_listing_is_unique(names, c.template.dom());
    let all = settings_words(c);
    let head = channel_line(c.forward_channel_id) + "\n"@ + edit_line(c.edit_before_forward)
        + "\n"@;
    let lines = crate::names::sorted(format_lines(c.message_format));
    let formats = formats_text(lines);
    let templates = templates_text(names);
    let none = Seq::<char>::empty();
    if 0 <= i < sites.len() {
        let line = sites[i] + " => "@ + c.message_format[sites[i]];
        assert(format_lines(c.message_format)[i] == line);
        lemma_sorted_contains(format_lines(c.message_format), i);
        let j = lines.index_of(line);
        crate::text::law_joined_texts_stand_in_the_whole(lines, "\n  "@, j);
        let whole = crate::text::joined(lines, "\n  "@);
        crate::text::law_parts_of_parts_stand_in_the_whole(
            head + "Caption formats:\n  "@,
            whole,
            "\n"@ + templates,
            line,
        );
        assert(all =~= head + "Caption formats:\n  "@ + whole + ("\n"@ + templates));
    }
    if names.len() > 0 {
        let shown = crate::send::post::first_of(names, 30);
        let list = crate::text::joined(shown, ", "@);
        let count = crate::text::digits(names.len());
        let open = "Templates ("@;
        let rest = if names.len() > 30 {
            ", +"@ + crate::text::digits((names.len() - 30) as nat) + " more"@
        } else {
            none
        };
        assert(templates =~= open + count + "): "@ + list + rest);
        let front = head + formats + "\n"@;
        assert(all =~= (front + open) + count + ("): "@ + list + rest));
        crate::text::law_texts_are_found_where_they_stand(
            front + open,
            count,
            "): "@ + list + rest,
            none,
        );
        if 0 <= k < names.len() && k < 30 {
            assert(shown[k] == names[k]);
            crate::text::law_joined_texts_stand_in_the_whole(shown, ", "@, k);
            crate::text::law_parts_of_parts_stand_in_the_whole(
                front + open + count + "): "@,
                list,
                rest,
                names[k],
            );
            assert(all =~= (front + open + count + "): "@) + list + rest);
        }
    }
}

proof fn lemma_sorted_contains(lines: Seq<Seq<char>>, i: int)
    requires
        0 <= i < lines.len(),
    ensures
        crate::names::sorted(lines).contains(lines[i]),
{
    crate::names::law_sorting_keeps_every_text(lines);
    lines.to_multiset_ensures();
    crate::names::sorted(lines).to_multiset_ensures();
    assert(lines.contains(lines[i]));
    assert(lines.to_multiset().count(lines[i]) > 0);
}

/// A report tells of a link what was found behind it: the link, its key, its site, the
/// post's title and content, whether it is sensitive, the caption it would get, and its
/// media.
pub proof fn law_reports_tell_what_was_found(
    url: Seq<char>,
    key: Seq<char>,
    site: Seq<char>,
    source: Seq<char>,
    title: Seq<char>,
    content: Seq<char>,
    render: Option<RenderFields>,
    sensitive: bool,
    caption: Seq<char>,
    media: Seq<SiteMediaView>,
)
    ensures
        ({
            let report = report_words(
                url,
                key,
                site,
                source,
                title,
                content,
                render,
                sensitive,
                caption,
                media,
            );
            let esc = |s: Seq<char>| crate::html::escaped_text(s);
            &&& crate::text::has(report, "Parse result for "@ + esc(url))
            &&& crate::text::has(report, "\nsite: "@ + site)
            &&& crate::text::has(report, "\nkey: "@ + esc(key))
            &&& crate::text::has(report, "\nsource_url: "@ + esc(source))
            &&& crate::text::has(report, "\ntitle: "@ + esc(title))
            &&& crate::text::has(report, "\ncontent: "@ + esc(content))
            &&& crate::text::has(
                report,
                if sensitive {
                    "\nsensitive: "@ + "true"@
                } else {
                    "\nsensitive: "@ + "false"@
                },
            )
            &&& crate::text::has(report, caption)
            &&& crate::text::has(report, "\nmedia ("@ + crate::text::digits(media.len()) + "):"@)
            &&& media_lines(media, media.len()).is_suffix_of(report)
        }),
{
    let w0 = "Parse result for "@ + crate::html::escaped_text(url);
    assert(crate::text::has(w0, w0)) by {
        assert(w0.subrange(0, w0.len() as int) =~= w0);
        assert(crate::text::occurs_at(w0, w0, 0));
    }
    let w1 = w0 + "\nsite: "@ + site;
    lemma_more(w0, "\nsite: "@, site);
    let w2 = w1 + "\nkey: "@ + crate::html::escaped_text(key);
    lemma_more(w1, "\nkey: "@, crate::html::escaped_text(key));
    let w3 = w2 + "\nsource_url: "@ + crate::html::escaped_text(source);
    lemma_more(w2, "\nsource_url: "@, crate::html::escaped_text(source));
    let w4 = w3 + "\ntitle: "@ + crate::html::escaped_text(title);
    lemma_more(w3, "\ntitle: "@, crate::html::escaped_text(title));
    let w5 = w4 + "\ncontent: "@ + crate::html::escaped_text(content);
    lemma_more(w4, "\ncontent: "@, crate::html::escaped_text(content));
    let w6 = w5 + render_lines(render);
    lemma_one_more(w5, render_lines(render));
    let said = if sensitive {
        "true"@
    } else {
        "false"@
    };
    let w7 = w6 + "\nsensitive: "@ + said;
    lemma_more(w6, "\nsensitive: "@, said);
    let w8 = w7 + "\ncaption: "@ + report_caption(caption);
    lemma_more(w7, "\ncaption: "@, report_caption(caption));
    lemma_caption_in_report(caption);
    let count = crate::text::digits(media.len());
    let w9 = w8 + "\nmedia ("@ + count + "):"@;
    lemma_more(w8, "\nmedia ("@, count);
    lemma_one_more(w8 + "\nmedia ("@ + count, "):"@);
    assert(crate::text::has(w9, "\nmedia ("@ + count + "):"@)) by {
        let line = "\nmedia ("@ + count + "):"@;
        assert(w9 =~= w8 + line);
        lemma_one_more(w8, line);
    }
    let l = media_lines(media, media.len());
    lemma_one_more(w9, l);
    let whole = w9 + l;
    assert(whole.subrange(whole.len() - l.len(), whole.len() as int) =~= l);
}

proof fn lemma_one_more(w: Seq<char>, x: Seq<char>)
    ensures
        crate::text::has(w + x, x),
        forall|p: Seq<char>|
            crate::text::has(w, p) || crate::text::has(x, p) ==> #[trigger] crate::text::has(
                w + x,
                p,
            ),
{
    let none = Seq::<char>::empty();
    assert(w + x + none =~= w + x);
    assert(none + w + x =~= w + x);
    crate::text::law_texts_are_found_where_they_stand(w, x, none, none);
    assert forall|p: Seq<char>|
        crate::text::has(w, p) || crate::text::has(x, p) implies #[trigger] crate::text::has(
        w + x,
        p,
    ) by {
        if crate::text::has(w, p) {
            crate::text::law_parts_of_parts_stand_in_the_whole(none, w, x, p);
        } else {
            crate::text::law_parts_of_parts_stand_in_the_whole(w, x, none, p);
        }
    }
}

proof fn lemma_more(w: Seq<char>, x: Seq<char>, y: Seq<char>)
    ensures
        crate::text::has(w + x + y, x + y),
        forall|p: Seq<char>|
            crate::text::has(w, p) || crate::text::has(y, p) ==> #[trigger] crate::text::has(
                w + x + y,
                p,
            ),
{
    assert(w + x + y =~= w + (x + y));
    lemma_one_more(w, x + y);
    lemma_one_more(x, y);
}

proof fn lemma_caption_in_report(caption: Seq<char>)
    ensures
        crate::text::has(report_caption(caption), caption),
{
    let none = Seq::<char>::empty();
    let (open, close) = if crate::text::has(caption, "<blockquote"@) {
        (none, none)
    } else {
        ("<blockquote>"@, "</blockquote>"@)
    };
    crate::text::law_texts_are_found_where_they_stand(open, caption, close, none);
    assert(report_caption(caption) =~= open + caption + close);
}

/// How much of the cache was cleared is told in numbers, and for a link with the link.
pub proof fn law_clearing_tells_how_much(removed: nat, link: Option<Seq<char>>)
    ensures
        crate::text::has(cleared_words(removed, link), crate::text::digits(removed)),
        link matches Some(l) ==> crate::text::has(cleared_words(removed, link), l),
{
    let n = crate::text::digits(removed);
    let none = Seq::<char>::empty();
    match link {
        None => {
            let rest = " cached entr"@ + crate::text::plural_of(removed as int) + "."@;
            crate::text::law_texts_are_found_where_they_stand("Cleared "@, n, rest, none);
            assert(cleared_words(removed, link) =~= "Cleared "@ + n + rest);
        },
        Some(l) => {
            let rest = " entr"@ + crate::text::plural_of(removed as int) + ")."@;
            let front = "Cleared cache for "@;
            crate::text::law_texts_are_found_where_they_stand(front + l + " ("@, n, rest, none);
            assert(cleared_words(removed, link) =~= (front + l + " ("@) + n + rest);
            crate::text::law_texts_are_found_where_they_stand(front, l, " ("@ + n + rest, none);
            assert(cleared_words(removed, link) =~= front + l + (" ("@ + n + rest));
        },
    }
}

/// A change that could only be remembered is never answered like one that was written
/// down; what was removed, or is not there, is named, and where there are other templates
/// they are listed.
pub proof fn law_answers_tell_what_came_of_a_change(name: Seq<char>, saved: Seq<Seq<char>>, i: int)
    ensures
        edited_words(EditedView::ChannelSet, true) != edited_words(EditedView::ChannelSet, false),
        edited_words(EditedView::TemplateSet, true) != edited_words(EditedView::TemplateSet, false),
        edited_words(EditedView::FormatSet, true) != edited_words(EditedView::FormatSet, false),
        edited_words(EditedView::FormatReset, true) != edited_words(EditedView::FormatReset, false),
        crate::text::has(edited_words(EditedView::ChannelSet, false), "retry later"@),
        crate::text::has(edited_words(EditedView::TemplateSet, false), "retry later"@),
        crate::text::has(edited_words(EditedView::FormatSet, false), "retry later"@),
        crate::text::has(edited_words(EditedView::FormatReset, false), "retry later"@),
        crate::text::has(edited_words(EditedView::TemplateRemoved(name), true), name),
        crate::text::has(edited_words(EditedView::NoTemplate { name, saved }, true), name),
        0 <= i < saved.len() ==> crate::text::has(
            edited_words(EditedView::NoTemplate { name, saved }, true),
            saved[i],
        ),
        edit_answer(None, true) == CHAT_STATE_READ_ERROR@,
        edit_answer(Some(EditedView::EditEnabled), true) == "Enable edit before forward."@,
        edit_answer(Some(EditedView::EditDisabled), true) == "Disable edit before forward."@,
{
    let none = Seq::<char>::empty();
    reveal_strlit("Add successfully.");
    reveal_strlit("Forward channel set only in memory; retry later.");
    reveal_strlit("Template set.");
    reveal_strlit("Template set only in memory; retry later.");
    reveal_strlit("Format set. Use /debug <link> to preview the caption.");
    reveal_strlit("Format set only in memory; retry later.");
    reveal_strlit("Format reset to the built-in one.");
    reveal_strlit("Reset in memory only; retry later.");
    reveal_strlit("retry later");
    let later = "retry later"@;
    lemma_before_last(edited_words(EditedView::ChannelSet, false), later);
    lemma_before_last(edited_words(EditedView::TemplateSet, false), later);
    lemma_before_last(edited_words(EditedView::FormatSet, false), later);
    lemma_before_last(edited_words(EditedView::FormatReset, false), later);
    assert(edited_words(EditedView::FormatSet, true)[10] == '.');
    assert(edited_words(EditedView::FormatSet, false)[10] == ' ');
    crate::text::law_texts_are_found_where_they_stand("Template '"@, name, "' removed."@, none);
    let front = "No template named '"@;
    if saved.len() == 0 {
        crate::text::law_texts_are_found_where_they_stand(
            front,
            name,
            "'. None are saved yet."@,
            none,
        );
    } else {
        let list = crate::text::joined(saved, ", "@);
        let words = front + name + "'. Saved: "@ + list;
        crate::text::law_texts_are_found_where_they_stand(
            front,
            name,
            "'. Saved: "@ + list,
            none,
        );
        assert(words =~= front + name + ("'. Saved: "@ + list));
        if 0 <= i < saved.len() {
            crate::text::law_joined_texts_stand_in_the_whole(saved, ", "@, i);
            crate::text::law_parts_of_parts_stand_in_the_whole(
                front + name + "'. Saved: "@,
                list,
                none,
                saved[i],
            );
            assert(words + none =~= words);
        }
    }
}

proof fn lemma_before_last(s: Seq<char>, p: Seq<char>)
    requires
        p.len() < s.len(),
        forall|j: int| 0 <= j < p.len() ==> s[s.len() - 1 - p.len() + j] == #[trigger] p[j],
    ensures
        crate::text::has(s, p),
{
    let at = s.len() - 1 - p.len();
    assert(s.subrange(at, at + p.len()) =~= p);
    assert(crate::text::occurs_at(s, p, at));
}

/// Whoever may post in a channel administers it, and an administrator more takes nobody's
/// rights away.
pub proof fn law_rights_are_those_that_were_listed(admins: Seq<Admin>, a: Admin, user: u64)
    ensures
        can_post(admins, user) ==> administers(admins, user),
        administers(admins.push(a), user) <==> administers(admins, user) || a.user_id == user,
        can_post(admins.push(a), user) <==> can_post(admins, user) || (a.user_id == user
            && a.can_post),
        !administers(Seq::empty(), user),
{
    let all = admins.push(a);
    assert(all[admins.len() as int] == a);
    if administers(admins, user) {
        let i = choose|i: int| 0 <= i < admins.len() && (#[trigger] admins[i]).user_id == user;
        assert(all[i].user_id == user);
    }
    if can_post(admins, user) {
        let i = choose|i: int|
            0 <= i < admins.len() && (#[trigger] admins[i]).user_id == user && admins[i].can_post;
        assert(all[i].user_id == user);
    }
    if administers(all, user) {
        let i = choose|i: int| 0 <= i < all.len() && (#[trigger] all[i]).user_id == user;
        if i < admins.len() {
            assert(admins[i].user_id == user);
        }
    }
    if can_post(all, user) {
        let i = choose|i: int|
            0 <= i < all.len() && (#[trigger] all[i]).user_id == user && all[i].can_post;
        if i < admins.len() {
            assert(admins[i].user_id == user);
        }
    }
}

/// A line of a report says what kind of medium it is, and a report says who the author
/// is.
pub proof fn law_reports_say_what_a_medium_is(i: nat, m: SiteMediaView, f: RenderFields)
    ensures
        crate::text::has(
            media_line(i, m),
            match m.kind {
                CachedMediaKind::Photo => "image"@,
                CachedMediaKind::Video => "video"@,
                CachedMediaKind::Animation => "gif"@,
            },
        ),
        crate::text::has(render_lines(Some(f)), f.author@),
        crate::text::has(render_lines(Some(f)), f.tags@),
        crate::text::has(render_lines(Some(f)), crate::html::escaped_text(f.author_url@)),
        render_lines(None).len() == 0,
{
    let none = Seq::<char>::empty();
    let front = "\n  "@ + crate::text::digits(i + 1) + ". "@;
    let kind = kind_name(m.kind);
    let rest = ": "@ + crate::html::escaped_text(m.url);
    crate::text::law_texts_are_found_where_they_stand(front, kind, rest, none);
    assert(media_line(i, m) =~= front + kind + rest);
    let all = render_lines(Some(f));
    let url = crate::html::escaped_text(f.author_url@);
    let a = "\nauthor: "@;
    let b = "\nauthor_url: "@;
    let c = "\ntags: "@;
    crate::text::law_texts_are_found_where_they_stand(a, f.author@, b + url + c + f.tags@, none);
    assert(all =~= a + f.author@ + (b + url + c + f.tags@));
    crate::text::law_texts_are_found_where_they_stand(a + f.author@ + b, url, c + f.tags@, none);
    assert(all =~= (a + f.author@ + b) + url + (c + f.tags@));
    crate::text::law_texts_are_found_where_they_stand(a + f.author@ + b + url + c, f.tags@, none, none);
    assert(all =~= (a + f.author@ + b + url + c) + f.tags@ + none);
}

} // verus!
