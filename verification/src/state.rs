//! What the bot remembers of a chat: its settings and its open edit prompts.
//! Times are seconds since the Unix epoch.
use crate::table::Table;
use vstd::prelude::*;

verus! {

/// An open edit-before-forward prompt: what would be forwarded once it is
/// confirmed.
#[derive(Debug)]
pub struct EditMessage {
    /// The post that the messages came from.
    pub url: String,
    pub chat_id: i64,
    pub forward_message_ids: Vec<i64>,
    /// The template that was applied last; empty where none was.
    pub template: String,
    pub created_at: i64,
}

/// [`EditMessage`] over mathematical values.
#[verifier::ext_equal]
pub struct EditView {
    pub url: Seq<char>,
    pub chat_id: i64,
    pub forward_message_ids: Seq<i64>,
    pub template: Seq<char>,
    pub created_at: i64,
}

impl View for EditMessage {
    type V = EditView;

    open spec fn view(&self) -> EditView {
        EditView {
            url: self.url@,
            chat_id: self.chat_id,
            forward_message_ids: self.forward_message_ids@,
            template: self.template@,
            created_at: self.created_at,
        }
    }
}

/// A prompt can be used until it is as old as the time it may live.
pub open spec fn prompt_expired(e: EditView, ttl: int, now: int) -> bool {
    e.created_at + ttl <= now
}

pub fn duplicate_ids(v: &Vec<i64>) -> (r: Vec<i64>)
    ensures
        r@ == v@,
{
    let mut out: Vec<i64> = Vec::new();
    let mut i: usize = 0;
    while i < v.len()
        invariant
            i <= v@.len(),
            out@ == v@.take(i as int),
        decreases v@.len() - i,
    {
        out.push(v[i]);
        i = i + 1;
        assert(v@.take(i as int) =~= v@.take(i - 1).push(v@[i - 1]));
    }
    assert(v@.take(i as int) =~= v@);
    out
}

impl EditMessage {
    pub fn duplicate(&self) -> (r: EditMessage)
        ensures
            r@ == self@,
    {
        EditMessage {
            url: self.url.clone(),
            chat_id: self.chat_id,
            forward_message_ids: duplicate_ids(&self.forward_message_ids),
            template: self.template.clone(),
            created_at: self.created_at,
        }
    }

    pub fn is_expired(&self, ttl: u64, now: i64) -> (r: bool)
        ensures
            r == prompt_expired(self@, ttl as int, now as int),
    {
        self.created_at as i128 + ttl as i128 <= now as i128
    }
}

/// What the bot remembers of a chat.
#[derive(Debug)]
pub struct ChatData {
    /// The channel that sent posts are forwarded to.
    pub forward_channel_id: Option<i64>,
    /// Whether a prompt is opened before anything is forwarded.
    pub edit_before_forward: bool,
    /// Caption templates by name.
    pub template: Table<String, String>,
    /// Caption formats by site.
    pub message_format: Table<String, String>,
    /// Open prompts by the message that shows them.
    pub edit_message: Table<i64, EditMessage>,
}

/// [`ChatData`] over mathematical values.
#[verifier::ext_equal]
pub struct ChatView {
    pub forward_channel_id: Option<i64>,
    pub edit_before_forward: bool,
    pub template: Map<Seq<char>, Seq<char>>,
    pub message_format: Map<Seq<char>, Seq<char>>,
    pub edit_message: Map<i64, EditView>,
}

impl View for ChatData {
    type V = ChatView;

    open spec fn view(&self) -> ChatView {
        ChatView {
            forward_channel_id: self.forward_channel_id,
            edit_before_forward: self.edit_before_forward,
            template: self.template@,
            message_format: self.message_format@,
            edit_message: self.edit_message@,
        }
    }
}

/// The data of a chat that was never configured.
pub open spec fn fresh_chat() -> ChatView {
    ChatView {
        forward_channel_id: None,
        edit_before_forward: false,
        template: Map::empty(),
        message_format: Map::empty(),
        edit_message: Map::empty(),
    }
}

/// The caption format of a site: the chat's own, or nothing.
pub open spec fn format_of(c: ChatView, site: Seq<char>) -> Seq<char> {
    if c.message_format.contains_key(site) {
        c.message_format[site]
    } else {
        Seq::empty()
    }
}

impl Default for ChatData {
    fn default() -> (r: ChatData)
        ensures
            r.wf(),
            r@ == fresh_chat(),
    {
        ChatData {
            forward_channel_id: None,
            edit_before_forward: false,
            template: Table::new(),
            message_format: Table::new(),
            edit_message: Table::new(),
        }
    }
}

impl ChatData {
    pub open spec fn wf(&self) -> bool {
        self.template.wf() && self.message_format.wf() && self.edit_message.wf()
    }

    /// The caption format of a site; empty where the chat has none of its own.
    pub fn format_for(&self, site: &str) -> (r: String)
        requires
            self.wf(),
        ensures
            r@ == format_of(self@, site@),
    {
        match self.message_format.get(&site.to_owned()) {
            Some(format) => format.clone(),
            None => String::new(),
        }
    }

    /// Drops the prompts that expired and returns the messages that show them.
    pub fn prune_expired(&mut self, ttl: u64, now: i64) -> (r: Vec<i64>)
        requires
            old(self).wf(),
        ensures
            final(self).wf(),
            final(self)@ == (ChatView {
                edit_message: crate::table::kept(
                    old(self)@.edit_message,
                    |e: EditView| !prompt_expired(e, ttl as int, now as int),
                ),
                ..old(self)@
            }),
            r@.no_duplicates(),
            forall|id: i64| #[trigger]
                r@.contains(id) <==> old(self)@.edit_message.contains_key(id) && prompt_expired(
                    old(self)@.edit_message[id],
                    ttl as int,
                    now as int,
                ),
    {
        let ghost p = |e: EditView| !prompt_expired(e, ttl as int, now as int);
        let ghost list = self.edit_message.list();
        let mut keep: Vec<bool> = Vec::new();
        let mut gone: Vec<i64> = Vec::new();
        let mut i: usize = 0;
        while i < self.edit_message.entries.len()
            invariant
                self.wf(),
                list == self.edit_message.list(),
                i == keep@.len(),
                i <= self.edit_message.entries@.len(),
                gone@.no_duplicates(),
                forall|j: int|
                    0 <= j < i ==> #[trigger] keep@[j] == !prompt_expired(
                        list[j].1,
                        ttl as int,
                        now as int,
                    ),
                forall|id: i64| #[trigger]
                    gone@.contains(id) ==> exists|j: int|
                        0 <= j < i && (#[trigger] list[j]).0 == id && prompt_expired(
                            list[j].1,
                            ttl as int,
                            now as int,
                        ),
                forall|j: int|
                    0 <= j < i && prompt_expired(
                        (#[trigger] list[j]).1,
                        ttl as int,
                        now as int,
                    ) ==> gone@.contains(list[j].0),
            decreases self.edit_message.entries@.len() - i,
        {
            assert(list[i as int] == crate::table::seen(self.edit_message.entries@[i as int]));
            let expired = self.edit_message.entries[i].1.is_expired(ttl, now);
            keep.push(!expired);
            if expired {
                let ghost had = gone@;
                gone.push(self.edit_message.entries[i].0);
                proof {
                    let id = list[i as int].0;
                    assert(gone@ == had.push(id));
                    assert(!had.contains(id));
                    assert(gone@[had.len() as int] == id);
                    assert forall|x: i64| #[trigger] gone@.contains(x) implies exists|j: int|
                        0 <= j < i + 1 && (#[trigger] list[j]).0 == x && prompt_expired(
                            list[j].1,
                            ttl as int,
                            now as int,
                        ) by {
                        if had.contains(x) {
                            let j = choose|j: int|
                                0 <= j < i && (#[trigger] list[j]).0 == x && prompt_expired(
                                    list[j].1,
                                    ttl as int,
                                    now as int,
                                );
                            assert(list[j].0 == x);
                        } else {
                            assert(list[i as int].0 == x);
                        }
                    }
                    assert forall|j: int|
                        0 <= j < i + 1 && prompt_expired(
                            (#[trigger] list[j]).1,
                            ttl as int,
                            now as int,
                        ) implies gone@.contains(list[j].0) by {
                        if j < i {
                            assert(had.contains(list[j].0));
                            let q = had.index_of(list[j].0);
                            assert(gone@[q] == list[j].0);
                        }
                    }
                }
            }
            i = i + 1;
        }
        proof {
            assert forall|id: i64| #[trigger] gone@.contains(id) <==> (
            self@.edit_message.contains_key(id) && prompt_expired(
                self@.edit_message[id],
                ttl as int,
                now as int,
            )) by {
                if gone@.contains(id) {
                    let j = choose|j: int|
                        0 <= j < i && (#[trigger] list[j]).0 == id && prompt_expired(
                            list[j].1,
                            ttl as int,
                            now as int,
                        );
                    crate::table::lemma_entry(list, j);
                }
                if self@.edit_message.contains_key(id) {
                    let j = crate::table::position(list, id);
                    crate::table::lemma_entry(list, j);
                }
            }
        }
        let _ = self.edit_message.retain(&keep, Ghost(p));
        gone
    }
}

// ---- laws ----

/// A prompt lives for exactly the time it may, counted from when it was opened; of the
/// prompts of a chat pruning takes those that are past it and leaves the others as they
/// are.
pub proof fn law_prompts_live_as_long_as_they_may(
    prompts: Map<i64, EditView>,
    id: i64,
    ttl: int,
    now: int,
)
    requires
        prompts.contains_key(id),
    ensures
        now < prompts[id].created_at + ttl <==> !prompt_expired(prompts[id], ttl, now),
        ({
            let left = crate::table::kept(prompts, |e: EditView| !prompt_expired(e, ttl, now));
            &&& left.contains_key(id) <==> now < prompts[id].created_at + ttl
            &&& left.contains_key(id) ==> left[id] == prompts[id]
        }),
{
}

/// A chat that was never configured forwards nowhere, asks nothing, and has neither
/// templates nor formats; a site without a format of its own has an empty one.
pub proof fn law_a_fresh_chat_is_bare(c: ChatView, site: Seq<char>)
    ensures
        fresh_chat().forward_channel_id is None,
        !fresh_chat().edit_before_forward,
        !fresh_chat().template.contains_key(site),
        format_of(fresh_chat(), site).len() == 0,
        c.message_format.contains_key(site) ==> format_of(c, site) == c.message_format[site],
        !c.message_format.contains_key(site) ==> format_of(c, site).len() == 0,
{
}

/// What is read of a prompt is what was recorded, its messages in their order.
pub proof fn law_a_prompt_is_what_was_recorded(e: EditMessage)
    ensures
        e@.url == e.url@,
        e@.chat_id == e.chat_id,
        e@.forward_message_ids == e.forward_message_ids@,
        e@.template == e.template@,
        e@.created_at == e.created_at,
{
}

} // verus!
