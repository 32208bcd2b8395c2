//! What becomes of a message: an answer to a prompt, a command, links to send, or
//! nothing.
use super::grammar::{Command, CommandView};
use super::urls::{supported_urls, LinkView, PostLink};
use crate::text::chars_of;
use vstd::prelude::*;

verus! {

/// What is said of a link in a group.
pub const GROUP_LINK_HINT: &'static str =
    "Links are handled in private chat only — send me this link there, or use inline mode here.";

/// What kind of chat a message was sent in.
#[derive(Clone, Copy, Debug, PartialEq, Eq, Structural)]
pub enum ChatKind {
    Private,
    /// A group of any size.
    Group,
    Channel,
}

/// The message that a private message answers, where it may answer a prompt.
pub fn prompt_answered(kind: ChatKind, replied: Option<i64>, text: Option<&str>) -> (r: Option<i64>)
    ensures
        r == if kind == ChatKind::Private && text is Some {
            replied
        } else {
            None
        },
{
    if kind == ChatKind::Private && text.is_some() {
        replied
    } else {
        None
    }
}

/// What becomes of a message that no prompt took.
#[derive(Debug)]
pub enum MessageStep {
    Run(Command),
    /// Send these links, in order.
    Enqueue(Vec<String>),
    /// Say where links work.
    Hint,
    Nothing,
}

/// [`MessageStep`] over mathematical values.
pub enum MessageView {
    Run(CommandView),
    Enqueue(Seq<Seq<char>>),
    Hint,
    Nothing,
}

impl View for MessageStep {
    type V = MessageView;

    open spec fn view(&self) -> MessageView {
        match self {
            MessageStep::Run(c) => MessageView::Run(c@),
            MessageStep::Enqueue(urls) => MessageView::Enqueue(crate::text::texts(urls@)),
            MessageStep::Hint => MessageView::Hint,
            MessageStep::Nothing => MessageView::Nothing,
        }
    }
}

/// The links of a message that are sent.
pub open spec fn sendable(links: Seq<LinkView>) -> Seq<Seq<char>> {
    super::urls::link_urls(super::urls::supported(super::urls::deduped(links)))
}

/// Commands run anywhere. Links are sent in private chats; in a group there is a
/// hint instead, and a channel stays silent.
pub open spec fn message_step(
    kind: ChatKind,
    text: Option<Seq<char>>,
    links: Seq<LinkView>,
) -> MessageView {
    let command = match text {
        Some(text) => super::grammar::command_of(text),
        None => None,
    };
    match command {
        Some(c) => MessageView::Run(c),
        None => match kind {
            ChatKind::Private => MessageView::Enqueue(sendable(links)),
            ChatKind::Group => if sendable(links).len() > 0 {
                MessageView::Hint
            } else {
                MessageView::Nothing
            },
            ChatKind::Channel => MessageView::Nothing,
        },
    }
}

/// Routes a message that no prompt took.
pub fn handle_message(kind: ChatKind, text: Option<&str>, links: &Vec<PostLink>) -> (r: MessageStep)
    ensures
        r@ == message_step(
            kind,
            crate::queue::token_view(text),
            super::urls::link_views(links@),
        ),
{
    let command = match text {
        Some(text) => Command::parse(text),
        None => None,
    };
    match command {
        Some(c) => MessageStep::Run(c),
        None => {
            let urls = supported_urls(links);
            match kind {
                ChatKind::Private => MessageStep::Enqueue(urls),
                ChatKind::Group => if urls.len() > 0 {
                    MessageStep::Hint
                } else {
                    MessageStep::Nothing
                },
                ChatKind::Channel => MessageStep::Nothing,
            }
        },
    }
}

// ---- user text in a log ----

/// A control character: it could break a line of the log.
pub open spec fn is_control(c: char) -> bool {
    c as int <= 0x1f || 0x7f <= c as int <= 0x9f
}

pub open spec fn hex_digit(n: int) -> char {
    if n < 10 {
        (48 + n) as char
    } else {
        (87 + n) as char
    }
}

/// What a character becomes in a log. A tab stays; it breaks no line.
pub open spec fn logged_char(c: char) -> Seq<char> {
    if c == '\n' {
        "\\n"@
    } else if c == '\r' {
        "\\r"@
    } else if is_control(c) && c != '\t' {
        "\\u00"@.push(hex_digit(c as int / 16)).push(hex_digit(c as int % 16))
    } else {
        seq![c]
    }
}

/// A text as it stands in a log.
pub open spec fn logged(s: Seq<char>) -> Seq<char>
    decreases s.len(),
{
    if s.len() == 0 {
        Seq::empty()
    } else {
        logged(s.drop_last()) + logged_char(s.last())
    }
}

const LAST_LOW_CONTROL: char = '\u{1f}';

const FIRST_HIGH_CONTROL: char = '\u{7f}';

const LAST_HIGH_CONTROL: char = '\u{9f}';

fn controls(c: char) -> (r: bool)
    ensures
        r == is_control(c),
{
    c <= LAST_LOW_CONTROL || (FIRST_HIGH_CONTROL <= c && c <= LAST_HIGH_CONTROL)
}

/// The number of a control character.
fn control_code(c: char) -> (r: u8)
    requires
        is_control(c),
    ensures
        r == c as int,
{
    let mut n: u8 = 0;
    while n as char != c
        invariant
            is_control(c),
            n <= c as int,
        decreases c as int - n,
    {
        n = n + 1;
    }
    n
}

fn hex(n: u8) -> (r: char)
    requires
        n < 16,
    ensures
        r == hex_digit(n as int),
{
    if n < 10 {
        (48 + n) as char
    } else {
        (87 + n) as char
    }
}

/// Escapes a text so that it stays within one line of a log.
pub fn log_escape(s: &str) -> (r: String)
    ensures
        r@ == logged(s@),
{
    let v = chars_of(s);
    let mut out = String::new();
    let mut i: usize = 0;
    assert(out@ =~= logged(v@.take(0)));
    while i < v.len()
        invariant
            v@ == s@,
            i <= v@.len(),
            out@ == logged(v@.take(i as int)),
        decreases v@.len() - i,
    {
        let c: char = v[i];
        let ghost had = out@;
        proof {
            assert(v@.take(i + 1).drop_last() =~= v@.take(i as int));
            assert(v@.take(i + 1).last() == c);
        }
        if c == '\n' {
            out.append("\\n");
        } else if c == '\r' {
            out.append("\\r");
        } else if c != '\t' && controls(c) {
            let n: u8 = control_code(c);
            out.append("\\u00");
            out.push(hex(n / 16));
            out.push(hex(n % 16));
            assert(out@ =~= had + logged_char(c));
        } else {
            out.push(c);
            assert(out@ =~= had + logged_char(c));
        }
        i = i + 1;
    }
    assert(v@.take(i as int) =~= v@);
    out
}

// ---- laws ----

proof fn lemma_hex_of_control(c: char)
    requires
        is_control(c),
    ensures
        !is_control(hex_digit(c as int / 16)),
        !is_control(hex_digit(c as int % 16)),
{
}

/// Nothing that a user writes can begin a new line in a log.
pub proof fn law_logged_text_stays_on_one_line(s: Seq<char>)
    ensures
        forall|i: int|
            0 <= i < logged(s).len() ==> !is_control(#[trigger] logged(s)[i]) || logged(s)[i]
                == '\t',
    decreases s.len(),
{
    if s.len() > 0 {
        law_logged_text_stays_on_one_line(s.drop_last());
        let head = logged(s.drop_last());
        let c = s.last();
        let tail = logged_char(c);
        reveal_strlit("\\n");
        reveal_strlit("\\r");
        reveal_strlit("\\u00");
        if is_control(c) && c != '\n' && c != '\r' && c != '\t' {
            let high = hex_digit(c as int / 16);
            let low = hex_digit(c as int % 16);
            lemma_hex_of_control(c);
            assert(tail =~= seq!['\\', 'u', '0', '0', high, low]);
        }
        assert forall|j: int| 0 <= j < tail.len() implies !is_control(#[trigger] tail[j])
            || tail[j] == '\t' by {}
        assert forall|i: int| 0 <= i < logged(s).len() implies !is_control(#[trigger] logged(s)[i])
            || logged(s)[i] == '\t' by {
            assert(logged(s) == head + tail);
            if i < head.len() {
                assert((head + tail)[i] == head[i]);
            } else {
                assert((head + tail)[i] == tail[i - head.len()]);
            }
        }
    }
}

/// Outside private chats no link is ever sent, and a channel is never answered.
pub proof fn law_links_are_private(kind: ChatKind, text: Option<Seq<char>>, links: Seq<LinkView>)
    requires
        kind != ChatKind::Private,
    ensures
        !(message_step(kind, text, links) is Enqueue),
        kind == ChatKind::Channel ==> !(message_step(kind, text, links) is Hint),
{
}

/// A command runs in every chat and takes the whole message; without one, a private
/// chat gets the links that a site knows, one for each post, and a group is told where
/// links work just where it has such a link.
pub proof fn law_messages_are_routed_by_chat(
    kind: ChatKind,
    text: Option<Seq<char>>,
    links: Seq<LinkView>,
)
    ensures
        ({
            let step = message_step(kind, text, links);
            let command = match text {
                Some(text) => super::grammar::command_of(text),
                None => None,
            };
            let known = super::urls::supported(super::urls::deduped(links));
            &&& step is Run <==> command is Some
            &&& step matches MessageView::Run(c) ==> Some(c) == command
            &&& command is None && kind == ChatKind::Private ==> (step matches MessageView::Enqueue(
                urls,
            ) && urls.len() == known.len() && forall|i: int|
                0 <= i < urls.len() ==> #[trigger] urls[i] == known[i].url)
            &&& command is None && kind == ChatKind::Group ==> (step is Hint <==> known.len() > 0)
            &&& command is None && kind == ChatKind::Group ==> step is Hint || step is Nothing
            &&& command is None && kind == ChatKind::Channel ==> step is Nothing
        }),
{
}

/// A log shows a text character by character: one without control characters as it is,
/// and two texts one after the other as each by itself.
pub proof fn law_logs_show_the_text(a: Seq<char>, b: Seq<char>)
    ensures
        logged(a + b) == logged(a) + logged(b),
        (forall|i: int|
            0 <= i < a.len() ==> 0x20 <= (#[trigger] a[i]) as int && !(0x7f <= a[i] as int <= 0x9f))
            ==> logged(a) == a,
    decreases a.len() + b.len(),
{
    if b.len() > 0 {
        law_logs_show_the_text(a, b.drop_last());
        assert((a + b).drop_last() =~= a + b.drop_last());
        assert((a + b).last() == b.last());
        assert(logged(a + b) =~= logged(a) + logged(b));
    } else {
        assert(a + b =~= a);
        assert(logged(a) + logged(b) =~= logged(a));
        if a.len() > 0 && (forall|i: int|
            0 <= i < a.len() ==> 0x20 <= (#[trigger] a[i]) as int && !(0x7f <= a[i] as int
                <= 0x9f)) {
            let front = a.drop_last();
            assert forall|i: int| 0 <= i < front.len() implies 0x20 <= (
            #[trigger] front[i]) as int && !(0x7f <= front[i] as int <= 0x9f) by {
                assert(front[i] == a[i]);
            }
            law_logs_show_the_text(front, Seq::empty());
            let c = a[a.len() - 1];
            assert(logged_char(c) == seq![c]);
            assert(logged(a) =~= a);
        }
    }
    if b.len() > 0 {
        law_logs_show_the_text(a, Seq::empty());
    }
}

/// A control character is told by its number, in hexadecimal.
pub proof fn law_control_characters_are_told_by_number(c: char)
    requires
        is_control(c),
        c != '\n',
        c != '\r',
        c != '\t',
    ensures
        ({
            let out = logged_char(c);
            let value = |d: char| if d as int <= 57 {
                d as int - 48
            } else {
                d as int - 87
            };
            &&& out.len() == 6
            &&& out.take(4) == seq!['\\', 'u', '0', '0']
            &&& 16 * value(out[4]) + value(out[5]) == c as int
        }),
        logged_char('\n') == seq!['\\', 'n'],
        logged_char('\r') == seq!['\\', 'r'],
        logged_char('\t') == seq!['\t'],
{
    reveal_strlit("\\n");
    reveal_strlit("\\r");
    reveal_strlit("\\u00");
    assert("\\n"@ =~= seq!['\\', 'n']);
    assert("\\r"@ =~= seq!['\\', 'r']);
    assert(logged_char(c).take(4) =~= seq!['\\', 'u', '0', '0']);
}

} // verus!
