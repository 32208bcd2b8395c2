//! The bot's commands: how they are written, listed and explained.
use crate::text::{chars_of, find_char, same, slice_chars, trim};
use vstd::prelude::*;

verus! {

/// A command and its argument.
#[derive(Debug)]
pub enum Command {
    Start,
    Help,
    SetForwardChannel(String),
    RemoveForwardChannel,
    EditBeforeForward,
    SetTemplate(String),
    RemoveTemplate(String),
    Settings,
    BotDict,
    SetFormat(String),
    ClearCache(String),
    Test(String),
    Debug(String),
}

/// [`Command`] over mathematical text.
pub enum CommandView {
    Start,
    Help,
    SetForwardChannel(Seq<char>),
    RemoveForwardChannel,
    EditBeforeForward,
    SetTemplate(Seq<char>),
    RemoveTemplate(Seq<char>),
    Settings,
    BotDict,
    SetFormat(Seq<char>),
    ClearCache(Seq<char>),
    Test(Seq<char>),
    Debug(Seq<char>),
}

impl View for Command {
    type V = CommandView;

    open spec fn view(&self) -> CommandView {
        match self {
            Command::Start => CommandView::Start,
            Command::Help => CommandView::Help,
            Command::SetForwardChannel(a) => CommandView::SetForwardChannel(a@),
            Command::RemoveForwardChannel => CommandView::RemoveForwardChannel,
            Command::EditBeforeForward => CommandView::EditBeforeForward,
            Command::SetTemplate(a) => CommandView::SetTemplate(a@),
            Command::RemoveTemplate(a) => CommandView::RemoveTemplate(a@),
            Command::Settings => CommandView::Settings,
            Command::BotDict => CommandView::BotDict,
            Command::SetFormat(a) => CommandView::SetFormat(a@),
            Command::ClearCache(a) => CommandView::ClearCache(a@),
            Command::Test(a) => CommandView::Test(a@),
            Command::Debug(a) => CommandView::Debug(a@),
        }
    }
}

pub open spec fn command_option(c: Option<Command>) -> Option<CommandView> {
    match c {
        Some(c) => Some(c@),
        None => None,
    }
}

// ---- how a command is written ----

/// The first word of a message.
pub open spec fn head_of(s: Seq<char>) -> Seq<char> {
    s.take(crate::text::until_char(s, ' '))
}

/// What follows the first space of a message.
pub open spec fn args_of(s: Seq<char>) -> Seq<char> {
    let n = crate::text::until_char(s, ' ');
    if n < s.len() {
        s.skip(n + 1)
    } else {
        Seq::empty()
    }
}

/// The command's name: the first word up to its first `@`.
pub open spec fn name_of(head: Seq<char>) -> Seq<char> {
    head.take(crate::text::until_char(head, '@'))
}

/// Whether a command is addressed to some bot by name: a word follows its `@`.
pub open spec fn is_addressed(head: Seq<char>) -> bool {
    let n = crate::text::until_char(head, '@');
    n < head.len() && crate::text::until_char(head.skip(n + 1), '@') > 0
}

/// An argument that has to be a single word; it may be missing.
pub open spec fn one_word(args: Seq<char>) -> bool {
    crate::text::until_char(args, ' ') == args.len()
}

/// The command that a name and its arguments make.
pub open spec fn named_command(name: Seq<char>, args: Seq<char>) -> Option<CommandView> {
    if name == "/start"@ {
        Some(CommandView::Start)
    } else if name == "/help"@ {
        Some(CommandView::Help)
    } else if name == "/set_forward_channel"@ {
        if one_word(args) {
            Some(CommandView::SetForwardChannel(args))
        } else {
            None
        }
    } else if name == "/remove_forward_channel"@ {
        Some(CommandView::RemoveForwardChannel)
    } else if name == "/edit_before_forward"@ {
        Some(CommandView::EditBeforeForward)
    } else if name == "/set_template"@ {
        if one_word(args) {
            Some(CommandView::SetTemplate(args))
        } else {
            None
        }
    } else if name == "/remove_template"@ {
        if one_word(args) {
            Some(CommandView::RemoveTemplate(args))
        } else {
            None
        }
    } else if name == "/settings"@ {
        Some(CommandView::Settings)
    } else if name == "/bot_dict"@ {
        Some(CommandView::BotDict)
    } else if name == "/set_format"@ {
        Some(CommandView::SetFormat(crate::text::trimmed(args)))
    } else if name == "/clear_cache"@ {
        Some(CommandView::ClearCache(crate::text::trimmed(args)))
    } else if name == "/test"@ {
        Some(CommandView::Test(crate::text::trimmed(args)))
    } else if name == "/debug"@ {
        Some(CommandView::Debug(crate::text::trimmed(args)))
    } else {
        None
    }
}

/// The command that a message is, if it is one. A command that is addressed to a
/// bot by name is left alone.
pub open spec fn command_of(text: Seq<char>) -> Option<CommandView> {
    if is_addressed(head_of(text)) {
        None
    } else {
        named_command(name_of(head_of(text)), args_of(text))
    }
}

fn is_one_word(args: &str) -> (r: bool)
    ensures
        r == one_word(args@),
{
    let v = chars_of(args);
    assert(v@.skip(0) =~= v@);
    find_char(&v, 0, ' ') == v.len()
}

fn make_command(name: &str, args: &str) -> (r: Option<Command>)
    ensures
        command_option(r) == named_command(name@, args@),
{
    if same(name, "/start") {
        Some(Command::Start)
    } else if same(name, "/help") {
        Some(Command::Help)
    } else if same(name, "/set_forward_channel") {
        if is_one_word(args) {
            Some(Command::SetForwardChannel(args.to_owned()))
        } else {
            None
        }
    } else if same(name, "/remove_forward_channel") {
        Some(Command::RemoveForwardChannel)
    } else if same(name, "/edit_before_forward") {
        Some(Command::EditBeforeForward)
    } else if same(name, "/set_template") {
        if is_one_word(args) {
            Some(Command::SetTemplate(args.to_owned()))
        } else {
            None
        }
    } else if same(name, "/remove_template") {
        if is_one_word(args) {
            Some(Command::RemoveTemplate(args.to_owned()))
        } else {
            None
        }
    } else if same(name, "/settings") {
        Some(Command::Settings)
    } else if same(name, "/bot_dict") {
        Some(Command::BotDict)
    } else if same(name, "/set_format") {
        Some(Command::SetFormat(trim(args)))
    } else if same(name, "/clear_cache") {
        Some(Command::ClearCache(trim(args)))
    } else if same(name, "/test") {
        Some(Command::Test(trim(args)))
    } else if same(name, "/debug") {
        Some(Command::Debug(trim(args)))
    } else {
        None
    }
}

impl Command {
    /// Reads a message as a command.
    pub fn parse(text: &str) -> (r: Option<Command>)
        ensures
            command_option(r) == command_of(text@),
    {
        let v = chars_of(text);
        let total: usize = v.len();
        assert(v@.skip(0) =~= v@);
        let space = find_char(&v, 0, ' ');
        let head = slice_chars(&v, 0, space);
        assert(v@.subrange(0, space as int) =~= head_of(text@));
        let args = if space < total {
            assert(v@.subrange(space + 1, total as int) =~= v@.skip(space + 1));
            slice_chars(&v, space + 1, total)
        } else {
            let none = String::new();
            assert(none@ =~= Seq::<char>::empty());
            none
        };
        let h = chars_of(head.as_str());
        let width: usize = h.len();
        assert(h@.skip(0) =~= h@);
        let at = find_char(&h, 0, '@');
        if at < width && find_char(&h, at + 1, '@') > at + 1 {
            return None;
        }
        let name = slice_chars(&h, 0, at);
        assert(h@.subrange(0, at as int) =~= name_of(head@));
        make_command(name.as_str(), args.as_str())
    }
}

// ---- the list ----

/// A command as clients list it.
#[derive(Debug)]
pub struct BotCommand {
    pub command: String,
    pub description: String,
}

/// [`BotCommand`] over mathematical text.
#[verifier::ext_equal]
pub struct BotCommandView {
    pub command: Seq<char>,
    pub description: Seq<char>,
}

impl View for BotCommand {
    type V = BotCommandView;

    open spec fn view(&self) -> BotCommandView {
        BotCommandView { command: self.command@, description: self.description@ }
    }
}

pub open spec fn bot_command_views(v: Seq<BotCommand>) -> Seq<BotCommandView> {
    v.map_values(|c: BotCommand| c@)
}

/// The commands, in the order they are listed.
pub open spec fn command_list() -> Seq<BotCommandView> {
    seq![
        BotCommandView {
            command: "/start"@,
            description: "Get started"@,
        },
        BotCommandView {
            command: "/help"@,
            description: "Show command help"@,
        },
        BotCommandView {
            command: "/set_forward_channel"@,
            description: "Set forward channel (@channel or ID)"@,
        },
        BotCommandView {
            command: "/remove_forward_channel"@,
            description: "Remove forward channel"@,
        },
        BotCommandView {
            command: "/edit_before_forward"@,
            description: "Toggle edit-before-forward"@,
        },
        BotCommandView {
            command: "/set_template"@,
            description: "Reply with [] to save as template"@,
        },
        BotCommandView {
            command: "/remove_template"@,
            description: "Remove a saved template"@,
        },
        BotCommandView {
            command: "/settings"@,
            description: "Show this chat's settings"@,
        },
        BotCommandView {
            command: "/bot_dict"@,
            description: "Show chat state (debug; admin only)"@,
        },
        BotCommandView {
            command: "/set_format"@,
            description: "Set site caption format (- to reset)"@,
        },
        BotCommandView {
            command: "/clear_cache"@,
            description: "Clear link cache (admin; optional URL, else all)"@,
        },
        BotCommandView {
            command: "/test"@,
            description: "Send a link's media (no forwarding)"@,
        },
        BotCommandView {
            command: "/debug"@,
            description: "Parse a link and report it (debug; nothing sent)"@,
        },
    ]
}

fn listed(command: &str, description: &str) -> (r: BotCommand)
    ensures
        r@ == (BotCommandView { command: command@, description: description@ }),
{
    BotCommand { command: command.to_owned(), description: description.to_owned() }
}

pub fn bot_commands() -> (r: Vec<BotCommand>)
    ensures
        bot_command_views(r@) == command_list(),
{
    let mut out: Vec<BotCommand> = Vec::new();
    out.push(listed("/start", "Get started"));
    out.push(listed("/help", "Show command help"));
    out.push(listed("/set_forward_channel", "Set forward channel (@channel or ID)"));
    out.push(listed("/remove_forward_channel", "Remove forward channel"));
    out.push(listed("/edit_before_forward", "Toggle edit-before-forward"));
    out.push(listed("/set_template", "Reply with [] to save as template"));
    out.push(listed("/remove_template", "Remove a saved template"));
    out.push(listed("/settings", "Show this chat's settings"));
    out.push(listed("/bot_dict", "Show chat state (debug; admin only)"));
    out.push(listed("/set_format", "Set site caption format (- to reset)"));
    out.push(listed("/clear_cache", "Clear link cache (admin; optional URL, else all)"));
    out.push(listed("/test", "Send a link's media (no forwarding)"));
    out.push(listed("/debug", "Parse a link and report it (debug; nothing sent)"));
    assert(bot_command_views(out@) =~= command_list());
    out
}

/// What the command list starts with.
pub const LIST_TITLE: &'static str = "Turn X/Pixiv/Bluesky links into media messages";

pub open spec fn list_line(c: BotCommandView) -> Seq<char> {
    c.command + " — "@ + c.description
}

/// The command list as text.
pub open spec fn list_text() -> Seq<char> {
    LIST_TITLE@ + "\n\n"@ + crate::text::joined(
        command_list().map_values(|c: BotCommandView| list_line(c)),
        "\n"@,
    )
}

pub fn descriptions() -> (r: String)
    ensures
        r@ == list_text(),
{
    let commands = bot_commands();
    let ghost show = |c: BotCommandView| list_line(c);
    let mut lines: Vec<String> = Vec::new();
    let mut i: usize = 0;
    while i < commands.len()
        invariant
            bot_command_views(commands@) == command_list(),
            i <= commands@.len(),
            lines@.len() == i,
            forall|j: int|
                0 <= j < i ==> (#[trigger] lines@[j])@ == list_line(command_list()[j]),
        decreases commands@.len() - i,
    {
        assert(command_list()[i as int] == commands@[i as int]@);
        let mut line = commands[i].command.clone();
        line.append(" — ");
        line.append(commands[i].description.as_str());
        lines.push(line);
        i = i + 1;
    }
    assert(crate::text::texts(lines@) =~= command_list().map_values(show));
    let mut out = LIST_TITLE.to_owned();
    out.append("\n\n");
    out.append(crate::text::join(&lines, "\n").as_str());
    out
}

// ---- the longer texts ----

/// What a first-time user reads.
pub const START_TEXT: &'static str =
    "Send me a post link and I'll send back its images, videos and GIFs with the title, author and tags.\n\nSupported: X/Twitter, Pixiv, Bluesky, Misskey (misskey.io), Bilibili.\nIn a private chat just paste the link. In a group, use inline mode (type @, pick me, then the link).\n\n/help lists every command.";

/// What follows the command list in the help: arguments, placeholders and where
/// links work.
pub const HELP_FOOTER: &'static str =
    "Arguments\n  /set_forward_channel <@channel or channel id>\n  /set_template <name> — reply to a message containing [] to save it\n  /remove_template <name> — see /settings for the saved names\n  /set_format <site> <format> — '-' restores the built-in format\n  /test <link> / /debug <link>\n\nCaption placeholders (for /set_format)\n  {url} {author} {author_url} {title} {content} {tags}\n  A template's [] is replaced by the post link when forwarding.\n\nLinks are handled in private chats only; in a group use inline mode.";

/// The bot's profile text.
pub const BOT_DESCRIPTION: &'static str =
    "Send a post link from X/Twitter, Pixiv, Bluesky, Misskey (misskey.io) or Bilibili and get its images, videos and GIFs back with the title, author and tags.\nLinks are handled in private chats; a group can use inline mode. /help lists every command.";

pub const BOT_SHORT_DESCRIPTION: &'static str =
    "Post links (X, Pixiv, Bluesky, Misskey, Bilibili) -> media messages";

pub open spec fn help_of() -> Seq<char> {
    list_text() + "\n\n"@ + HELP_FOOTER@
}

pub fn help_text() -> (r: String)
    ensures
        r@ == help_of(),
{
    let mut out = descriptions();
    out.append("\n\n");
    out.append(HELP_FOOTER);
    out
}

// ---- laws ----

proof fn lemma_no_char(s: Seq<char>, c: char)
    requires
        forall|j: int| 0 <= j < s.len() ==> s[j] != c,
    ensures
        crate::text::until_char(s, c) == s.len(),
{
    crate::text::lemma_until_char(s, c);
}

/// Every command that is listed parses when it is sent as it is listed.
pub proof fn law_every_listed_command_parses(i: int)
    requires
        0 <= i < command_list().len(),
    ensures
        command_of(command_list()[i].command) is Some,
{
    let s = command_list()[i].command;
    reveal_strlit("/start");
    reveal_strlit("/help");
    reveal_strlit("/set_forward_channel");
    reveal_strlit("/remove_forward_channel");
    reveal_strlit("/edit_before_forward");
    reveal_strlit("/set_template");
    reveal_strlit("/remove_template");
    reveal_strlit("/settings");
    reveal_strlit("/bot_dict");
    reveal_strlit("/set_format");
    reveal_strlit("/clear_cache");
    reveal_strlit("/test");
    reveal_strlit("/debug");
    assert(forall|j: int| 0 <= j < s.len() ==> s[j] != ' ' && s[j] != '@');
    lemma_no_char(s, ' ');
    assert(head_of(s) =~= s);
    lemma_no_char(s, '@');
    assert(name_of(s) =~= s);
    assert(one_word(Seq::<char>::empty()));
}

/// A command is the first word of a message, and its argument is what follows the first
/// space. A command that is addressed to a bot by name is left alone, and one with a bare
/// `@` behind it is not.
pub proof fn law_a_command_is_the_first_word(name: Seq<char>, args: Seq<char>, bot: Seq<char>)
    requires
        forall|i: int| 0 <= i < name.len() ==> #[trigger] name[i] != ' ' && name[i] != '@',
        forall|i: int| 0 <= i < bot.len() ==> #[trigger] bot[i] != ' ' && bot[i] != '@',
        bot.len() > 0,
    ensures
        command_of(name) == named_command(name, Seq::empty()),
        command_of(name + seq![' '] + args) == named_command(name, args),
        command_of(name + seq!['@']) == named_command(name, Seq::empty()),
        command_of(name + seq!['@'] + bot + seq![' '] + args) is None,
{
    lemma_no_char(name, '@');
    lemma_no_char(name, ' ');
    assert(head_of(name) =~= name);
    assert(name_of(name) =~= name);
    let spoken = name + seq![' '] + args;
    lemma_char_at(spoken, ' ', name.len() as int);
    assert(head_of(spoken) =~= name);
    assert(args_of(spoken) =~= args);
    let bare = name + seq!['@'];
    lemma_no_char(bare, ' ');
    assert(head_of(bare) =~= bare);
    lemma_char_at(bare, '@', name.len() as int);
    assert(name_of(bare) =~= name);
    assert(bare.skip((name.len() + 1) as int) =~= Seq::<char>::empty());
    let word = name + seq!['@'] + bot;
    let told = word + seq![' '] + args;
    lemma_char_at(told, ' ', word.len() as int);
    assert(head_of(told) =~= word);
    lemma_char_at(word, '@', name.len() as int);
    assert(word.skip((name.len() + 1) as int) =~= bot);
    lemma_no_char(bot, '@');
}

proof fn lemma_char_at(s: Seq<char>, c: char, i: int)
    requires
        0 <= i < s.len(),
        s[i] == c,
        forall|j: int| 0 <= j < i ==> s[j] != c,
    ensures
        crate::text::until_char(s, c) == i,
{
    crate::text::lemma_until_char(s, c);
}

/// Each name is that of its own command, with its own argument: the commands that take a
/// link or a format take all that follows, without the blanks round it, and those that
/// take a name take a single word as it is.
pub proof fn law_each_name_is_its_own_command(args: Seq<char>)
    ensures
        named_command("/start"@, args) == Some(CommandView::Start),
        named_command("/help"@, args) == Some(CommandView::Help),
        named_command("/settings"@, args) == Some(CommandView::Settings),
        named_command("/bot_dict"@, args) == Some(CommandView::BotDict),
        named_command("/remove_forward_channel"@, args) == Some(CommandView::RemoveForwardChannel),
        named_command("/edit_before_forward"@, args) == Some(CommandView::EditBeforeForward),
        named_command("/test"@, args) == Some(CommandView::Test(crate::text::trimmed(args))),
        named_command("/debug"@, args) == Some(CommandView::Debug(crate::text::trimmed(args))),
        named_command("/clear_cache"@, args) == Some(
            CommandView::ClearCache(crate::text::trimmed(args)),
        ),
        named_command("/set_format"@, args) == Some(
            CommandView::SetFormat(crate::text::trimmed(args)),
        ),
        (forall|i: int| 0 <= i < args.len() ==> #[trigger] args[i] != ' ') ==> {
            &&& named_command("/set_forward_channel"@, args) == Some(
                CommandView::SetForwardChannel(args),
            )
            &&& named_command("/set_template"@, args) == Some(CommandView::SetTemplate(args))
            &&& named_command("/remove_template"@, args) == Some(CommandView::RemoveTemplate(args))
        },
        args.contains(' ') ==> {
            &&& named_command("/set_forward_channel"@, args) is None
            &&& named_command("/set_template"@, args) is None
            &&& named_command("/remove_template"@, args) is None
        },
{
    reveal_strlit("/start");
    reveal_strlit("/help");
    reveal_strlit("/set_forward_channel");
    reveal_strlit("/remove_forward_channel");
    reveal_strlit("/edit_before_forward");
    reveal_strlit("/set_template");
    reveal_strlit("/remove_template");
    reveal_strlit("/settings");
    reveal_strlit("/bot_dict");
    reveal_strlit("/set_format");
    reveal_strlit("/clear_cache");
    reveal_strlit("/test");
    reveal_strlit("/debug");
    assert("/start"@[1] == 's' && "/start"@[2] == 't');
    assert("/help"@[1] == 'h');
    assert("/set_forward_channel"@[5] == 'f' && "/set_forward_channel"@[6] == 'o'
        && "/set_forward_channel"@[2] == 'e');
    assert("/remove_forward_channel"@[1] == 'r' && "/remove_forward_channel"@[8] == 'f');
    assert("/edit_before_forward"@[1] == 'e');
    assert("/set_template"@[5] == 't' && "/set_template"@[2] == 'e');
    assert("/remove_template"@[1] == 'r' && "/remove_template"@[8] == 't');
    assert("/settings"@.len() == 9 && "/settings"@[4] == 't');
    assert("/bot_dict"@[1] == 'b');
    assert("/set_format"@.len() == 11 && "/set_format"@[5] == 'f' && "/set_format"@[4] == '_');
    assert("/set_forward_channel"@.len() == 20);
    assert("/set_template"@.len() == 13);
    assert("/clear_cache"@[1] == 'c');
    assert("/test"@[1] == 't');
    assert("/debug"@[1] == 'd');
    if forall|i: int| 0 <= i < args.len() ==> #[trigger] args[i] != ' ' {
        lemma_no_char(args, ' ');
    }
    if args.contains(' ') {
        crate::text::lemma_until_char(args, ' ');
        let k = args.index_of(' ');
        assert(args[k] == ' ');
    }
}

/// A message that does not begin with a slash is no command.
pub proof fn law_commands_begin_with_a_slash(text: Seq<char>)
    requires
        text.len() == 0 || text[0] != '/',
    ensures
        command_of(text) is None,
{
    reveal_strlit("/start");
    reveal_strlit("/help");
    reveal_strlit("/set_forward_channel");
    reveal_strlit("/remove_forward_channel");
    reveal_strlit("/edit_before_forward");
    reveal_strlit("/set_template");
    reveal_strlit("/remove_template");
    reveal_strlit("/settings");
    reveal_strlit("/bot_dict");
    reveal_strlit("/set_format");
    reveal_strlit("/clear_cache");
    reveal_strlit("/test");
    reveal_strlit("/debug");
    let head = head_of(text);
    let name = name_of(head);
    crate::text::lemma_until_char(text, ' ');
    crate::text::lemma_until_char(head, '@');
    if name.len() > 0 {
        assert(name[0] == text[0]);
    }
}

/// The help lists every command with what it does, and says where links work.
pub proof fn law_the_help_lists_every_command(i: int)
    requires
        0 <= i < command_list().len(),
    ensures
        crate::text::has(
            help_of(),
            command_list()[i].command + " — "@ + command_list()[i].description,
        ),
        HELP_FOOTER@.is_suffix_of(help_of()),
{
    let lines = command_list().map_values(|c: BotCommandView| list_line(c));
    let whole = crate::text::joined(lines, "\n"@);
    crate::text::law_joined_texts_stand_in_the_whole(lines, "\n"@, i);
    let before = LIST_TITLE@ + "\n\n"@;
    let after = "\n\n"@ + HELP_FOOTER@;
    crate::text::law_parts_of_parts_stand_in_the_whole(before, whole, after, lines[i]);
    assert(help_of() =~= before + whole + after);
    let help = help_of();
    let footer = HELP_FOOTER@;
    assert(help.subrange(help.len() - footer.len(), help.len() as int) =~= footer);
}

} // verus!
