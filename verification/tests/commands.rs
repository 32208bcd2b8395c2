use xmedia_bot::handlers::commands::{
    after_admins, after_chat, after_me, apply_edit, channel_error_text, cleared_text, debug_report,
    edit_reply, execute_command, format_placeholders, inspect_failure, preview_caption,
    require_admin, settings_text, state_dump, unknown_placeholder, Admin, ChannelRef, ChatEdit,
    ChatInfo, CommandContext, CommandStep, Edited, SetForwardChannelError, MAX_DEBUG_REPORT_CHARS,
    MAX_SETTINGS_CHARS, MAX_TEMPLATES, MAX_TEMPLATE_BODY_CHARS,
};
use xmedia_bot::handlers::grammar::{
    bot_commands, descriptions, help_text, Command, HELP_FOOTER, START_TEXT,
};
use xmedia_bot::site::{Media, RenderFields};
use xmedia_bot::state::{ChatData, EditMessage};
use xmedia_bot::text::{cap_text, fits_bytes, plural};

fn fields(
    author: &str,
    author_url: &str,
    title: &str,
    content: &str,
    tags: &str,
) -> Option<RenderFields> {
    Some(RenderFields {
        author: author.to_string(),
        author_url: author_url.to_string(),
        title: title.to_string(),
        content: content.to_string(),
        tags: tags.to_string(),
    })
}

fn context(sender: Option<i64>, admins: Vec<i64>) -> CommandContext {
    CommandContext {
        sender_id: sender,
        admin_ids: admins,
        replied: None,
        key: None,
        sites: ["twitter", "bsky", "pixiv", "misskey", "bilibili"]
            .iter()
            .map(|s| s.to_string())
            .collect(),
    }
}

fn replying(text: &str) -> CommandContext {
    CommandContext { replied: Some(text.to_string()), ..context(Some(5), vec![]) }
}

fn linked(key: &str) -> CommandContext {
    CommandContext { key: Some(key.to_string()), ..context(Some(5), vec![5]) }
}

fn said(step: CommandStep) -> String {
    match step {
        CommandStep::Reply(text) => text,
        other => panic!("expected a reply, got {other:?}"),
    }
}

fn change(step: CommandStep) -> ChatEdit {
    match step {
        CommandStep::Change(edit) => edit,
        other => panic!("expected a change, got {other:?}"),
    }
}

#[test]
fn debug_report_renders_fields_and_media() {
    let media = vec![
        Media::Illustration {
            url: "https://cdn.example/1.jpg".into(),
            thumbnail_url: None,
            fallback_url: None,
        },
        Media::Video {
            url: "https://cdn.example/2.mp4".into(),
            thumbnail_url: Some("https://cdn.example/2.jpg".into()),
        },
    ];
    let report = debug_report(
        "https://x.com/u/status/1",
        Some("twitter:1"),
        "twitter",
        "https://x.com/u/status/1",
        "My title",
        "My content",
        &fields("Author", "https://x.com/u", "My title", "My content", "tag1 tag2"),
        false,
        "<a href=\"https://x.com/u\">Author</a> · My title",
        &media,
    );
    assert!(report.contains("site: twitter"), "{report}");
    assert!(report.contains("key: twitter:1"), "{report}");
    assert!(report.contains("content: My content"), "{report}");
    assert!(report.contains("author_url: https://x.com/u"), "{report}");
    assert!(report.contains("sensitive: false"), "{report}");
    assert!(report.contains("media (2):"), "{report}");
    assert!(report.contains("1. image: https://cdn.example/1.jpg"), "{report}");
    assert!(report.contains("2. video: https://cdn.example/2.mp4"), "{report}");
}

#[test]
fn debug_report_is_exact() {
    let media = vec![Media::Animated { url: "https://g/?a&b".into(), thumbnail_url: None }];
    let report = debug_report(
        "u<",
        None,
        "pixiv",
        "s&",
        "t",
        "c",
        &fields("A", "x&y", "t", "c", "#a"),
        true,
        "cap",
        &media,
    );
    assert_eq!(
        report,
        "Parse result for u&lt;\nsite: pixiv\nkey: &lt;unsupported&gt;\nsource_url: s&amp;\n\
         title: t\ncontent: c\nauthor: A\nauthor_url: x&amp;y\ntags: #a\nsensitive: true\n\
         caption: <blockquote>cap</blockquote>\nmedia (1):\n  1. gif: https://g/?a&amp;b"
    );
}

#[test]
fn debug_report_without_render_data_has_no_author_line() {
    let report = debug_report("u", None, "pixiv", "s", "t", "c", &None, true, "p", &vec![]);
    assert!(!report.contains("author:"), "{report}");
}

#[test]
fn debug_report_wraps_caption_in_blockquote() {
    let report = debug_report(
        "https://x.com/u/status/1",
        Some("twitter:1"),
        "twitter",
        "https://x.com/u/status/1",
        "A & B <C>",
        "body & <more>",
        &fields(
            "A &amp; B",
            "https://x.com/u",
            "A &amp; B &lt;C&gt;",
            "body &amp; &lt;more&gt;",
            "#a &amp; #b",
        ),
        false,
        "<a href=\"https://x.com/u\">A &amp; B</a>: C &lt;D&gt; &amp; E",
        &vec![],
    );
    assert!(report.contains("title: A &amp; B &lt;C&gt;"), "{report}");
    assert!(report.contains("source_url: https://x.com/u/status/1"), "{report}");
    assert!(report.contains("author: A &amp; B"), "{report}");
    assert!(report.contains("tags: #a &amp; #b"), "{report}");
    assert!(
        report.contains(
            "caption: <blockquote><a href=\"https://x.com/u\">A &amp; B</a>: C &lt;D&gt; &amp; E</blockquote>"
        ),
        "{report}"
    );
}

#[test]
fn debug_report_does_not_nest_a_quoted_caption() {
    let quoted = "intro <blockquote expandable>long text</blockquote>";
    let report = debug_report(
        "https://x.com/u/status/1",
        Some("twitter:1"),
        "twitter",
        "https://x.com/u/status/1",
        "t",
        "c",
        &None,
        false,
        quoted,
        &vec![],
    );
    assert!(report.contains(&format!("caption: {quoted}")), "{report}");
    assert_eq!(report.matches("<blockquote").count(), 1, "{report}");
}

#[test]
fn cap_text_cuts_on_a_char_boundary() {
    assert_eq!(cap_text("short", 10), "short");
    assert_eq!(cap_text("exactly", 7), "exactly");
    assert_eq!(cap_text("truncated", 5), "trun…");
    assert_eq!(cap_text("aaaa漢bb", 6), "aaaa…");
}

#[test]
fn cap_text_counts_every_width_of_character() {
    // One, two, three and four bytes.
    assert!(fits_bytes("aé漢😀", 10));
    assert!(!fits_bytes("aé漢😀", 9));
    assert_eq!(cap_text("aé漢😀", 10), "aé漢😀");
    assert_eq!(cap_text("aé漢😀", 9), "aé漢…");
    assert_eq!(cap_text("aé漢😀", 6), "aé…");
    assert_eq!(cap_text("abc", 0), "");
    assert_eq!(cap_text("abc", 1), "…");
    assert_eq!(cap_text("", 0), "");
}

#[test]
fn debug_report_is_capped() {
    let media: Vec<Media> = (0..200)
        .map(|i| Media::Illustration {
            url: format!("https://cdn.example/{i}.jpg"),
            thumbnail_url: None,
            fallback_url: None,
        })
        .collect();
    let report =
        debug_report("u", None, "twitter", "s", "t", "c", &None, false, "p", &media);
    assert!(report.chars().count() <= MAX_DEBUG_REPORT_CHARS, "{report}");
    assert!(report.ends_with('…'), "{report}");
}

#[test]
fn settings_text_reports_the_chat_configuration() {
    let empty = settings_text(&ChatData::default());
    assert!(empty.contains("Forward channel: not set"), "{empty}");
    assert!(empty.contains("/set_forward_channel"), "{empty}");
    assert!(empty.contains("Edit before forward: off"), "{empty}");
    assert!(empty.contains("built-in for every site"), "{empty}");
    assert!(empty.contains("Templates: none"), "{empty}");

    let mut configured = ChatData::default();
    configured.forward_channel_id = Some(-100123);
    configured.edit_before_forward = true;
    configured.template.insert("b".to_string(), "[]".to_string());
    configured.template.insert("a".to_string(), "[]".to_string());
    configured
        .message_format
        .insert("twitter".to_string(), "{author}: {content}".to_string());
    let text = settings_text(&configured);
    assert!(text.contains("Forward channel: -100123"), "{text}");
    assert!(text.contains("Edit before forward: on"), "{text}");
    assert!(text.contains("twitter => {author}: {content}"), "{text}");
    assert!(text.contains("Templates (2): a, b"), "{text}");
}

#[test]
fn settings_text_is_exact() {
    let mut data = ChatData::default();
    data.message_format.insert("twitter".to_string(), "T".to_string());
    data.message_format.insert("bsky".to_string(), "B".to_string());
    for i in 0..32 {
        data.template.insert(format!("t{i:02}"), "[]".to_string());
    }
    let names: Vec<String> = (0..30).map(|i| format!("t{i:02}")).collect();
    assert_eq!(
        settings_text(&data),
        format!(
            "Forward channel: not set (use /set_forward_channel <@channel or id>)\n\
             Edit before forward: off\nCaption formats:\n  bsky => B\n  twitter => T\n\
             Templates (32): {}, +2 more",
            names.join(", ")
        )
    );
}

#[test]
fn settings_list_every_format_line_in_order() {
    let mut data = ChatData::default();
    data.message_format.insert("b".to_string(), "z".to_string());
    data.message_format.insert("a => b".to_string(), "c".to_string());
    data.message_format.insert("a".to_string(), "b => c".to_string());
    let text = settings_text(&data);
    assert!(
        text.contains("Caption formats:\n  a => b => c\n  a => b => c\n  b => z\nTemplates"),
        "{text}"
    );
}

#[test]
fn settings_text_is_capped_before_telegram_limit() {
    let mut data = ChatData::default();
    data.message_format.insert("twitter".to_string(), "x".repeat(4000));
    for i in 0..MAX_TEMPLATES {
        data.template.insert(format!("t{i}"), "[]".to_string());
    }
    let text = settings_text(&data);
    assert!(text.chars().count() <= MAX_SETTINGS_CHARS, "{}", text.chars().count());
    assert!(text.ends_with('…'), "{text}");
}

#[test]
fn template_limits_reject_unusable_names_bodies_and_overflow() {
    let short = "before [] after";
    let mut data = ChatData::default();

    let step = execute_command(&Command::SetTemplate("漢".repeat(22)), &replying(short));
    assert!(said(step).contains("name is too long"));

    let body = format!("{} []", "<".repeat(MAX_TEMPLATE_BODY_CHARS));
    let step = execute_command(&Command::SetTemplate("long".into()), &replying(&body));
    assert!(said(step).contains("Template is too long"));
    assert_eq!(data.template.len(), 0);

    let step = execute_command(&Command::SetTemplate("ok".into()), &replying(short));
    assert!(matches!(apply_edit(&mut data, change(step)), Edited::TemplateSet));
    for i in 0..MAX_TEMPLATES - 1 {
        data.template.insert(format!("t{i}"), "[]".into());
    }
    let step = execute_command(&Command::SetTemplate("overflow".into()), &replying(short));
    let outcome = apply_edit(&mut data, change(step));
    assert!(edit_reply(Some(outcome), true).contains("maximum"));
    assert_eq!(data.template.len(), MAX_TEMPLATES);

    // A template that is there already is replaced even so.
    let step = execute_command(&Command::SetTemplate("ok".into()), &replying("new [] <b>"));
    let outcome = apply_edit(&mut data, change(step));
    assert_eq!(edit_reply(Some(outcome), true), "Template set.");
    assert_eq!(data.template.len(), MAX_TEMPLATES);
    assert_eq!(data.template.get(&"ok".to_string()).unwrap(), "new [] &lt;b&gt;");
}

#[test]
fn template_names_may_take_exactly_55_bytes() {
    let step = execute_command(&Command::SetTemplate("a".repeat(55)), &replying("[]"));
    assert!(matches!(change(step), ChatEdit::SetTemplate { .. }));
    let step = execute_command(&Command::SetTemplate("a".repeat(56)), &replying("[]"));
    assert_eq!(said(step), "Template name is too long (max 55 bytes).");
    let step = execute_command(&Command::SetTemplate("t".into()), &replying(&"[]".repeat(512)));
    assert!(matches!(change(step), ChatEdit::SetTemplate { .. }));
    let step = execute_command(&Command::SetTemplate("t".into()), &replying(&"[]a".repeat(342)));
    assert_eq!(said(step), "Template is too long (max 1024 characters).");
}

#[test]
fn templates_need_a_reply_a_place_and_a_name() {
    let step = execute_command(&Command::SetTemplate("t".into()), &context(Some(5), vec![]));
    assert_eq!(said(step), "Please reply to a message to set as template.");
    let step = execute_command(&Command::SetTemplate("t".into()), &replying("no place"));
    assert_eq!(said(step), "Please reply to a message with [] to set as template.");
    let step = execute_command(&Command::SetTemplate("  ".into()), &replying("[]"));
    assert_eq!(said(step), "Please provide a name for the template.");
}

#[test]
fn templates_are_removed_by_name() {
    let x = context(Some(5), vec![]);
    let mut data = ChatData::default();
    let step = execute_command(&Command::RemoveTemplate(" ".into()), &x);
    assert_eq!(
        said(step),
        "Usage: /remove_template <name> (see /settings for the saved names)"
    );
    let step = execute_command(&Command::RemoveTemplate("a".into()), &x);
    let outcome = apply_edit(&mut data, change(step));
    assert_eq!(edit_reply(Some(outcome), true), "No template named 'a'. None are saved yet.");
    data.template.insert("z".into(), "[]".into());
    data.template.insert("b".into(), "[]".into());
    let outcome = apply_edit(&mut data, ChatEdit::RemoveTemplate("a".into()));
    assert_eq!(edit_reply(Some(outcome), true), "No template named 'a'. Saved: b, z");
    let outcome = apply_edit(&mut data, ChatEdit::RemoveTemplate("z".into()));
    assert_eq!(edit_reply(Some(outcome), false), "Template 'z' removed.");
    assert_eq!(data.template.len(), 1);
}

#[test]
fn help_and_start_cover_what_the_command_list_cannot() {
    for placeholder in format_placeholders() {
        assert!(
            HELP_FOOTER.contains(&format!("{{{placeholder}}}")),
            "help does not document {{{placeholder}}}"
        );
    }
    assert!(HELP_FOOTER.contains("private chats only"));
    assert!(HELP_FOOTER.contains("[]"));
    assert!(START_TEXT.contains("inline mode"));
    assert!(START_TEXT.contains("/help"));
    assert!(HELP_FOOTER.chars().count() < 2000);
    assert!(START_TEXT.chars().count() < 2000);
}

#[test]
fn every_command_is_registered_and_parses() {
    let registered: Vec<String> = bot_commands()
        .into_iter()
        .map(|command| command.command.trim_start_matches('/').to_string())
        .collect();
    for expected in [
        "start",
        "help",
        "settings",
        "set_forward_channel",
        "remove_template",
        "set_format",
        "test",
        "debug",
    ] {
        assert!(
            registered.iter().any(|name| name == expected),
            "{expected} missing from {registered:?}"
        );
    }
    for command in bot_commands() {
        assert!(
            command.description.chars().count() <= 256,
            "{}: description too long",
            command.command
        );
        assert!(Command::parse(&command.command).is_some(), "{}", command.command);
    }
    assert_eq!(registered.len(), 13);
}

#[test]
fn every_documented_invocation_parses() {
    type Check = fn(&Command) -> bool;
    let cases: Vec<(&str, Check)> = vec![
        ("/start", |c| matches!(c, Command::Start)),
        ("/help", |c| matches!(c, Command::Help)),
        ("/settings", |c| matches!(c, Command::Settings)),
        ("/edit_before_forward", |c| matches!(c, Command::EditBeforeForward)),
        ("/remove_forward_channel", |c| matches!(c, Command::RemoveForwardChannel)),
        ("/bot_dict", |c| matches!(c, Command::BotDict)),
        (
            "/set_forward_channel @a_channel",
            |c| matches!(c, Command::SetForwardChannel(a) if a == "@a_channel"),
        ),
        ("/set_template tpl", |c| matches!(c, Command::SetTemplate(a) if a == "tpl")),
        ("/remove_template tpl", |c| matches!(c, Command::RemoveTemplate(a) if a == "tpl")),
        (
            "/set_format twitter {author}: {title}",
            |c| matches!(c, Command::SetFormat(a) if a == "twitter {author}: {title}"),
        ),
        ("/set_format twitter -", |c| matches!(c, Command::SetFormat(a) if a == "twitter -")),
        ("/clear_cache", |c| matches!(c, Command::ClearCache(a) if a.is_empty())),
        (
            "/clear_cache https://x.com/u/status/1",
            |c| matches!(c, Command::ClearCache(a) if a == "https://x.com/u/status/1"),
        ),
        (
            "/test https://x.com/u/status/1",
            |c| matches!(c, Command::Test(a) if a == "https://x.com/u/status/1"),
        ),
        (
            "/debug https://x.com/u/status/1",
            |c| matches!(c, Command::Debug(a) if a == "https://x.com/u/status/1"),
        ),
    ];
    for (text, ok) in cases {
        match Command::parse(text) {
            Some(parsed) => assert!(ok(&parsed), "{text} parsed as the wrong variant"),
            None => panic!("{text} did not parse"),
        }
    }
}

#[test]
fn what_is_no_command_does_not_parse() {
    for text in [
        "",
        "start",
        "/Start",
        "/unknown",
        "/start@other_bot",
        "/set_template two words",
        "/set_template  tpl",
        "https://x.com/u/status/1",
    ] {
        assert!(Command::parse(text).is_none(), "{text}");
    }
    // A bare `@` names no bot; arguments of a command without any are ignored.
    assert!(matches!(Command::parse("/start@"), Some(Command::Start)));
    assert!(matches!(Command::parse("/start now please"), Some(Command::Start)));
    assert!(matches!(Command::parse("/test   a b  "), Some(Command::Test(a)) if a == "a b"));
}

#[test]
fn the_help_lists_every_command() {
    let list = descriptions();
    assert!(list.starts_with(
        "Turn X/Pixiv/Bluesky links into media messages\n\n/start — Get started\n/help — Show command help\n"
    ));
    assert!(list.ends_with("/debug — Parse a link and report it (debug; nothing sent)"));
    assert_eq!(help_text(), format!("{list}\n\n{HELP_FOOTER}"));
    let x = context(None, vec![]);
    assert!(matches!(execute_command(&Command::Help, &x), CommandStep::Say(t) if t == help_text()));
    assert!(matches!(execute_command(&Command::Start, &x), CommandStep::Say(t) if t == START_TEXT));
}

#[test]
fn preview_caption_quotes_only_long_posts() {
    // The rendered caption is shown as it is where the post is short.
    assert_eq!(
        preview_caption("built-in caption", "Pinned title\nPinned body", 200),
        "built-in caption"
    );
    let long = "正".repeat(300);
    let quoted = preview_caption(
        "https://x.com/u/status/1\n<a href=\"https://x.com/u\">Author</a>: 正…",
        &long,
        200,
    );
    assert!(quoted.contains("<blockquote expandable>"), "{quoted}");
    assert_eq!(preview_caption("built-in", "", 200), "built-in");
}

#[test]
fn unknown_placeholder_finds_typos_only() {
    assert_eq!(unknown_placeholder("{author} — {title}"), None);
    assert_eq!(
        unknown_placeholder("{url}{author}{author_url}{title}{content}{tags}"),
        None
    );
    assert_eq!(unknown_placeholder("no placeholders here"), None);
    assert_eq!(unknown_placeholder("{unclosed"), None);

    assert_eq!(unknown_placeholder("{titel}"), Some("titel".to_string()));
    assert_eq!(unknown_placeholder("{title} {Content}"), Some("Content".to_string()));
    assert_eq!(unknown_placeholder("{url} {tag}"), Some("tag".to_string()));
    assert_eq!(unknown_placeholder("{{url}"), Some("{url".to_string()));
}

#[test]
fn the_executor_uses_the_context_it_is_given() {
    let x = context(Some(5), vec![]);
    let mut data = ChatData::default();
    assert!(matches!(execute_command(&Command::Settings, &x), CommandStep::ShowSettings));
    assert!(settings_text(&data).contains("Forward channel: not set"));

    let step = execute_command(&Command::SetFormat("twitter {author}: {content}".into()), &x);
    let outcome = apply_edit(&mut data, change(step));
    assert_eq!(
        edit_reply(Some(outcome), true),
        "Format set. Use /debug <link> to preview the caption."
    );
    assert_eq!(data.format_for("twitter"), "{author}: {content}");
    let step = execute_command(&Command::SetFormat("twitter -".into()), &x);
    let outcome = apply_edit(&mut data, change(step));
    assert_eq!(edit_reply(Some(outcome), true), "Format reset to the built-in one.");
    assert_eq!(data.format_for("twitter"), "");

    let step = execute_command(&Command::SetFormat("twitter {titel}".into()), &x);
    assert_eq!(
        said(step),
        "Unknown placeholder {titel}. Available: {url} {author} {author_url} {title} {content} {tags}"
    );
    assert_eq!(data.format_for("twitter"), "");
}

#[test]
fn formats_need_a_site_and_a_format() {
    let x = context(Some(5), vec![]);
    for arg in ["", "twitter", "twitter   "] {
        let step = execute_command(&Command::SetFormat(arg.into()), &x);
        assert_eq!(said(step), "Usage: /set_format <site> <format>", "{arg:?}");
    }
    let step = execute_command(&Command::SetFormat("mastodon {url}".into()), &x);
    assert_eq!(said(step), "Unknown site. Use twitter, bsky, pixiv, misskey or bilibili.");
    let step = execute_command(&Command::SetFormat("bsky\t {url} ".into()), &x);
    match change(step) {
        ChatEdit::SetFormat { site, format } => {
            assert_eq!((site.as_str(), format.as_str()), ("bsky", "{url}"))
        }
        other => panic!("{other:?}"),
    }
    assert_eq!(edit_reply(Some(Edited::FormatSet), false), "Format set only in memory; retry later.");
    assert_eq!(edit_reply(Some(Edited::FormatReset), false), "Reset in memory only; retry later.");
    assert_eq!(edit_reply(None, false), "Couldn't read chat settings; try again.");
}

#[test]
fn the_admin_only_commands_refuse_a_non_admin() {
    let outsider = CommandContext { key: Some("twitter:1".into()), ..context(Some(9), vec![5]) };
    for command in [
        Command::BotDict,
        Command::ClearCache(String::new()),
        Command::ClearCache("https://x.com/u/status/1".into()),
    ] {
        assert_eq!(said(execute_command(&command, &outsider)), "Admin only.");
    }
    let admin = linked("twitter:1");
    let step = execute_command(&Command::ClearCache("https://x.com/u/status/1".into()), &admin);
    match step {
        CommandStep::ClearOne { key, link } => {
            assert_eq!((key.as_str(), link.as_str()), ("twitter:1", "https://x.com/u/status/1"))
        }
        other => panic!("{other:?}"),
    }
    assert!(matches!(
        execute_command(&Command::ClearCache(" ".into()), &admin),
        CommandStep::ClearAll
    ));
    assert!(matches!(execute_command(&Command::BotDict, &admin), CommandStep::Dump));
    let unknown = context(Some(5), vec![5]);
    assert_eq!(
        said(execute_command(&Command::ClearCache("https://e/x".into()), &unknown)),
        "Unrecognized link. Use a twitter/x, pixiv, bsky, misskey or bilibili post URL."
    );
}

#[test]
fn an_unknown_sender_is_nobody() {
    assert_eq!(require_admin(&context(None, vec![5])), None);
    assert_eq!(require_admin(&context(None, vec![-1])), Some(-1));
    assert_eq!(require_admin(&context(Some(5), vec![4, 5])), Some(5));
}

#[test]
fn debug_replies_without_sending_media() {
    let x = context(Some(5), vec![]);
    let step = execute_command(&Command::Debug("https://example.com/x".into()), &x);
    assert!(matches!(step, CommandStep::Inspect(url) if url == "https://example.com/x"));
    assert!(inspect_failure(None).contains("No enabled site matches this link"));
    assert_eq!(inspect_failure(Some("gone")), "Fetch failed: gone");
    assert_eq!(
        said(execute_command(&Command::Debug(" ".into()), &x)),
        "Usage: /debug <post url>"
    );
}

#[test]
fn test_sends_need_a_known_link() {
    let x = context(Some(5), vec![]);
    assert_eq!(said(execute_command(&Command::Test("".into()), &x)), "Usage: /test <post url>");
    assert!(said(execute_command(&Command::Test("https://example.com".into()), &x))
        .contains("No enabled site matches this link"));
    let step = execute_command(&Command::Test(" https://x.com/u/status/1 ".into()), &linked("twitter:1"));
    assert!(matches!(step, CommandStep::Send(url) if url == "https://x.com/u/status/1"));
}

#[test]
fn the_forward_channel_comes_and_goes() {
    let mut data = ChatData::default();
    let outcome = apply_edit(&mut data, ChatEdit::RemoveChannel);
    assert_eq!(edit_reply(Some(outcome), true), "No channel to remove.");
    let outcome = apply_edit(&mut data, ChatEdit::ToggleEdit);
    assert_eq!(edit_reply(Some(outcome), true), "Please enable forward channel first.");
    let outcome = apply_edit(&mut data, ChatEdit::SetChannel(-7));
    assert_eq!(edit_reply(Some(outcome), false), "Forward channel set only in memory; retry later.");
    assert_eq!(data.forward_channel_id, Some(-7));
    let outcome = apply_edit(&mut data, ChatEdit::ToggleEdit);
    assert_eq!(edit_reply(Some(outcome), true), "Enable edit before forward.");
    data.edit_message.insert(
        3,
        EditMessage {
            url: "u".into(),
            chat_id: 1,
            forward_message_ids: vec![9],
            template: String::new(),
            created_at: 0,
        },
    );
    let outcome = apply_edit(&mut data, ChatEdit::ToggleEdit);
    assert_eq!(edit_reply(Some(outcome), true), "Disable edit before forward.");
    assert_eq!(data.edit_message.len(), 0);
    let outcome = apply_edit(&mut data, ChatEdit::RemoveChannel);
    assert_eq!(edit_reply(Some(outcome), true), "Remove successfully.");
    assert_eq!(data.forward_channel_id, None);
    assert_eq!(edit_reply(Some(Edited::ChannelSet), true), "Add successfully.");
    assert_eq!(
        edit_reply(Some(Edited::TemplateSet), false),
        "Template set only in memory; retry later."
    );
}

#[test]
fn channels_are_named_by_id_or_username() {
    let x = context(Some(5), vec![]);
    let step = execute_command(&Command::SetForwardChannel("-100123".into()), &x);
    assert!(matches!(step, CommandStep::FindChannel(ChannelRef::Id(-100123))));
    let step = execute_command(&Command::SetForwardChannel("@here".into()), &x);
    assert!(matches!(step, CommandStep::FindChannel(ChannelRef::Username(n)) if n == "@here"));
    let step = execute_command(&Command::SetForwardChannel("".into()), &x);
    assert_eq!(
        said(step),
        "Receive empty parameter.\nYou should enter a channel id or username"
    );
}

#[test]
fn a_channel_needs_its_admins() {
    let channel = ChatInfo { id: -7, is_channel: true };
    let group = ChatInfo { id: -8, is_channel: false };
    let refusal = |r: Result<(i64, u64), SetForwardChannelError>| match r {
        Ok(_) => panic!("accepted"),
        Err(e) => channel_error_text(&e),
    };
    assert_eq!(
        refusal(after_chat(Err("Bad Request: chat not found".into()), Some(5))),
        "Bad Request: chat not found\nPlease add the bot as an admin to the channel"
    );
    assert_eq!(refusal(after_chat(Ok(group), Some(5))), "Given id / username is not a channel");
    assert_eq!(
        refusal(after_chat(Ok(channel), None)),
        "You are not an administrator of the channel"
    );
    assert!(matches!(after_chat(Ok(channel), Some(5)), Ok((-7, 5))));

    let admins = vec![
        Admin { user_id: 5, can_post: false },
        Admin { user_id: 42, can_post: true },
        Admin { user_id: 43, can_post: false },
    ];
    let refused = |r: Result<(), SetForwardChannelError>| match r {
        Ok(()) => panic!("accepted"),
        Err(e) => channel_error_text(&e),
    };
    assert!(after_me(Ok(42), &admins).is_ok());
    assert_eq!(refused(after_me(Ok(43), &admins)), "Bot can't post messages to the channel");
    assert_eq!(refused(after_me(Ok(44), &admins)), "Bot can't post messages to the channel");
    assert!(refused(after_me(Err("down".into()), &admins)).starts_with("down\n"));
    let found = Ok(admins);
    assert!(after_admins(&found, 5).is_ok());
    assert_eq!(
        refused(after_admins(&found, 6)),
        "You are not an administrator of the channel"
    );
    assert!(refused(after_admins(&Err("down".into()), 5)).starts_with("down\n"));
}

#[test]
fn cleared_entries_are_counted() {
    assert_eq!(cleared_text(1, None), "Cleared 1 cached entry.");
    assert_eq!(cleared_text(0, None), "Cleared 0 cached entries.");
    assert_eq!(cleared_text(1, Some("https://x")), "Cleared cache for https://x (1 entry).");
    assert_eq!(cleared_text(2, Some("https://x")), "Cleared cache for https://x (2 entries).");
    assert_eq!(plural(1), "y");
    assert_eq!(plural(2), "ies");
}

#[test]
fn the_state_dump_is_escaped_and_capped() {
    assert_eq!(state_dump("a<b> & c"), "a&lt;b&gt; &amp; c");
    let long = state_dump(&"x".repeat(4000));
    assert_eq!(long.chars().count(), 3500);
    assert!(long.ends_with('…'));
}
