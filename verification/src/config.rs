//! The settings, read from the values of the environment's variables.
use crate::text::{lowercase, parse_signed, parse_unsigned, same, split_on, trim};
use crate::links::parse_url;
use vstd::prelude::*;

verus! {

/// The values of the variables that the settings come from; nothing where a
/// variable is not set.
#[derive(Debug)]
pub struct ConfigVars {
    pub bot_admin: Option<String>,
    pub edit_message_ttl_seconds: Option<String>,
    pub link_cache_ttl_seconds: Option<String>,
    pub caption_quote_text_chars: Option<String>,
    pub webhook: Option<String>,
    pub webhook_url: Option<String>,
    pub webhook_listen: Option<String>,
    pub webhook_port: Option<String>,
    pub webhook_cert: Option<String>,
    pub webhook_secret_token: Option<String>,
}

#[derive(Debug)]
pub struct Config {
    /// Users that may give the bot its administrative commands.
    pub admin_ids: Vec<i64>,
    /// How long an edit prompt can be used, in seconds.
    pub edit_message_ttl: u64,
    /// How long a cached post is served, in seconds.
    pub link_cache_ttl: u64,
    /// A post whose text has at least this many characters is quoted in its
    /// caption; zero turns that off.
    pub caption_quote_text_chars: u64,
    pub webhook_enabled: bool,
    pub webhook_url: Option<String>,
    /// The address to listen on, as it was given.
    pub webhook_listen: Option<String>,
    pub webhook_port: Option<u16>,
    pub webhook_cert: Option<String>,
    pub webhook_secret_token: Option<String>,
}

pub const DEFAULT_EDIT_MESSAGE_TTL: u64 = 86400;

pub const DEFAULT_LINK_CACHE_TTL: u64 = 604800;

pub const DEFAULT_CAPTION_QUOTE_TEXT_CHARS: u64 = 200;

/// A number, or the default where the variable is not set or is no number.
pub open spec fn number_or(value: Option<Seq<char>>, default: u64) -> int {
    match value {
        Some(s) => match crate::text::unsigned_value(s, u64::MAX as nat) {
            Some(n) => n as int,
            None => default as int,
        },
        None => default as int,
    }
}

fn parse_u64(value: &Option<String>, default: u64) -> (r: u64)
    ensures
        r == number_or(crate::json::text_option(*value), default),
{
    match value {
        Some(s) => match parse_unsigned(s.as_str(), u64::MAX) {
            Some(n) => n,
            None => default,
        },
        None => default,
    }
}

/// The numbers among the pieces of a list, in order. Blank pieces and those that
/// are no numbers are passed over.
pub open spec fn ids_of(parts: Seq<Seq<char>>) -> Seq<int>
    decreases parts.len(),
{
    if parts.len() == 0 {
        Seq::empty()
    } else {
        let front = ids_of(parts.drop_last());
        match crate::text::signed_value(crate::text::trimmed(parts.last())) {
            Some(n) => front.push(n),
            None => front,
        }
    }
}

pub open spec fn int_views(v: Seq<i64>) -> Seq<int> {
    v.map_values(|n: i64| n as int)
}

/// The ids in a comma-separated list.
pub fn parse_admin_ids(list: &str) -> (r: Vec<i64>)
    ensures
        int_views(r@) == ids_of(crate::text::pieces(list@, ',')),
{
    let parts = split_on(list, ',');
    let ghost all = crate::text::texts(parts@);
    let mut out: Vec<i64> = Vec::new();
    let mut i: usize = 0;
    proof {
        assert(all.take(0) =~= Seq::<Seq<char>>::empty());
        assert(int_views(out@) =~= Seq::<int>::empty());
    }
    while i < parts.len()
        invariant
            i <= parts@.len(),
            all == crate::text::texts(parts@),
            int_views(out@) == ids_of(all.take(i as int)),
        decreases parts@.len() - i,
    {
        proof {
            assert(all.take(i + 1).drop_last() =~= all.take(i as int));
            assert(all.take(i + 1).last() == parts@[i as int]@);
        }
        let part = trim(parts[i].as_str());
        if let Some(id) = parse_signed(part.as_str()) {
            let ghost had = out@;
            out.push(id);
            assert(int_views(out@) =~= int_views(had).push(id as int));
        }
        i = i + 1;
    }
    assert(all.take(i as int) =~= all);
    out
}

/// The words that turn the webhook on, in lower case.
pub open spec fn means_yes(lowered: Seq<char>) -> bool {
    lowered == "true"@ || lowered == "yes"@ || lowered == "1"@
}

/// Whether a lower-cased word turns the webhook on.
pub fn is_yes(lowered: &str) -> (r: bool)
    ensures
        r == means_yes(lowered@),
{
    same(lowered, "true") || same(lowered, "yes") || same(lowered, "1")
}

/// A text, or nothing where it is blank or not set.
pub open spec fn nonempty(value: Option<Seq<char>>) -> Option<Seq<char>> {
    match value {
        Some(s) => if s.len() == 0 {
            None
        } else {
            Some(s)
        },
        None => None,
    }
}

fn unless_empty(value: &Option<String>) -> (r: Option<String>)
    ensures
        crate::json::text_option(r) == nonempty(crate::json::text_option(*value)),
{
    match value {
        Some(s) => if s.as_str().is_empty() {
            None
        } else {
            Some(s.clone())
        },
        None => None,
    }
}

/// A setting that has to parse: a value that does not counts as not set.
pub open spec fn parsed_url(value: Option<Seq<char>>) -> Option<Seq<char>> {
    match value {
        Some(s) => match crate::links::url_of(s) {
            Ok(url) => Some(url),
            Err(_) => None,
        },
        None => None,
    }
}

pub open spec fn parsed_port(value: Option<Seq<char>>) -> Option<int> {
    match value {
        Some(s) => match crate::text::unsigned_value(s, u16::MAX as nat) {
            Some(n) => Some(n as int),
            None => None,
        },
        None => None,
    }
}

pub open spec fn admin_list(value: Option<Seq<char>>) -> Seq<int> {
    match value {
        Some(s) => ids_of(crate::text::pieces(s, ',')),
        None => Seq::empty(),
    }
}

impl Config {
    /// The settings that a set of variables gives. What is misspelled counts as
    /// not set.
    pub fn load(vars: &ConfigVars) -> (r: Config)
        ensures
            int_views(r.admin_ids@) == admin_list(crate::json::text_option(vars.bot_admin)),
            r.edit_message_ttl == number_or(
                crate::json::text_option(vars.edit_message_ttl_seconds),
                DEFAULT_EDIT_MESSAGE_TTL,
            ),
            r.link_cache_ttl == number_or(
                crate::json::text_option(vars.link_cache_ttl_seconds),
                DEFAULT_LINK_CACHE_TTL,
            ),
            r.caption_quote_text_chars == number_or(
                crate::json::text_option(vars.caption_quote_text_chars),
                DEFAULT_CAPTION_QUOTE_TEXT_CHARS,
            ),
            r.webhook_enabled == match crate::json::text_option(vars.webhook) {
                Some(s) => means_yes(crate::text::lowercase_of(s)),
                None => false,
            },
            crate::json::text_option(r.webhook_url) == parsed_url(
                crate::json::text_option(vars.webhook_url),
            ),
            crate::json::text_option(r.webhook_listen) == crate::json::text_option(
                vars.webhook_listen,
            ),
            match r.webhook_port {
                Some(p) => parsed_port(crate::json::text_option(vars.webhook_port)) == Some(
                    p as int,
                ),
                None => parsed_port(crate::json::text_option(vars.webhook_port)) is None,
            },
            crate::json::text_option(r.webhook_cert) == nonempty(
                crate::json::text_option(vars.webhook_cert),
            ),
            crate::json::text_option(r.webhook_secret_token) == nonempty(
                crate::json::text_option(vars.webhook_secret_token),
            ),
    {
        let admin_ids: Vec<i64> = match &vars.bot_admin {
            Some(list) => parse_admin_ids(list.as_str()),
            None => {
                let none: Vec<i64> = Vec::new();
                assert(int_views(none@) =~= Seq::<int>::empty());
                none
            },
        };
        let webhook_enabled = match &vars.webhook {
            Some(s) => {
                let lowered = lowercase(s.as_str());
                is_yes(lowered.as_str())
            },
            None => false,
        };
        let webhook_url: Option<String> = match &vars.webhook_url {
            Some(s) => match parse_url(s.as_str()) {
                Ok(url) => Some(url),
                Err(_) => None,
            },
            None => None,
        };
        let webhook_listen: Option<String> = match &vars.webhook_listen {
            Some(s) => Some(s.clone()),
            None => None,
        };
        let webhook_port: Option<u16> = match &vars.webhook_port {
            Some(s) => match parse_unsigned(s.as_str(), u16::MAX as u64) {
                Some(n) => Some(n as u16),
                None => None,
            },
            None => None,
        };
        Config {
            admin_ids,
            edit_message_ttl: parse_u64(&vars.edit_message_ttl_seconds, DEFAULT_EDIT_MESSAGE_TTL),
            link_cache_ttl: parse_u64(&vars.link_cache_ttl_seconds, DEFAULT_LINK_CACHE_TTL),
            caption_quote_text_chars: parse_u64(
                &vars.caption_quote_text_chars,
                DEFAULT_CAPTION_QUOTE_TEXT_CHARS,
            ),
            webhook_enabled,
            webhook_url,
            webhook_listen,
            webhook_port,
            webhook_cert: unless_empty(&vars.webhook_cert),
            webhook_secret_token: unless_empty(&vars.webhook_secret_token),
        }
    }
}

// ---- laws ----

/// A setting that is a number is that number; one that is missing or misspelled is the
/// default: a day for prompts, a week for the cache, and two hundred characters for
/// quoting.
pub proof fn law_settings_have_their_defaults(n: u64, words: Seq<char>, default: u64)
    ensures
        number_or(Some(crate::text::digits(n as nat)), default) == n,
        number_or(None, default) == default,
        crate::text::unsigned_value(words, u64::MAX as nat) is None ==> number_or(
            Some(words),
            default,
        ) == default,
        DEFAULT_EDIT_MESSAGE_TTL == 24 * 60 * 60,
        DEFAULT_LINK_CACHE_TTL == 7 * 24 * 60 * 60,
        DEFAULT_CAPTION_QUOTE_TEXT_CHARS == 200,
        parsed_port(None) is None,
        n <= 65535 ==> parsed_port(Some(crate::text::digits(n as nat))) == Some(n as int),
        n > 65535 ==> parsed_port(Some(crate::text::digits(n as nat))) is None,
        nonempty(None) is None,
        words.len() == 0 ==> nonempty(Some(words)) is None,
        words.len() > 0 ==> nonempty(Some(words)) == Some(words),
        admin_list(None).len() == 0,
{
    crate::text::law_written_numbers_are_read_back(n as nat, 0, u64::MAX as nat);
    crate::text::law_written_numbers_are_read_back(n as nat, 0, u16::MAX as nat);
}

/// The admins are the numbers of their list, in order, each as it is written; what is no
/// number is passed over.
pub proof fn law_admins_are_the_numbers_of_the_list(parts: Seq<Seq<char>>, id: i64, last: Seq<char>)
    ensures
        ids_of(parts.push(crate::text::signed_digits(id as int))) == ids_of(parts).push(id as int),
        crate::text::signed_value(crate::text::trimmed(last)) is None ==> ids_of(parts.push(last))
            == ids_of(parts),
{
    let word = crate::text::signed_digits(id as int);
    assert(parts.push(word).drop_last() =~= parts);
    assert(parts.push(last).drop_last() =~= parts);
    crate::text::law_written_numbers_are_read_back(0, id, 0);
    crate::queue::lemma_digits(
        (if id < 0 {
            -(id as int)
        } else {
            id as int
        }) as nat,
    );
    let part = crate::text::law_trimming_takes_the_blanks_round(word);
    assert forall|i: int| 0 <= i < word.len() implies !crate::text::is_blank(#[trigger] word[i]) by {
        if id < 0 {
            let d = crate::text::digits((-(id as int)) as nat);
            if i > 0 {
                assert(word[i] == d[i - 1]);
            }
        }
    }
    if part.0 > 0 {
        assert(crate::text::is_blank(word[0]));
    }
    if part.1 < word.len() {
        assert(crate::text::is_blank(word[word.len() - 1]));
    }
    assert(crate::text::trimmed(word) =~= word);
}

/// The webhook is turned on by one of three words and by nothing else.
pub proof fn law_three_words_mean_yes(lowered: Seq<char>)
    ensures
        means_yes(lowered) <==> lowered == seq!['t', 'r', 'u', 'e'] || lowered == seq![
            'y',
            'e',
            's',
        ] || lowered == seq!['1'],
{
    reveal_strlit("true");
    reveal_strlit("yes");
    reveal_strlit("1");
    assert("true"@ =~= seq!['t', 'r', 'u', 'e']);
    assert("yes"@ =~= seq!['y', 'e', 's']);
    assert("1"@ =~= seq!['1']);
}

/// An address is taken as it parses, and not at all where it does not.
pub proof fn law_addresses_have_to_parse(s: Seq<char>)
    ensures
        parsed_url(None) is None,
        parsed_url(Some(s)) matches Some(url) ==> crate::links::url_of(s) == Ok::<
            Seq<char>,
            Seq<char>,
        >(url),
        parsed_url(Some(s)) is None <==> crate::links::url_of(s) is Err,
{
}

} // verus!
