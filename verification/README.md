# xmedia_bot

A Telegram bot that mirrors posts of X/Twitter, Pixiv, Bluesky, Misskey and
Bilibili into chats: it fetches a post, sends its photos, videos and GIFs with a
caption, offers to edit the caption, and forwards the result to a channel.

## Layout

- `src/` is the library: every decision the bot takes, as functions from plain
  values to plain values. Each has a contract that [Verus](https://github.com/verus-lang/verus)
  proves.
- `app/` is the program round it: the Telegram client, the sites, SQLite, the
  disk, the clock and the tasks that run side by side. It performs the steps that
  the library asks for and hands back what came of them.
- `tests/` runs the library on concrete values.

## The library

| module | what it decides |
| --- | --- |
| `text`, `html`, `json`, `names`, `table` | text, escaping, JSON fields, ordered names, a map |
| `config`, `db`, `upkeep` | the environment's settings, schema migrations, files to sweep |
| `links`, `site`, `caption` | URLs, what a site hands over, quoting long posts |
| `photo` | which photos to shrink or recode, and to what |
| `link_cache`, `state` | posts that were sent, what a chat is set to |
| `queue`, `rate_limit` | leases, retries and dead letters, pacing |
| `send` | tasks, media groups, uploads, failures, what follows a send |
| `handlers` | commands, messages, buttons, replies, inline queries, repairs |

Properties that span several functions are public proof functions whose names
begin with `law_`.

Where the library calls another crate (`html-escape`, `serde_json`, `url`, `png`,
`zune-jpeg`, `jpeg-encoder`, `fast_image_resize`, `rand`), the call stands in a
small wrapper, and the wrapper's comment says what is believed of it.
