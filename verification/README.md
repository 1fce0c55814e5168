# allrisbot

A Telegram bot that notifies its users about newly published documents in the
council information system Allris 4. Users say with rules which documents they
want to hear of.

The library in `src/` makes the decisions and is verified with Verus. It takes
plain values and says what to do; whoever performs an action reports what came
of it. The program in `app/` performs them: it talks to Telegram, to the
database and to the council information system.

| Module | What it decides |
| --- | --- |
| `text` | texts, numbers and their order |
| `message_builder`, `rich_text` | messages with formatting, within Telegram's limit |
| `types` | tags, conditions and filters, and which messages they let through |
| `allris` | addresses, pages and documents, and their announcements |
| `database` | keys, stream ids, chat records, retries |
| `broadcasting`, `delivery` | which chat is processed when, and how a message is delivered |
| `outgoing`, `rate_limiter`, `retrying` | queues of messages, limits, limited attempts |
| `response` | what Telegram's errors mean |
| `lru_cache` | which cached entries are forgotten |
| `updates`, `command`, `pattern`, `keyboard`, `channel` | what users send, and to which chat it applies |
| `bot`, `filter_dialogue`, `registration` | the dialogues with users |
| `options` | the command line |

Functions named `law_` prove what holds across several functions: that no
message is sent before it is acknowledged, that no chat is processed twice at
the same time, that chats catch up with the latest update.

What is taken on trust are the contracts of a few functions that call other
crates (`chrono`, `rand`, `regex`, `scraper`, `teloxide`, `tokio`,
`tokio-retry`, `url`). Each of them names the function that it calls.
