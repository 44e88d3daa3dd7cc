# discord-twitch-notif

A Discord bot that tells users when the Twitch streamers that they subscribed to go live.

Use with `/subscribe <streamer_name>`, `/subscriptions`, `/unsubscribe <streamer_name>`.

It gets its events from Twitch's EventSub, through a webhook or through a websocket:
`discord-twitch-notif webhook` or `discord-twitch-notif websocket`.

| variable | |
| --- | --- |
| `DISCORD_TOKEN` | the bot's token |
| `TWITCH_CLIENT_ID`, `TWITCH_CLIENT_SECRET` | the program's credentials with Twitch |
| `TWITCH_WEBHOOK_PORT` | the port to listen on, such as `8000` (webhook) |
| `TWITCH_WEBHOOK_PATH` | the path to listen at, such as `/twitch-events` (webhook) |
| `TWITCH_WEBHOOK_URL` | the URL under which Twitch reaches that path (webhook) |
| `TWITCH_ACCESS_TOKEN` | a user's access token (websocket) |

## Layout

- `src/` is the library: what the bot does next and what it says, with contracts that Verus proves.
  - `webhook`: what to do with a request to the webhook.
  - `websocket`: what to do about what happens on the websocket.
  - `registration`: what to ask of Twitch, so that its events come in.
  - `users`: what users subscribed to, and their commands.
  - `notification`: whom to tell what of a stream.
  - `setup`: what the webhook is set up with, and how a run of it goes.
  - `tasks`: what runs beside its server: the daily check, new subscriptions, the token.
  - `eventsub`: what Twitch sends.
  - `collections`, `text`: sets and maps of strings, and decimal numbers.
- `app/` is the program around it: the database, the server, the connections, the commands.
- `tests/` runs the library.
