# twitch_highlights

Finds highlights in Twitch broadcasts from their chat: chat lines are
collected, each message is scored by the emotes it uses, the busiest moments
of a broadcast become clips, and the clips are cut out of the video.

`src/` is the verified library (Verus). Its contracts state what each step
computes, and its proof functions state the laws that tie the steps together:

- `parser` splits IRC `PRIVMSG` lines into sender, channel and text;
- `analysis` tokenizes messages and scores them against the emote scores
  (held in a `dashmap` map);
- `chat` decides which channels the chat bot joins and leaves, answers pings
  and splits received text into chat lines;
- `clips` turns the outlier time buckets of a broadcast into clips;
- `video`, `vods` read Twitch video durations and build broadcast records;
- `twitch`, `eventsub`, `emotes` build Twitch API requests and read replies;
- `queue` is the small first-in, first-out queue of the chat collector;
- `text`, `decimal` hold the character and number helpers the rest builds on.

`app/` runs the services around the library (one subcommand each): the
network, database and queue I/O, and the floating-point bucket statistics of
the highlight finder.

`tests/` runs the library on concrete values.
