# Staccato

A terminal music player whose decisions are proved.

`src/` is a library written in Verus. It holds everything the player decides: what a key or a
click means, which track follows which, what is held ready for a gapless transition, how the
library is grouped and filtered, what a search shows, how a drop is read, what a library server
answers and how a session with one goes on. Each function states what it returns or changes, and
Verus proves it for every input.

`app/` is ordinary Rust around the library: the terminal, the database, the network, the decoder
and everything in floating point. The library asks it questions (`app::flow::Ask`), hands it
things to do (`app::flow::Effect`) and takes in what happens outside.

| Module | What it holds |
| --- | --- |
| `model`, `tree`, `library`, `storage` | tracks, playlists, the library list, scanning, what is kept between runs |
| `app` | the player: playback order, queue, staging, playlists, filters, tabs, preferences |
| `app::laws` | what holds of the player as a whole |
| `input`, `layout`, `screen`, `page`, `panel`, `ui`, `menus`, `help`, `overlay`, `settings` | keys and clicks, where the parts of the screen stand, what they and the popups show |
| `drop`, `kitty`, `base64` | pasted and dropped paths, drag and drop over the terminal |
| `soulseek`, `soulseek_session`, `soulseek_laws` | the Soulseek tab, its session, and what holds of the list of results |
| `net` | addresses, frames, identities, client sessions, the server |
| `audio`, `replaygain`, `cover` | engines, loudness, artwork |
| `text`, `split`, `number`, `order`, `path`, `time`, `util`, `keys` | the ground that the rest stands on |

What is not proved is said where it stands: functions of other crates and of the standard library
are called through small functions whose comments say what is taken for granted of them.
