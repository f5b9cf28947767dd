# friends

A terminal address book of friends. Each friend carries small profiles that
unlock applets: a job feed, book recommendations, conversation prep from
Wikipedia, a birthday tracker and Discord direct messages.

## Layout

- `src/` — the library, verified with Verus:
  - `text.rs`: trimming, comma-separated lists, joining, decimals, search;
  - `date.rs`, `web.rs`: calendar dates and URL percent-encoding;
  - `data/`: friends and their per-applet profiles;
  - `apps/`: the applets, the fields they ask for and when they unlock;
  - `app/`: application state and the add/edit form, with `roundtrip.rs`
    proving what saving the form does to a friend;
  - `events.rs`: what each key press does, and the outside work it asks for;
  - `api/`: request URLs, ranking, merging and the items each applet shows;
  - `ui.rs`: the text that the screens show.
- `tests/`: tests of the library.
- `app/`: the program: terminal, drawing, HTTP requests and the friends file.
