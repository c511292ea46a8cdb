# voidrift

The rules of Voidrift, a small space-station game, as a library whose
behaviour is stated in contracts and proved.

- `src/` holds the rules: the opening cinematic (`opening`), the signal feed
  and its strip (`signal`, `signal_feed`), quest objectives (`quest`), Echo
  content and station logs (`content`, `logs`), the drone economy and request
  cards (`economy`), the story's reactions (`narrative`), autonomous ships and
  the scout (`fleet`), player ship arrivals and asteroids (`navigation`), the
  drawer, strip and tutorial pop-ups (`hud`), the menu (`menu`), saves
  (`persistence`) and starting a session (`session`). Laws proved about them
  are public proof functions named `law_...`.
- `tests/` runs the library on concrete values.
- `app/` reads the content, balance and save files and does the station's
  real-valued arithmetic around the library's decisions.
