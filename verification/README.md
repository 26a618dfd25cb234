# Canvas Pocket

A desktop client for the recorded lessons of Canvas@SJTU: log in by scanning a QR code, choose a
course, download the tracks of a lesson and its subtitles.

- `src/` is the library. It is written in Verus, and every function in it is proved against its
  contract. It does no input or output.
  - `qr_login`, `lesson_loading`, `download_task` and `track_download` take events and say what is to
    be reported and done next; `qr_laws`, `task_laws` and `track_laws` (and the end of
    `lesson_loading`) prove what holds of every course of events.
  - `navigation`, `login_page`, `cookies`, `json`, `api`, `http`, `lessons`, `subtitles`, `naming`,
    `endpoints`, `failures`, `progress` and `text` hold the rules that these rest on;
    `cookie_laws` proves what holds of merging cookies.
  - Calls into other crates stand in small functions whose contracts are trusted. Each says in its
    doc comment what is claimed of the call.
- `app/` is the application around it: the window, the network and the file system.
- `tests/` runs the library.
