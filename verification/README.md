# VideoGrab

The rules of a download manager around yt-dlp, as a library verified with
Verus, and the desktop program that runs on it.

`src/` is the library. It does no input or output: it is told what happened and
says what is to be done.

- `text`: string operations with exact contracts
- `item`, `queue`: an entry of the queue, its changes, and the state around it
- `output`: the lines that yt-dlp prints and what they change
- `download`: the course of one download, event by event
- `command`, `names`: the command lines and the environment of yt-dlp
- `history`, `media`: files on disk, thumbnails, and the stored history
- `platform`, `install`: where files lie and where the tools come from
- `numbers`, `version`, `release`, `report`: versions, updates and the report on
  yt-dlp
- `settings`: the settings file
- `base64`, `identity`: pictures as text, ids of entries

`progress` is counted in hundredths of a percent in the library and shown as a
percentage by the program.

`tests/` runs the library. `app/` is the Tauri program: processes, files, the
network and the window.
