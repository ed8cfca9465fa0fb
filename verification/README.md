# ftp_server

A small multi-threaded FTP server. The library under `src/` holds the
protocol logic, verified with Verus; the program under `app/` holds the
sockets, the file system work and the thread pool.

## Library (`src/`)

- `text`: Unicode white space, trimming, splitting a line into words,
  decimal numbers.
- `commands`: the commands (`FtpCommand`), reading a line as a command,
  the CWD and PWD replies, the archive naming rules of RETR and STOR.
- `ftp_responses`: the reply texts.
- `paths`: paths as text: joining and last-component names as `std::path`
  gives them on Unix, and `.` and `..` resolved by their text without
  climbing above the root.
- `user_session`: what is kept of one user.
- `client`: the state machine of one control connection. A command gives
  an `Effect`; when the effect needs outside work, its `Outcome` gives the
  next `Effect`.
- `listing`: the text of a directory listing.
- `errors`: the kinds of failure and their texts.
- `listener`: the address the server listens on.
- `laws`: properties that span commands (the current directory keeps its
  root, server paths stay under the starting directory, transfers need
  PASV and use the listener up, and more).

## Program (`app/`)

`ftp-server -d <dir> [-u <usr>] [--pwd <pwd>] [-p <port>] [-i <ip>] [-n <threads>]`
listens for control connections and serves each one on a thread pool,
performing the effects that the library decides.
