# photo-browser

A photo browser that runs as a small web server on one's own machine. It opens a folder, sorts the
loose photos, raw files and videos in it into the subfolders `jpegs/`, `raws/` and `videos/`, shows
the photos with thumbnails, and moves deleted ones, each with its raw file, into `_deleted/`.

* `src/` is the verified library: every rule of the browser, with its contract.
  * `text`, `order`: file names, the order of texts and the stable sort by it.
  * `media`, `listing`, `picker`: which files are media, what a listing tells, and the folder picker.
  * `sorting`, `sort_laws`, `hint_laws`: sorting a folder, what a sort does to every folder, and what
    the picker then says of it.
  * `session`, `session_laws`: the opened folder, and how it comes to be opened.
  * `photos`, `images`, `thumbs`: listing photos, sending them, and their thumbnails.
  * `delete`, `delete_laws`: deleting a photo, and what a deletion does to every disk.
  * `list_laws`: the list of photos after a deletion, and after the folder is opened again.
  * `reply`: what a request is answered.
* `app/` is the program: it reads and writes files and speaks HTTP.
* `tests/` runs the library.

Work that goes back and forth between a decision and the file system is a value that says what it
wants done next (`action`) and is told how that went (`step`). The program only carries that out.
