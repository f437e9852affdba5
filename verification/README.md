# ffmpeg_rust_scripts

A collection of command-line tools around FFmpeg (trimming, chapters, scene
detection, overlays, transitions, loudness, conversions), built on a library
whose logic is verified with Verus.

- `src/` is the verified library: the text model (`text`), decimal numbers
  (`numfmt`), file names of media files (`media`), time codes (`timecode`),
  chapter lists (`chapters`), the listings that ffmpeg, ffprobe and yt-dlp
  print (`listings`), the encoder choices and cutting arguments (`commands`),
  the argument list of every run of ffmpeg, ffplay, ffprobe and yt-dlp
  (`invocations`), output file names (`names`) and filter graphs (`filters`). Every public function
  states its result over spec functions on `Seq<char>`; the laws that relate
  functions are public proof functions.
- `app/` is the program around it: argument parsing with clap, running
  ffmpeg, ffprobe, ffplay and yt-dlp, reading and writing files, and the
  arithmetic on seconds held as `f64`. The tools are chosen by the name the
  program is run under, or by its first argument.
- `tests/` runs the library on concrete values.
