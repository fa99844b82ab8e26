# html_template_bench

Tools that time the `go_html_template` engine and compare its output with Go's
`html/template`. The logic of the tools is a verified library under `src/`:

- `decimal`: decimal text of integers and reading a `usize` back from text.
- `text`: repetition, character-limited previews, the first differing byte of
  two texts, column padding.
- `templates`: the template sources of the re-analysis benchmark.
- `cli`: the command line of the comparison tool.
- `compare`: where the template and data come from, temporary file names, the
  `go run` arguments, and the summary of two outputs.
- `bench`: averages and report lines of the timing benchmarks.

`app/` holds the programs themselves: reading the command line, files,
processes, the clock, and the calls into the template engine.

`app/` calls the `go_html_template` engine, which is the project whose tools
these are. The crate does not depend on that project, so `app/` does not build
here; everything it calls from this crate does.
