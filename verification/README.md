# mcgen

Generates a Gradle project for a Minecraft (Paper) plugin. The library in
`src/` holds the rules, each with a contract that Verus proves:

- `text`: character-level string operations (replace, trim, split, `u16` parsing).
- `semver` / `semver_ord`: dotted versions, their parsing and their total order.
- `pattern`: the calls into `regex` and `chrono`, with what is assumed of them.
- `release`: choosing the Paper API release for a Minecraft version from the
  repository listing and the dates of its pages.
- `gradle`: the choice of a Gradle executable and of a wrapper distribution,
  as a step function that the program drives.
- `path`: joining paths as `PathBuf::push` does on Unix and on Windows,
  Windows prefixes and verbatim normalization included.
- `cli`: the project options and the project directory.
- `files`: the build scripts, the main class and the target-directory rules.

`app/` is the command-line program around it: option parsing (clap), HTTP
(reqwest), the file system, running Gradle, and coloured output. It fetches
what `CodeGen::release_listing` and `CodeGen::release_pages` name and hands
the texts to `CodeGen::release_ver`, which makes every choice.
