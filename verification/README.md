# music-groomer

A verified library for grooming one album directory or loose audio file into a
predictable music library layout, without touching the selected source: it reads
what inspection found, asks MusicBrainz, AcoustID and the Cover Art Archive
through a bounded cache, ranks and selects the release, and builds an exact
preview (paths, tag changes, artwork, preserved files, warnings) before anything
is published.

The library under `src/` is written in Verus. Each public function states in
`requires`/`ensures` what it computes, and Verus proves the code against it.
Properties that span several functions are stated as `law_*` proof functions
next to the code they are about, for example:

- `provider::law_collapse_leaves_no_equivalent_pair`: a search never offers two
  editions that would groom alike;
- `provider::lookup::law_offline_lookups_stay_in_the_cache`: offline, no
  provider is ever asked;
- `provider::pruning::law_eviction_is_least_recently_used`: pruning deletes
  older entries before newer ones;
- `provider::ownership::law_unmarked_nonempty_directory_is_left_alone`: a
  non-empty directory without the cache marker is never claimed, and no
  unmarked directory is ever cleared;
- `apply::preflight::law_result_never_inside_its_source`: an album's result is
  never published inside the album itself;
- `layout::law_release_paths_distinct`: a laid-out release gives every track its
  own path inside the release directory.

Outside crates are reached only through small trusted wrappers whose contracts
say what the crate's documentation and source show: `sha2` (cache entry names),
`urlencoding` (query and form encoding) and `image` (recognising and decoding
downloaded artwork).

`app/` holds the command-line program: argument parsing (clap), the
configuration file (toml, directories, tempfile), the cache on disk
(serde_json), the HTTP adapters (ureq), the `fpcalc` runner and the simulated
`demo` session with its pretend sources. It calls the library for the decisions
it makes.

What the program cannot do yet: groom a real source and apply the result. Reading
audio files and their tags, writing the groomed copy, validating and publishing
it, and the store of replaced releases are not part of this project; the library
holds the decisions around them (the order of Apply's work, how a replacement's
swap is reported, the guided session and identification as state machines), and
`music-groomer SOURCE` answers with an error that says so and leaves the source
untouched.

`tests/` exercises the library from outside, with the real outside crates.
