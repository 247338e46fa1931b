# apk-fetch

Downloads APKs from third-party mirrors: APKCombo, APKPure and APKMirror. Given a
package id, the mirrors are asked one after the other until one of them has the
build, and the file is checked and named by what the server says it is.

The library under `src/` is verified with Verus. It decides; it never talks to the
network. A provider is a flow: a state machine that hands out a request and goes on
with the reply. The program under `app/` answers the requests with `curl`.

| module | what it holds |
| --- | --- |
| `model`, `strings`, `numbers`, `order` | texts as sequences of characters, and functions on them |
| `outside`, `html` | the calls into other crates, with what is relied on of each |
| `common` | the terms that everything is stated in, the registry of providers with its fallback, flows, and what to run and make of `curl` |
| `providers` | the mirrors: how their pages are read, and the flows over them |
| `cli` | the command line: which providers, what is reported, how it ends |
| `textual` | the same for builds whose ABIs, dates and versions stay texts and whose files are named before the download, with Uptodown besides |

## Laws

Beside the contracts of the functions, the public proof functions state what holds
of the library as a whole. Some of them:

- `lemma_download_resolves` (one per mirror): however the site answers, a download is
  resolved in a bounded number of requests, to the outcome that its pages spell.
- `lemma_choice`, `lemma_tightest`, `lemma_plain`: a plain APK is chosen over a bundle,
  then the build with the fewest ABIs among those that run on the ones asked for.
- `lemma_asks_until_success`, `lemma_first_success`: a fallback asks everyone once, in
  order, and nobody after the first success.
- `lemma_fan_out`, `lemma_asks_each_once`, `lemma_search`: every provider is asked once, in
  order; one provider's error never hides another one's results, and where there are
  none at all the last error is how it ends.
- `lemma_exact_wins` (one per mirror): a build of exactly the version asked for is taken
  before one below it, wherever it stands.
- `lemma_saved`, `lemma_body_is_page`, `lemma_request_ends`: only packages are kept, only
  pages are handed on, and retrying ends.
- `lemma_arch_round_trip`, `lemma_path_leads_back`: what is written as text reads back.
- `lemma_filename_safe`: a file name holds no path.
