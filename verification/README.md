# forest_vm

The message interpreter of a Filecoin node, with its behaviour stated in contracts and proved by
Verus, and the cache of blocks that failed validation.

- `src/` is the library. It decides which messages of a tipset are executed, in which order, and
  what becomes of their results. It executes nothing itself: each step hands a request to the
  caller and takes the answer.
  - `tipset`, `cron` and `execution` hold the steps, `vm` the interpreter they belong to.
  - `message`, `receipt`, `error`, `amount`, `identifiers` and `actors` hold the values.
  - `laws` states what holds of every way in which a tipset can go.
  - `bad_block_cache` holds the cache and its laws.
- `app/` runs the steps on the Filecoin virtual machine and puts the cache behind a lock.
- `tests/` runs the library on concrete values.

Calls into other crates (encodings, digests, big integers, the LRU cache) stand in small functions
marked `external_body`, each with a doc comment on what is claimed of the call.
