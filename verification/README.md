# docker-checker

Checks Docker containers, and on demand the images stored locally, against their registries for
available updates. It only reads: nothing is pulled and nothing is restarted.

The decisions are a library written in Verus, under `src/`. What each function returns is stated
in its contract and proved.

| Module | What it decides |
|---|---|
| `registry` | where an image reference points, and which page shows its tags |
| `challenge` | what a registry's `WWW-Authenticate` header asks for |
| `token` | how long a token is kept |
| `lookup` | which request a lookup makes next, and what its answer means |
| `docker` | which image a container runs, and under which digest it was pulled |
| `images` | which images no container uses, and which could be removed |
| `selection` | which items are checked |
| `checker` | whether an item is up to date |
| `summary` | the order of the results, their totals, and the exit code |
| `report` | the lines that are shown |
| `http`, `style` | what is taken from `reqwest` and `colored` |
| `text`, `string_set`, `types`, `error` | the vocabulary of the others |

The program around it, under `app/`, talks to the Docker daemon and the registries and prints.

## Exit codes

| Code | Meaning |
|---|---|
| 0 | no update is available |
| 1 | the Docker daemon cannot be used |
| 2 | one or more updates are available |
