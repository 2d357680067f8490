# rootle-gitlab

A GitLab provider for the [rootle](https://rootle.dev) browser. It reads requests from
standard input, one JSON-RPC 2.0 message to a line, and answers them from GitLab's REST v4
interface and from a cache on disk.

The decisions are a library in Verus, under `src/`; what they need from the world is
brought to them by a small program, under `app/`.

## How a request is carried out

A line becomes a `wire::Request`, and `Handler::dispatch_streaming` makes a `Turn` of it. A
turn is either the reply or a question: the address of a GitLab resource, or the location of
a file in the cache. The program brings the answer, and `resume` goes on from it. Each
answer brings a request nearer to its reply, and `wire::transcript` writes the lines that it
is answered with.

| Module | What it decides |
|---|---|
| `wire` | which lines are requests, and the lines that answer them |
| `handlers` | dispatch, the kinds of errors, the lookup of projects and groups; a module for each method below it |
| `api` | GitLab's addresses, entities and error answers |
| `paging` | the aggregation of pages under a bound |
| `cache` | where things lie on disk |
| `budget` | what leaves a cache that is over its budget |
| `json` | documents, which are `serde_json`'s |
| `encode` | hexadecimal, percent-encoding, base64, digests |
| `text` | splitting, joining, trimming, searching |
| `cli` | the command line |

## What is proved, and what is taken on trust

The functions of the library are held to contracts, and the public proof functions state
what holds across functions: that blame ranges cover a file, that a cached listing is the
listing, that an eviction takes just enough, that a request comes to one reply.

What `serde_json`, `base64`, `sha1` and a few functions of the standard library do is taken
on trust. Those places carry `external_body` or `assume_specification`, and their comments
say what is claimed.

## Running it

```toml
# ~/.config/rootle/config.toml
[provider]
kind = "stdio"
command = ["rootle-gitlab"]   # elsewhere: append "--instance", "https://gitlab.example.com"
```

The token is read from `GITLAB_TOKEN` when it is first needed; it wants the scopes
`read_api` and `read_repository`.
