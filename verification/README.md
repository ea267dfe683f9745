# numax_control

The control and management API of a Numax node, verified with Verus.

The library in `src/` decides; it makes no I/O. What calls the node's datastore, executor and
connections, and what speaks HTTP, is in `app/`.

| module | what it holds |
| --- | --- |
| `control` | modules, peers, pages and errors, and the control interface of a node |
| `request` | what a request asks for, and which requests are malformed |
| `reply` | the reply to each outcome, with its status, headers and body |
| `routes` | each route of the API: what the node is asked, and what is replied |
| `node` | what a node's control handle hands to its services and makes of their answers |
| `registry` | the content-addressed module registry, as stages between datastore calls |
| `json`, `base64url`, `text`, `bytes`, `views` | documents, texts and byte strings |
| `store`, `listing`, `paging` | what holds of registrations, deletions and listings over time |
| `answers` | what a client is answered over time |
| `limits`, `passing_back` | how long replies are, and that what they show can be passed back |

A contract speaks of views: a `Seq` of bytes or characters for a byte string or a text, and a view
type for each struct. Proof functions named `law_…` state what holds across several calls.

The trusted functions wrap `base64`, `blake3`, `serde_json` and `core::str::from_utf8`; each says
in its doc comment what it takes from the function that it calls.
