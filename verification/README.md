# match_lighthouse

A lighthouse is a peer of one Match workspace that is always there. It stores the
workspace's signed state, merges what other peers bring, takes in the messages that
visitors leave, and files them as leads on the workspace's job-search board.

## Layout

- `src/` is the library: what the lighthouse decides and computes, with contracts that Verus
  proves.
- `tests/` runs it on concrete values, with the outside crates linked.
- `app/` is the program around it: the mesh node, the HTTP intake and the files.

| Module | What it decides |
| --- | --- |
| `text`, `json`, `clock`, `codec` | text, JSON values, moments, base64 and digests |
| `records`, `chat` | which records and chat messages are kept when batches are merged |
| `document`, `lead` | the Automerge document, and the leads written into it |
| `state`, `store`, `host` | what is stored, and how it follows from the authority's verdicts |
| `authoring` | the leads and chat messages that the lighthouse writes itself |
| `history` | what a store stands at, call by call, and after a restart |
| `captcha`, `intake` | the human check, and a message's way from the form to the board |
| `assessment`, `questions` | what a model is asked of a message, and what its answers come to |
| `join`, `node` | joining a workspace, and the routes of the running node |

## How the library meets the outside

Calls that only compute, into Automerge, serde_json, base64, HMAC, SHA-256, `time`,
`rand` and iroh's endpoint ids, stand in `src/` behind small trusted functions, each
with a doc comment that says what is claimed of the outside function.

What needs the network, the disk, or the workspace's authority is asked for by value:
the library hands out a query, such as `AuthorityQuery` or `AdmissionQuery`, and takes
the outcome back as a `Result`. A store goes on to a new state in two steps. An operation
gives a `PendingState`; `MatchScopeStore::save` takes it once it was written.

Automerge reads what it wrote, and may panic on changes that were put together in another
way. So the library reads a `Document`, never loose bytes. One is made where the authority
over it was prepared, which has read it, or of what the library has written itself.

Probabilities are held by the bits of their doubles; percentages are formatted in `app/`.
