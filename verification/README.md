# Orphanode

Accuracy-first reachability analysis for JavaScript and TypeScript projects: unreachable files,
unused exports, declarations and class members, unused, unlisted and misplaced dependencies, and
unused workspaces. Incomplete analysis never becomes cleanup advice.

- `src/` is the analysis itself, as a library proved with Verus. Every data type has a model
  (`DeepView`), and each function states its result over the models.
- `tests/` runs the library on concrete values.
- `app/` is the command line around it: arguments, files, processes, and JSON.

## The library

| module | what it decides |
| --- | --- |
| `discovery` | package scripts, workspaces, packages |
| `domain` | identities, evidence, file graphs, target profiles, reports |
| `analysis` | dependencies and class members |
| `application` | scans of files, scans of projects, policy, merging of target profiles |
| `plugins` | what plugins may contribute, and the protocol of executable plugins |
| `cache` | keys, digests and generations of cached facts |
| `fixes` | plans, previews and the order in which fixes are applied |
| `cli` | options, the fix workflow, telemetry |
| `render` | reports for terminals |

The JavaScript parser, the module resolver and the readers of project configuration are a program
of their own, which `ORPHANODE_FRONTEND` names; the library takes what they found as values.
