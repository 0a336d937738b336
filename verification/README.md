# zed_core

The decisions of a code editor, as a verified library. What the editor does with files, git,
windows, language servers and the network stands around it; what it decides stands here, with
contracts that Verus proves.

| Module | What it decides |
| --- | --- |
| `undo` | what undo and redo in the project panel take back and do again |
| `message_queue` | when a queued message is sent to an agent |
| `worktree_archive`, `worktree_persist`, `worktree_restore`, `worktree_removal` | how a git worktree is archived, brought back and removed |
| `cleanup_plan`, `cleanup_run` | what an archived thread leaves behind, and how it is removed |
| `document_links`, `lsp_store` | which links of a document are known, asked for and looked up |
| `responses` | requests to Copilot and the events of their responses |
| `oauth`, `percent`, `form`, `jwt` | signing in to a ChatGPT subscription with a browser |
| `subscription`, `completion`, `chatgpt_model` | its credentials, requests and models |
| `data_table`, `table_render`, `table_preview` | how a table is laid out |
| `staged_diff`, `search_panel`, `terminal_agent` | views of the editor |
| `workflows` | the nightly release and the deployment of the documentation |
| `text`, `lists` | what the others share |

Work that alternates between decisions and the outside world is a state machine: a state says what
has to be done next, and takes in what came of it. Laws that hold across several functions are
public proof functions beside them, such as `restore_gives_back_what_was_archived`.

`app/` carries out what the library decides, over traits that the editor implements. `tests/` runs
the library on concrete values.
