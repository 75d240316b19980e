# wts

`wts` creates (and removes) jj workspaces or git worktrees in a sibling
`<repo>-wts/` folder and hands the new directory to the shell.

The decisions live in the verified library under `src/`:

- `naming`: workspace names (`sanitize`, `name_from`), with the laws that a
  sanitized name is clean and that sanitizing is idempotent.
- `paths`, `text`, `order`: a model of Unix path components, trimming and
  line splitting, and a sorted, duplicate-free list of strings.
- `backend`, `action`, `layout`, `workspaces`, `copy`: reading command
  output and config, resolving actions, the `<repo><suffix>` layout, the
  known workspaces, `rm` arguments, and the `wts.copy` patterns.
- `steps`, `create`, `remove`: the create and remove runs as state machines.
  Each step names one thing to do outside (run a command, probe or change the
  filesystem, print, cd); the driver reports back how it went. The laws
  `lemma_create_step` and `lemma_rm_step` state what every step keeps: nothing
  is created before the action and a clean name are settled and the
  destination is found empty, and `rm` never forgets or deletes jj's
  `default` workspace. `lemma_create_run` and `lemma_rm_run` carry these over
  whole runs, whatever the outside answers. `lemma_jj_removal`,
  `lemma_git_removal` and `lemma_copy_matches` state what removing one
  target and copying one pattern's matches come to, and
  `lemma_layout_main_any_parent` / `lemma_layout_workspace_any_parent` show
  that the main repo and its workspaces agree on the layout, component by
  component.

`app/` is the command-line program: argument parsing, running the processes,
the filesystem work and the shell integration, driving the two machines.
