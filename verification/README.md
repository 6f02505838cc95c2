# commit

A tool that writes, checks and makes Git commits from the staged diff, with its
decisions proved in Verus.

- `src/` is the verified library: the Conventional Commits parser and lint policy,
  the configuration, the reading of git's output, the file groups and confidence
  score, the prompts and the checked generation steps, the symbol-level analysis of
  Rust sources (tree-sitter trees read into plain values), the terminal flow's
  decisions and the MCP server's decisions over plain JSON values.
- `app/` runs the program: the command line, the terminal, the `llm` command, git,
  the files under the commit home, and JSON text on standard input and output.
- `tests/` exercises the library on concrete values.
