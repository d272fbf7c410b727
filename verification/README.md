# devcontainer-mcp core

An MCP server that manages dev containers through DevPod, the
`devcontainer` CLI, Docker and GitHub Codespaces, and the auth providers
(GitHub, AWS, Azure, Google Cloud, Kubernetes) those backends need.

- `src/` is the verified library (Verus): command lines for every CLI, the
  exec shim and its process-group announcement, the stream reader that
  scrubs that announcement, cancellation order, devcontainer.json
  summaries and resolution, container lookup plans and their outcomes,
  provider account parsing and login outcomes, process-tree discovery,
  shell quoting, the in-container file commands, the one-occurrence edit
  and line-numbered file views.
- `app/` is the server around it: the MCP tools, process spawning and
  streaming, Docker calls, file reads, `/proc` reads and signals.
- `tests/` exercises the library on concrete values.
