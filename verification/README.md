# zotero_mcp

A Model Context Protocol server for a Zotero library, with its logic
verified by Verus.

- `src/` is the verified library: the records of a library and their JSON
  form, identifier parsing (DOIs, arXiv ids), the file-naming template
  language, search conditions and tag clauses, the reports every tool
  prints, the edits it prepares (tags, collections, merges, attachments),
  the arXiv Atom and CrossRef metadata mappings, and the decisions of the
  Web API and WebDAV clients (addresses, paging, retries, upload metadata).
  `src/laws.rs` states properties that relate several operations.
- `app/` is the program around it: reading the environment, HTTP requests,
  the clock, JSON (de)serialization of the library's types, and the MCP
  server that dispatches the tools.
- `tests/` runs the library on concrete inputs.
