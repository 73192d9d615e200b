# epicode_kb

The core of an enterprise knowledge base: memories with provenance, trust and
review status, spaces with role-based access, API keys and tokens, document
chunking (Markdown, text, PDF, DOCX), hybrid-search ranking rules, AI
proposals and their review, collaboration rooms and MCP request routing.

- `src/` is the library, written in Verus: every function carries a contract
  and is proved against it. Calls into outside crates (hashing, bcrypt, HMAC,
  UUIDs, the clock, Markdown events) go through small trusted wrappers whose
  doc comments say what is assumed of them.
- `tests/` runs the library on concrete values.
- `app/` is the HTTP/WebSocket/stdio server around the library: database and
  index access, JSON, token signing, and the floating-point scores.
