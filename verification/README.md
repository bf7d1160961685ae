# sapphillon

The verified core of the Sapphillon workflow orchestrator, written in Verus.

`src/` is the library, every function of it proved against its contract:

- `page_token`: offset pagination with base64 page tokens, and the laws that a
  token reads back as its offset, that the token is empty exactly on the last
  page, and that walking the pages token by token until the empty token visits
  every row once, in one call per started page (one call for an empty store).
- `timestamp`: UTC instants and protocol timestamps, with normalization of
  any nanoseconds value and round-trip laws.
- `entity`, `proto`: the stored rows and the protocol messages as plain values.
- `convert`: rows to messages and back, including the grouping of a workflow
  code's grants by function and the law that grants read back as written.
- `plugin_registry`: the startup registration of the builtin plugin catalog
  (merging declarations, planning inserts, refreshes and links) and the laws
  that registering twice changes nothing and that a registration brings stored
  rows up to date.
- `plugin_listing`, `workflow`, `ext_plugin`: assembling listings and workflows
  from loaded rows and planning the writes of a workflow synchronisation, with
  the laws that a listing is its page of packages converted and that
  synchronising the same workflow twice plans the same writes.
- `sync_rows`, `workflow_sync`: a model of the relation tables a workflow
  synchronisation rewrites, with the laws that afterwards each code revision
  holds exactly the links, grants and results of the message, other revisions
  keep theirs, and a second identical synchronisation changes nothing.
- `permission_check`, `plugins`: the builtin plugins' catalog entries and the
  two sides of each permission check.
- `schema`: the tables, their columns and their cascading foreign keys, with
  the laws that every foreign key resolves and that dropping the schema drops
  each table once.

`app/` holds what cannot be verified: the SeaORM entities and queries that run
the library's plans against a database, and the plugins' operating-system work.
`tests/` exercises the library on concrete values.
