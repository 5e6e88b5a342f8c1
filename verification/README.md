# mcp_tandoor

A Model Context Protocol server for Tandoor Recipes, with its rules verified
in Verus.

- `src/` is the verified library:
  - `client`: the API client's state, the address and method of every request, and the wording of every failure.
  - `client/types`: the data exchanged with the API.
  - `server`: the tools' rules. These cover authentication order, request bodies, grouping of the shopping list by store section and checked state, pantry-based scoring and ranking of recipes, and the per-item decisions of the shopping-list and pantry tools.
  - `text` and `dates`: the string and calendar helpers. The outside calls they rest on (`urlencoding`, `chrono`, std lower-casing) go through small trusted wrappers whose contracts are stated beside them.
- `app/` is the executable. It holds the HTTP transport (reqwest), the MCP server (rmcp over streamable HTTP), JSON rendering, and the floating-point quantities (ingredient amounts, scaling, percentages). The remaining decisions come from the library: request addresses, which items are sent or suggested, and what each failure reads.
- `tests/` runs the library on concrete values.
