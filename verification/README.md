# weaver_editor

The core of the weaver markdown editor, verified with Verus.

- `src/` is the library. Every function in it carries a contract that Verus
  proves: text buffers (`text`, `undo`), editor documents and the execution
  of editor actions (`document`, `execute`, `actions`, `text_helpers`),
  rendering state and incremental-render decisions (`render_cache`,
  `paragraph`, `syntax`), the HTML writer's state and its handling of text,
  inline code, raw HTML, soft and hard breaks, rules, footnote references
  and definitions, embeds, paragraphs (with a text direction the caller
  finds), HTML blocks, emphasis, strong and struck-through text with their
  opening markers, tables, lists and their items, definition lists, sub- and
  superscript, front matter, and the trailing text and paragraph of a
  document (`writer`), the assembly of a render on the fast path and on the
  slow path from reused paragraphs and what the writer rendered
  (`render_cache`), the publishing and permission decisions of the notebook
  agent (`agent`), browser input, cursor and DOM-update
  decisions (`browser`), wikilink and embed resolution (`resolve`),
  collaborators, presence and topics (`collab`, `transport`), and the
  notebook utilities (`util`, `filestore`, `telemetry`).
  Calls into `ropey`, `blake3`, `web-time` and a few `std` functions go
  through small trusted wrappers whose contracts are stated beside them.
  Laws that relate several operations are public proof functions named
  `law_*`.
  The markdown parser, the writer's other tags and events (headings, block
  quotes, code blocks, links, images, weaver block attributes, math,
  task-list markers), the markdown syntax between events (closing markers
  among it), the network calls of the agent, and the whole-document render
  entry points are not part of the library.
- `tests/` exercises the library on concrete values.
- `app/` holds what the library leaves to a program: serde and postcard
  forms of its data, error types with `Display`, file and environment
  access, and CSS colour strings.
