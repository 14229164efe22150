# notification_template

Immutable, versioned notification templates with deterministic and safe rendering, verified with
Verus, for a Lenso plugin that keeps its catalog in PostgreSQL.

A template has three sources: a subject, a plain text and an HTML text. `{{name}}` stands for a
value, `{{#name}}...{{/name}}` for a section that is kept when the value is not blank, and
`{{^name}}...{{/name}}` for one that is kept when it is. Values are escaped in HTML, names and values
are bounded, and the variables of a message have to be exactly those that its template uses.

## The library

| Module | What is in it |
| --- | --- |
| `text`, `number`, `names` | characters, strings, integers, sets of names, bindings |
| `identifier`, `locale` | well-formed names and references; locale tags and fallback order |
| `grammar`, `syntax`, `spelling` | which trees a source denotes; the parser; how a tree is written |
| `html`, `render`, `safety` | where attributes stand in HTML; rendering a definition; what holds of every message |
| `config`, `auth`, `access` | the configuration; who is an administrator; who reaches the storage |
| `records`, `failure` | requests, answers and stored records; refusals and faults |
| `store`, `plugin` | statements and the storage's answers; what operations have in common |
| `create`, `activate` | the commands, one transaction each |
| `query`, `delivery` | looking at stored versions; rendering and previewing them |
| `catalog`, `lookup` | what commands and queries come to on the catalog that the storage keeps |
| `outside` | calls into other crates, with what is claimed of each |

The library does no input or output. An operation begins with a call such as
`NotificationTemplatePlugin::create_version` and is then either over or waits for the storage. It
says what it asks (`statement`, `query`), and goes on when it is told the answer (`answered`).

Each function states in its contract what it returns. Functions whose names begin with `law_` state
what holds of several of them together: that stored versions never change, that heads move by one
revision at a time and only from the expected one, that a command that comes again is answered as
before, that values add no markup to HTML, and so on.

## Around it

`app/` runs the operations on PostgreSQL with `sqlx`, resolves the database secret, and gives the
values that cross the plugin's boundary their serialised form. `tests/` runs the library, the
operations on a storage in memory.
