# RookDB

The logic of an SQL shell over the RookDB storage engine, verified with Verus.

A statement goes through three steps. The shell collects input until a terminator completes a
statement. The statement is parsed. The library then plans it: from the catalog, and from what is
on disk, it works out the effects that carry the statement out, or the error that answers it. The
effects are values (print this line, write these rows, change the catalog in this way), so that a
plan can be stated, proved and tested without a disk.

## Layout

- `src/`: the library.
  - `text`, `directory`, `errors`: texts, maps by name, errors.
  - `statements`, `lines`, `vetting`, `shell`: from input to statements, and to the parser.
  - `ast`, `references`, `render`, `logical`: queries, the tables they depend on, and their text.
  - `datatype`, `row`, `catalog`: types and values, stored rows, the catalog and its edits.
  - `effects`, `files`: what a plan is made of.
  - `create`, `constraints`, `alter`, `tables`, `copy`, `indexes`: the plans of DDL statements.
  - `dml`: the plans of `INSERT`, `UPDATE` and `DELETE`.
  - `session`, `handlers`: what a session does with a statement.
  - `logline`: how the engine's log records are shown.
  - `bench`: the rows, arguments and reports of the stress benchmark.
- `app/`: the program. It reads input, calls the parser and the engine, and carries effects out.
- `tests/`: tests on concrete values, with the engine and the parser linked in.

## What is proved

Every function states what it returns or plans, for every input that its `requires` admits; most
have none. Functions named `law_..` state
what holds between them: statements are the same whether input comes in one piece or line by line,
a dropped column undoes an added one, a table that views or keys refer to is dropped only with
`CASCADE`, a view never hides a table, and more.

What the engine and the parser compute is not proved. Each call to them stands in a small function
whose comment says what is taken from it.
