# Column mapping lab

A lab for column mapping in Delta tables. It makes three tables, fills them with generated events, and
validates how they look on disk and what queries find in them:

- `regular_events`: a table without column mapping, with Hive-style partition directories;
- `column_mapping_events`: a table with column mapping by name from its first commit;
- `evolved_column_mapping_events`: a table that is made without column mapping, gets it later, and is
  then extended by new columns.

## Layout

- `src/` is a library that is verified with Verus. It works on plain values: the columns of the tables,
  the names and contents of log files, the commit that switches column mapping on, the events from CSV,
  and the steps of the validation with what has to hold after each.
- `app/` is the program: it runs the generator, makes and fills the tables with delta-rs, and observes
  what the validation asks for.
- `tests/` runs the library.

Paths are those of a system that parts them by slashes.

## Commands

- `generate` writes the CSV files;
- `setup` writes the CSV files and makes all tables anew;
- `read` reads and validates the tables;
- `run`, or no command, does both.
