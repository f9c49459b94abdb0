# luban_gen

Generates Luban XML schema files (beans, enums, tables) and TypeScript table
definitions from TypeScript classes, interfaces and enums.

- `src/` is the verified library. Every step of a run that decides or computes
  something is here with a contract: type conversion and JSDoc reading
  (`parser`), XML writing (`generator`, `validator`, `xml_types`), tables and
  `@Ref` resolution (`table_registry`, `table_mapping`, `base_class`), the
  TypeScript output (`ts_generator`), the configuration model (`config`,
  `tsconfig`), the cache, and the decisions of a run and of watch mode
  (`pipeline`, `scanner`).
- `app/` is the command-line program: it reads files, parses TypeScript with
  swc into the plain syntax model of `parser::ast`, calls the library, writes
  the results and runs the watch loop.
- `tests/` holds the tests of the library.
