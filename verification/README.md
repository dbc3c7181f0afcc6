# io_watch

Watches a directory of C++ sources and test cases. When a source is saved, it is compiled and run on
all its test cases; when a test case is saved, its source is run on that one.

A test case is a `.io` file. Its first line is a separator of any kind, then comes the input, and
behind the next line equal to the separator, if there is one, the expected output:

    ===
    Hello
    World
    ===
    HELLO WORLD

A test case belongs to the source whose name begins as its own name begins; the test cases of a
source are those whose names begin with the name of the source.

`src/` is a library that is verified with Verus: how test cases are read (`test_case`), which files
belong together (`kind`, `matching`, `directory`), what is done about a modified file (`session`) and
how often (`throttle`), how runs and compilations are judged (`output`, `verdict`, `compile`,
`runner`), and how all this is reported (`diff`, `style`, `log`). `paths`, `text` and `seqs` hold what
these share. Proof functions whose names begin with `law_` state what holds of the library as a whole.
What is believed of the standard library, of `similar` and of `crossterm` stands in the contracts of
the functions marked `external_body` and in the `assume_specification` items.

`app/` is the program around it: the file watcher, the processes and the terminal. `tests/` holds the
tests of the library.
