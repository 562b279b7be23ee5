# pdb

Reading and checking the DBI stream and the Public Symbol Index of a Program Database (PDB), and
the state of an interactive PDB browser, with contracts proved by Verus.

* `src/` is the library. `dbi` decodes the DBI stream header, computes the ranges of the
  substreams and parses the Modules, Sources, Section Contributions, Section Map and Optional
  Debug Header substreams, and writes the header, the fixed part of a module record and the
  Optional Debug Header entries back into the stream's bytes; `pdb` holds an opened DBI
  stream and caches its substreams;
  `globals` reads `S_PUB32` records and builds, parses and checks the Public Symbol Index;
  `dump` holds the options of the `dump` command, parses its numbers, chooses the bytes that
  `dump hex` shows and filters modules by a regular expression on their object files; `tui` holds
  the tree navigation, the key handling and the text of the details panel of the browser.
* `app/` is the `pdbtool` program around it: the command line, file reading, printing and the
  terminal user interface. It works on a DBI stream saved to a file of its own.
* `tests/` runs the library on concrete inputs.
