# genestore

Numpy arrays, pyarrow tables, sparse matrices and graphs in a Lance or Zarr
store, for Python. The storage itself is the work of `genegraph-storage`; this
project is the front end, and what the front end decides is verified with
Verus.

- `src/` is the verified library. It checks arguments, names datasets, builds
  matrices and edge lists, and says step by step what is to be done on a store.
- `app/` is the Python module: it reads Python values, performs those steps, and
  turns outcomes into Python values.
- `tests/` runs the library on concrete values.

## What is verified

| Module | What it states |
| --- | --- |
| `dense` | which arrays may be stored, with exact counts and messages; arrays and matrices hold the same cells in the same order |
| `sparse` | which compressed row arrays describe a matrix, and what the others are refused with; the arrays, or the same entries in canonical form, come back from a matrix that holds what was collected |
| `integers`, `graph` | node ids, indices, edge lists and their refusals; the arrays of a graph come back from its edges |
| `datasets` | identifiers and keys under a Zarr root; a name and its identifier lead to the same dataset |
| `run` | the order of the steps on a store: an existing store is never seeded anew, reading creates nothing, every run ends, failures carry the kernel's message, and a run depends on nothing but what it is told |
| `storage` | what each operation starts or refuses on each backend; what is stored is what is loaded if the kernel brings back what was saved, also through another storage of the same directory; a store asks for one save, and reports it if the kernel refuses; awaiting and the reserved settings change nothing |
| `builder` | defaults, settings and failures of building, all of them storage errors; each directory is a storage of its own |

Doubles are carried through the library as bit patterns, so that nothing about
them is lost or rounded.

What the library takes on trust from `genegraph-storage`, `smartcore`, `sprs` and
the paths of the standard library is stated where it is declared: in `kernel`,
`datasets`, `dense` and `sparse`.
