# fastxlsxio

A fast XLSX writer for Python, built on `rust_xlsxwriter`, whose core is
verified with Verus.

- `src/` is the verified library: how Python values become cells, column
  type hints and format caches, cell addresses, and the workbook and
  worksheet operations. Its contracts speak of a model of each worksheet
  (`xlsx::SheetV`): the cells written, the column and row formats, the
  merged cells and, in constant-memory mode, the row the sheet is at.
- `app/` is the Python extension (pyo3): it reads Python objects into the
  library's plain values, writes float cells, and saves files.
- `tests/` runs the library on concrete values.
