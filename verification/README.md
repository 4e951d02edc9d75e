# pyxirr

Financial functions (XIRR, XNPV, IRR, NPV, FV, PV, PMT and others) for Python
and C, with the calendar and bookkeeping logic verified in Verus.

- `src/`: the verified library: calendar dates, the twelve day count
  conventions and their names, dates from text, timestamps and day numbers,
  numpy-style shape broadcasting, payment checks (lengths, both directions of
  cash), sign changes of cash flows, and the codes of the C interface. Public
  proof functions (`law_*`) state the properties that hold across calls.
- `tests/`: tests of the library on concrete values.
- `app/`: the Python extension module `_pyxirr` (pyo3, numpy) and the C
  functions `xnpv` and `xirr`, with the floating-point computations (root
  finders, present and future values, rates).
