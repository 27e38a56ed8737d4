# imlet

An implicit modelling toolkit: distance functions and operations combined in a model,
compiled into computation graphs and sampled into dense or sparse scalar fields, with the
geometry (boxes, triangles, meshes, octrees) the functions are built from.

The library under `src/` is written in Verus. Its contracts state, among other things:

- how a model's components and input lists change on each edit, that assigning an input
  never creates a dependency cycle, and when a model compiles into a graph (every
  component is computed after the components feeding it, the requested output last) or
  fails with the cycle, missing tag or missing input that stops it;
- the index arithmetic of grids (linear and three dimensional positions, cell corners,
  faces of the grid) and what smoothing, thresholding and padding do to field values;
- the structure of sparse fields: the root grid of internal nodes, which cells are active,
  what sampling makes of each cell, and the number of values the iterators give;
- the topology of meshes (faces at each vertex, unique edges, triangles of the faces)
  and the OBJ text format, read from bytes.

Floating point values are computed through small trusted wrappers around `num_traits`;
their results are not stated. Parallel loops use `rayon` through trusted wrappers whose
per-item work is a verified function.

`app/` holds what stays outside the verified library: file access, logging setup,
serialisation types, saving and loading models as json, text output of models and
fields, functions given as function pointers, and the mesh function that loads its mesh
from a file.
