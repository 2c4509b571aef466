# vibes

Verified core of three small tools: **nimbus**, a cloud-architecture diagram
service (catalogs, validation, translation between cloud providers, Terraform
and Docker Compose export, grid layout, and the checks and merges around
model-generated diagrams); a **container dashboard** (statistics readings,
history windows, formatting and selection); and a **weather** lookup.

- `src/` is the library, written in Verus. Every public function states what
  it returns in its `ensures`; the `law_*` proof functions state properties
  that span several calls (what an edit undoes, what translation keeps, how
  the layout orders edges, what the history window keeps).
- `tests/` runs the library on concrete values.
- `app/` is the program around it: the HTTP server and its PostgreSQL
  repository, the model client, the terminal dashboard over the Docker
  daemon, and the weather and hello commands. It converts between the
  library's types and JSON, and does the floating-point arithmetic of the
  canvas and the charts.
