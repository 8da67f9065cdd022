# mini_docker

Pulls a container image from Docker Hub and unpacks its layers.

- `src/` is the verified library (Verus): image references (`reference`),
  registry addresses (`endpoint`), header values (`header`), manifests and the
  choice of the manifest for a platform (`manifest`, `lookup`), layer file
  names and short digests (`layer`), the command-line values (`cli`) and the
  character helpers they share (`text`).
- `app/` is the program: HTTP requests with `reqwest`, JSON with `serde`,
  progress bars, and unpacking with `flate2` and `tar`.
- `tests/` runs the library on concrete values.
