# operator

Decision logic of an operator that runs a Trustee attestation service in a confidential cluster,
written in Rust and verified with Verus.

The operator follows which boot images are approved. From the PCR values recorded of those images
it makes the reference values of the attestation service. It also sets up the objects that the
service runs from: config maps, secrets, a service and a deployment.

## Layout

- `src/` is the verified library.
  - `reference_values`: approved images, their names, the store of PCR values and the jobs that
    compute them
  - `trustee`: reference values as they follow from the store
  - `compute_pcrs`: merging freshly computed reference values into stored ones
  - `kbs`: secrets and objects of the key broker service
  - `patch`, `controller`, `mock_client`, `error`: patches, reconciliation, mocked replies, errors
  - `kube_objects`, `crds`, `rv_store`, `reference_value`: the data
  - `ordered`, `text`: maps and sets in the order of their keys, and text helpers
  - `outside`: all that is believed of code outside the library
- `tests/` runs the library.
- `app/` talks to the cluster and to registries. Its program computes PCR values and merges them
  into a config map. It needs the crates `compute_pcrs_lib` and `clevis_pin_trustee_lib`.
