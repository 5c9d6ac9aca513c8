# pkm

`pkm` manages a certificate authority whose keys live on a YubiHSM2: it
creates HSM keys, issues a self-signed root CA and subordinate CAs, issues
TLS leaf certificates whose private keys are stored wrapped by an HSM wrap
key, and lists and exports what it issued.

## Layout

- `src/` is the library, verified with Verus. Each of its functions has a
  contract:
  - `cli`, `command`: the command tree, the task each command line asks
    for, the choice of the CA a command works on, prompt answers.
  - `config`: the tool's and each CA's configuration as plain data.
  - `hsm`: algorithms, object types, capability flags, and how keys are
    listed, ordered and chosen.
  - `pki`: certificate profiles (names, validity, serials, signature
    algorithms, extensions) for root CAs, subordinate CAs and TLS leaves,
    the acceptance of certificate signing requests, new P-256 leaf keys
    and the encodings of leaf and HSM keys (subject public key info,
    PKCS#8 PEM).
  - `x509`: the DER of the to-be-signed certificate for a profile, the
    signed certificate and its PEM text, and the reading of certificates
    and certificate signing requests (PEM or DER) into plain data.
  - `signing`: digests for HSM signing and the DER form of ECDSA signatures.
  - `store`, `tls`: the on-disk layout, the CA and TLS listings.
  - `wrapped`: the ASCII armour of HSM-wrapped private keys.
  - `workflow`: the search for the TLS wrap key and the checks between
    the steps of the commands.
  - `sort`, `table`, `text`: stable ordering, aligned tables, text helpers.
- `tests/` runs the library on concrete values.
- `app/` is the `pkm` program: argument parsing (including the flags of
  `pkm ca <name> tls add|export`), files and temporary files, the keyring,
  the USB connection to the HSM and its signing requests, parsing host
  IP addresses, and `openssl`.

Calls into `sha1`, `sha2`, `base64`, `time`, `der`, `spki`, `x509-cert`, `p256`,
`rand_core` and `yubihsm` that the library makes go through small trusted
wrappers whose contracts state what those crates document.

`rusb` is a dependency only so that `yubihsm`'s USB connector is built
against a bundled libusb (its `vendored` feature); nothing calls it
directly.
