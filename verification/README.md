# digidoc

A library for BDOC / ASiC-E digital signature containers (DigiDoc), verified with Verus.

- **Containers**: the entries of the archive, the manifest, reading and validating what an archive
  holds.
- **XAdES signatures**: basic signatures, signatures with a timestamp, and long-term signatures with
  an OCSP response.
- **XML signatures**: checking references and signature values, and enveloping signatures.
- **Keys**: RSA, P-256 and secp256k1.

## Layout

- `src/` is the library. It does no input or output.
  - `digidoc/`: `builder` writes containers, `reader` validates them, `records` says what their XML
    documents hold, `prefixes` makes the documents ready for reading.
  - `xmldsig/`: `xades` and `envelope` build signatures, `verify` checks them, `xml` writes XML,
    `document` and `keys` hold what is asked of other crates.
  - `pki/`: DER, timestamp requests and tokens, OCSP requests and responses.
  - `certificate`, `crypto`, `time`, `text`, `error`.
- `app/` reads and writes files, talks to servers, and turns XML into records.
- `tests/` runs the library with the crates it calls.

Every function states what it returns. What other crates compute (parsing and canonical XML,
certificates, digests, signatures) stands behind small functions whose contracts are believed; each
says which function it calls and what it claims of it.
