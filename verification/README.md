# tls_scanner

Finds out which TLS protocol versions and cipher suites a server accepts, and shows its
certificate.

- `src/` is the library. Its functions are specified and proved with Verus.
  - `tls/` has the protocol versions, the cipher suites and their catalog, the ClientHello messages
    and the reading of the server's answer.
  - `probe` finds the suites that a server takes under one version.
  - `retry` decides when an attempt is repeated.
  - `cert/` fetches, reads and shows the certificate.
  - `scan` puts a scan together and shows its outcome.
  - `text` and `wire` build texts and byte strings.
- `app/` is the program: sockets, name lookup, the certificate handshake and the downloads.
- `tests/` are the library's tests.

The program takes a host as its argument, or hosts on standard input, one per line. A host may
have a port behind a colon; without one, port 443 is asked.

It downloads the list of cipher suites from ciphersuite.info and Mozilla's root certificates from
curl.se. The variables `CIPHERSUITE_API_URL` and `CACERT_URL` name other places.
