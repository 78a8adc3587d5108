# bumahhfiles

A temporary file host. The verified library (`src/`) holds the logic:

- `utils`: the character classes, `clean_filename`, random names, storage
  names, delete keys computed with the magic key, and the links and plain-text listing handed back to clients;
- `state`: the store of entries keyed by the hash of their name, with the
  byte count it keeps, and the laws that relate its operations;
- `routes`: the upload protocol as a state machine (`UploadSession`),
  content negotiation, and the serve and delete decisions;
- `clock`: time points as the system clock gives them;
- `gc`: expiry of stored files;
- `error`: the error type and its messages;
- `text`, `template`: string helpers and page data.

`app/` is the HTTP server around it (axum, tokio, askama): it reads the
environment, the disk and the requests, computes retention times (floating
point), and carries out what the library decides.
