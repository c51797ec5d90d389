# imap-client

An IMAP client library whose decisions are verified with Verus.

`src/` holds the verified library:

- `capability`, `client`: the capabilities a server announced and what the
  client does with them (which commands it may use, which fallbacks it takes),
  and the IDLE timeout;
- `fetch`, `sort`, `listing`: what FETCH asks for, what a fetched message
  tells the client, splitting ids into FETCH-sized groups, regrouping by UID,
  and sorting messages on the client when the server lacks SORT;
- `stream`: the decisions between the steps of driving a protocol state over a
  byte stream;
- `resolver`, `tasks`, `idle`, `append`, `literal`: waiting for a task's
  output, the LOGIN and ENABLE tasks, IDLE, appending with or without UIDPLUS,
  and the literal a message is appended as.

`app/` holds the I/O around it: stream drivers (blocking, smol, tokio), TLS
and STARTTLS connection set-up, IDLE over a real connection, and conversions
from and to the `imap-next` types.
