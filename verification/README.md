# ipchat

A local-network chat: nodes find each other by UDP broadcast, serve a web
client over HTTP, and relay chat rooms over WebSockets; browsers can also
exchange messages and files directly over WebRTC.

- `src/` is the library, verified with Verus: the chat protocol and a
  node's request handling (`proto`, `node`), discovery decisions
  (`discovery`), the browser client's connection and chat state
  (`chat_client`, `ui`, `views`), the HTTP API client (`client`, `api`),
  the WebRTC device manager (`device`) and chunked file transfer
  (`file_transfer`). Laws about them are public proof functions.
- `app/` is the program around it: command line, sockets, HTTP and
  WebSocket servers, JSON encoding, and the browser runtime.
- `tests/` exercises the library on concrete values.
