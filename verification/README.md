# minireq

MQTT request/response handling for devices.

A device owns the topic prefix `<device prefix>/command` and offers commands below it. On every
connection to its broker it subscribes to `<device prefix>/command/#`, advertises each of its
commands with a retained message on `<device prefix>/command/<command>`, and then serves requests.
A request names a response topic; the answer goes there, with the correlation data of the request
and a user property `code` that is `Ok` or `Error`.

## Layout

* `src/` is the verified library. It makes every decision and performs no I/O.
  * `minireq` - the request interface: `new`, `subscribe`, `poll`, `finish_poll`, `dispatch`,
    `handle_request`.
  * `model` - what the interface does, as a function of its state; the contracts of `minireq` are
    stated over it.
  * `machine` - the state machine of a connection.
  * `context` - the registered commands and the topics they live on.
  * `publication`, `request`, `poll`, `properties` - the messages that are exchanged.
  * `response`, `response_code`, `failure`, `error` - what requesters and callers are told.
  * `text` - strings of bounded capacity.
  * `laws` - what the library promises as a whole, proved over `model`.
* `tests/` runs the library.
* `app/` puts it on top of the MQTT client `minimq`.

## Polling

`Minireq::poll` is a conversation. The caller reports an event and performs the action that comes
back, until that action is to receive messages. How receiving went is reported to
`Minireq::finish_poll`.
