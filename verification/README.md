# beelay

A bridge between an HTTP interface and Zigbee switches on an MQTT network. It is meant to run
beside `zigbee2mqtt`, so that the switches can be controlled without exposing the MQTT network.

The library under `src/` holds everything that the bridge decides and computes, with contracts that
Verus proves. What it calls outside itself is believed, not proved: `serde_json` (`from_str`,
`to_string`, `Map::get`), `form_urlencoded::parse`, `IndexMap::get`, tokio's `mpsc::channel` and
`Sender::max_capacity`, and of the standard library `str::from_utf8`, `str::to_lowercase` and
`String::push`. Their contracts stand beside the calls. The program under `app/` does the talking: it waits for requests, commands and
messages, hands them to the library, and carries out what the library decides.

## API

```
$ curl --request POST "pi.local:9999/api/switch/Living%20Room%20Lights/?state=on"
{"status":"success"}

$ curl --request GET "pi.local:9999/api/switch/Living%20Room%20Lights"
{"status":"success","state":"on"}

$ curl --request GET "pi.local:9999/api/?switch=Not%20a%20real%20device"
{"error_msg":"Unknown switch name.","status":"error"}
```

A request for an unknown switch by its path is answered with the message `Unknown switch name: ` and
the name. A state that the network has not confirmed yet comes with `"transitioning":"true"`. A `delay`
parameter, in seconds, puts off setting a switch. `GET /api/switches` lists the switches. A page
with buttons for all switches is at `/client`.

## Modules

| Module         | What it holds                                                             |
|----------------|---------------------------------------------------------------------------|
| `text`         | splitting, joining, replacing, letter case, decimal numbers               |
| `json`         | reading a report, writing lists and tables of strings                     |
| `common`       | switch states and their names, message links                              |
| `beelay_core`  | commands, cache files, and what the core does about a command             |
| `mqtt_client`  | topics, reports, the client of the network and its simulation             |
| `response`     | answers to HTTP requests                                                  |
| `api`          | what an API request asks for, and its answer                              |
| `pretty_names` | the names under which switches are shown                                  |
| `frontend`     | the pages of the browser client                                           |
| `service`      | taking requests apart and routing them                                    |
| `config`       | laying one configuration over another                                     |
| `launch`       | how the program starts, logs and ends                                     |
| `assets`       | the texts that the bridge ships with                                      |
| `laws`         | what the parts promise together                                           |
