# oncall-ai

An on-call agent. Grafana and PagerDuty deliver alerts by webhook; alerts are folded into
incidents; a language model triages the alert that opened an incident, and another one looks for
the cause in a repository.

## Layout

- `src/` is the library: every rule of the agent, written in Verus and proved against its contracts.
- `app/` is the program around it: sockets, queues, timers, files, the clients of the model
  providers, and the reading of configuration and payloads into the library's types.
- `tests/` runs the library on concrete values, with the outside crates linked.

## The library

| Module | What it decides |
| --- | --- |
| `alert`, `grafana`, `pagerduty` | what a delivery says, as alerts in one common form |
| `webhook` | how a delivery is answered, and which alerts are queued |
| `incident` | which incident an alert belongs to, when incidents open and close |
| `triage` | what the model is asked about an alert, what its answer counts for, when to retry |
| `investigation` | what the model is asked about an incident, which files it may read, what is recorded, which evidence holds |
| `model` | which providers there are, what settings they need, what is built at startup |
| `config` | what a merged configuration must fulfil |
| `retry`, `time`, `text`, `text_map`, `json`, `url` | what the others rest on |

The contracts are stated over sequences, sets and maps. Facts that hold across functions are public
proof functions whose names begin with `law_`; those on incidents are in `incident::laws`.

What the library takes from `chrono`, `http`, `serde_json`, `uuid` and the standard library without
proof stands in functions marked `external_body`. Above each stands which outside function it calls
and what is claimed of it.

## Concurrency

The workers are step functions: from their state and one event to the next state and an action.
`app/` waits for events, performs the actions, and hands the outcome back.
