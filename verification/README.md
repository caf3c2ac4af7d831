# comsys

A competition system for judged sports: competitions are declared with
queues of nominations and teams, staff accounts are made for judges and
arbitors, and during the competition an event queue carries votes, verdicts
and queue updates between the screens of the staff.

`src/` is the library, verified with Verus:

- `proto`, `scheme`, `tokens`, `errors`: the messages, judging schemes,
  permissions and error codes.
- `comp_model`, `comp_state`, `marks`, `comp_laws`: the state of a running
  competition (votes, verdicts, next actions, fines, results) and the laws it
  keeps.
- `message_pool`, `pool_laws`, `delivery`, `runtime`, `runtime_laws`,
  `access`: the event queue of each competition, how a sent message is handed
  to the subscribers, who may push which message, and what a pushed message
  does.
- `event_context`, `views`, `screens`, `message_text`, `forms`,
  `user_context`, `requests`: what the client keeps of the event queue and
  shows on its screens, and what its forms make of their fields (dates
  included).
- `auth`, `claims`, `staff`: passwords, tokens and staff accounts.
- `table`, `csv_table`, `file_reader`, `sheet` (xlsx files read from their
  bytes), `participants`,
  `nominations`, `parse`, `text`: reading tables and sheets of participants
  and nominations.
- `external`: the calls into outside crates, with the contracts the library
  assumes of them.

`app/` is a small command line program around the library: reading files,
JSON web tokens, and a tokio service that delivers the event queue to
subscribers.
