# Prismoire

The decisions of a federated forum server, verified with Verus.

Instances of the forum exchange signed objects: trust edges, posts, moves of
users from one instance to another, claims about users and threads, and
reports. What an instance does with each of them, what it sends and to whom,
how it keeps others within their budgets, and what its own users may do, is
decided by the functions of this crate. Each states what it returns as a
contract over mathematical values, and Verus proves that the code keeps it.

## Layout

- `src/` is the verified library.
  - `federation/` holds what concerns other instances: the handshake
    (`peering`, `handshake`), pushes and their state machines (`push`, `moves`,
    `user_status`, `thread_status`, `reports`, `latest_wins`), remote users and
    their homes (`remote_users`), sending (`outbound_queue`, `transport`,
    `routing`, `bloom`), former homes (`prior_home`, `prior_home_client`,
    `prior_home_recovery`), registration with a key that a user brings
    (`registration`), budgets (`window` and the limiters built on it) and the
    routes (`router`).
  - `invites`, `posts`, `instance_config`, `metrics`, `middleware/`,
    `app_routes` and `startup` hold what concerns the site itself.
  - `cbor`, `crypto`, `base64_text`, `timestamp`, `ids`, `web_url`, `random`
    and `clock` stand around outside crates and the system: their wrappers say
    what is believed of the outside functions.
- `tests/` runs the library with the outside crates linked.
- `app/` is the server around the library: the database, HTTP, the clock of the
  process and everything asynchronous. It reads facts, hands them to the
  library and carries out what the library decides.

## Reading a contract

A function that reads the clock or draws random bytes comes in two forms. The
plain one makes the call and states what holds whatever came back; the one
whose name ends in `_at` takes the value as an argument and states its result
exactly. Decisions over stored rows take the rows as a struct of facts.
Properties of several functions together are public proof functions whose names
begin with `law_`.
