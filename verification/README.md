# grandpa_voter

The decisions of a voter in GRANDPA, verified with Verus.

A voter moves from round to round, takes in commits and catch ups from other
nodes, and finalizes blocks. The library never waits. A `Voter` is told of an
`Event`, answers with an `Action`, and goes on when it is told how the action
ended.

- `src/voter.rs`: the voter and what it decides on every event and every outcome.
- `src/action.rs`: the events, the actions and what is kept between them.
- `src/catch_up.rs`: which catch ups are accepted.
- `src/voter_set.rs`: the voters and what their votes weigh.
- `src/environment.rs`: the types a voter deals with, and the rounds that votes are
  imported into.
- `src/messages.rs`, `src/communication.rs`, `src/outcome.rs`, `src/callback.rs`,
  `src/block.rs`: messages, outcomes, callbacks and blocks.
- `src/laws.rs`: what holds of a voter however long it runs. It never falls back to
  a lower block and never asks to finalize a block twice, and a round only starts
  after the one before it is completed. Provided that every round ends under the
  number that it was started with, the voter never falls back to an earlier round,
  rounds are completed in order, and only completed rounds are concluded.
- `app/`: the asynchronous loop around the library: streams, sinks, channels and
  the futures of the rounds.

Where a contract turns on which of two block numbers is the higher one, it says
which way is taken for number types whose order is lawful (`obeys_cmp`). Where it
turns on who voted, it does so for id types whose equality is lawful (`obeys_eq`).
The primitive integers are both.
