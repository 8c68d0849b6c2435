# ax_exchange_sdk

Client SDK for the exchange's gateways, written in Verus.

- `src/` is the verified library: the domain types (EP3 accounts, usernames
  and firms, order ids, symbols, tags, RFQ ids, sides, states and quotes),
  the sort, pagination and time-range parameters of list endpoints, the
  gateway messages, the user credentials assembled from a decoded token, the
  query strings and token checks of the REST clients, and the text
  operations they rest on. Each public function states its result in its
  contract; the round trips between the text forms and the values are proved
  as lemmas next to the types.
- `app/` holds what is input and output: the serde forms of the library's
  types, the wire messages that carry instants and amounts, configuration
  read from the environment, and the HTTP clients, which call the library
  for everything they compute.
- `tests/` exercises the library on concrete values.
