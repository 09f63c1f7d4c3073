# cloud-sdk-azure-mock

An in-memory mock of the Azure REST API (Resource Manager and the blob
data plane) together with the decision logic of an Azure client, written
in Verus.

- `src/` is the verified library. The store (`store`, `storage`, `compute`,
  `network`) keeps every resource as a document in a keyed map; each
  operation's contract states the new state and the result exactly, over
  the model `StoreView`. Listings come in insertion order and, through
  `lists_by`, hold each entry of the model they list exactly once. Every
  operation keeps `parents_exist`: each resource lies in an existing
  parent. `reply`, `requests` and `dataplane` turn store
  outcomes and request parameters into HTTP replies (status, headers, JSON
  document or bytes). `credentials` and `client` hold what the client
  decides: which token a credential yields and how a failed response is
  classified. `json` is the document model, with RFC 7396 merge patch.
  `laws` states and proves properties that span operations.
- Random identifiers and clock readings come from `uuid` and `chrono`
  through a few trusted wrappers in `fresh` and `credentials`; every
  operation takes them as arguments (`Fresh`), so its contract is exact.
- `app/` is the unverified HTTP side: configuration files (TOML), the axum
  router, middleware and handlers of the mock server, and the reqwest
  client with its credentials.
- `tests/` exercises the library on concrete values.
