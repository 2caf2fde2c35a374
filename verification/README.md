# kairo_distributed_data

Conflict-free replicated data types and the replicator logic around them,
written in Verus. The functions in `src/` are verified; their contracts
state the library's behaviour, except where it rests on something outside
it: the clock, the transport, a user-supplied payload codec, or a store or
sink supplied by the caller, whose behaviour is stated only as far as its
own spec relations say.

- CRDTs: `gcounter`, `pncounter`, `gset`, `orset`, `ormap`, `lww_register`,
  with their merge laws, delta convergence and removed-replica pruning
  (`data` holds the shared traits, `envelope` and `pruning` the pruning
  markers that travel with values).
- Replication: `delta` (per-key delta sequencing and round-robin selection),
  `delta_loop`, `delta_receive`, `delta_wire`, `gossip` and `gossip_apply`
  (digest status exchange and full-state gossip), `aggregation`,
  `aggregation_actor`, `aggregation_operation` and `aggregation_session`
  (read and write quorums), `direct` (peer reads and writes).
- Cluster view: `cluster_routes` (routable replicas and leadership) and
  `cluster_connector` (the connector's decisions on each cluster event or
  timer).
- Wire: `protocol` (message records and manifests), `wire_codec` and
  `aggregation_wire` (envelopes, pruning tables and delta ranges to and from
  their records), with payload bytes left to a user-supplied codec.

`app/` is the runtime around the library: actor hosts for the decision
functions, transports, cluster subscription and the payload codecs built on
the serialization crate. `tests/` exercises the library on concrete values.
