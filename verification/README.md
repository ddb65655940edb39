# dytallix_node

Vesting schedules and validator identity bookkeeping of a Dytallix node,
written in Verus.

- `src/schedule.rs`: linear vesting with a cliff; `released`/`locked` and the
  laws that nothing beyond the total is released and that locked amounts never
  grow with the height.
- `src/storage.rs`: an in-memory key-value store with the interface of the
  node's chain-state database; it is not written to disk.
- `src/codec.rs`: bincode encoding of schedules (trusted wrappers).
- `src/registry.rs`: the schedule registry over the store; read-after-write
  and the persistence of balance-sufficiency checks.
- `src/identity.rs`: ML-DSA identity derivation (fips204, with the address
  codec passed in) and the set-once validator identity record, including the
  secret key bytes in a zeroizing buffer.
- `src/key_source.rs`: the choice of Vault or sealed keystore from the
  environment.
- `app/`: serde form of schedules, environment reading, process-wide key
  holders, async loading.
