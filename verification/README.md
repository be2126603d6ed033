# burn_to_vote

The computational core of an anonymous voting protocol built on proof-of-burn:
a voter burns tokens to an address derived from a Poseidon commitment, proves
in zero knowledge that the burn happened and that they are on the allow-list,
and the ceremony counts and tallies the votes.

The library under `src/` is verified with Verus:

- `arith`, `uint`, `field`: numbers in bytes and limbs, 256-bit integers and
  their decimal and hexadecimal texts, BN254 field elements and Poseidon.
- `merkle`: the allow-list's Merkle tree and its membership proofs.
- `config`: a ceremony, counting votes, tallying, and its storage keys.
- `circuits`: the inputs of the circuits, their JSON input files, and the commands
  that prove them.
- `commands`: nullifiers, burn addresses, allow-list proofs and the vote
  circuit's inputs.
- `mpt`: an account's RLP encoding and its Merkle Patricia proof as circuit
  inputs.
- `onchain`: proof and public-signal data, deployment records, revert
  messages and the on-chain demo's commands.

`app/` is the command-line program around it: argument parsing, the ceremony
store, the chain's RPC, and running the circuit tool chain.
