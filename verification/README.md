# secure_core

The cryptographic kernel of a peer-to-peer messaging system, written and
verified in Verus.

The whole lasting state of a session is a current root key, a pending root key
and the number of the epoch. Every message key is derived from the current root
key, the epoch and the number of the message.

| module | what it does |
|--------|--------------|
| `root_state` | the root state: commit of a pending key, roll to the next epoch |
| `init_module` | first root key from the random bytes of both peers; identity stamp |
| `message_cipher` | message numbers, message keys, encryption, decryption across a commit |
| `evolution` | replacement of the root key by ML-KEM-1024 |
| `anti_dos` | catching up with a peer that is epochs ahead |
| `tail_padding` | 16 to 512 random bytes behind a payload |
| `constant_flow` | one packet of 4096 bytes every five seconds |
| `virtual_volume` | block store in one file: superblock, bitmap, ChaCha20-Poly1305 per block |
| `volume_laws` | what holds of a vault and its file over several operations |
| `vault` | runs of blocks, erasure of a block, canary blocks |
| `disk_wipe` | destruction of a vault file |
| `clock_align` | drift of the counters of two peers |
| `memory_protection` | byte container that is overwritten when dropped |
| `disk`, `bitmap`, `encoding`, `labels` | model of the vault file, bits, little-endian numbers, labels |
| `crypto` | the outside primitives, with the contracts that are taken for granted |

`src/` is the verified library. It does no I/O: it hands out lists of operations
on the vault file, actions of a wipe, and packets. `app/` is the C interface
around it, with the file, the timer thread and the one session of the process.

Every list that reads or writes a vault in use notes the times of the file
first and puts them back last, so that the file shows no activity.

Laws that span several functions are the public proof functions whose names
start with `law_`.

The contracts in `crypto` state what the outside crates return. Beyond names for
the results they claim: what AES-256-GCM and ChaCha20-Poly1305 seal opens again
to the same plaintext, and what opens is what sealing gives; HKDF serves 32
bytes; `zeroize` leaves zeros. They claim nothing of random bytes, and not that
decapsulating inverts encapsulating, which holds only up to a negligible
probability.
