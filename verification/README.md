# barp_tunnel

The client side of a VPN tunnel that speaks MTProto, written in Rust and verified
with Verus.

- `src/` is the library. Every function in it carries a contract that Verus
  proves. What the library takes from other crates (big numbers, digests, the TL
  forms of the key exchange, the RSA key's PEM form, random bytes) and from the
  system clock stands behind small functions whose contracts are trusted; their
  doc comments say what is claimed of whom.
- `tests/` runs the library on concrete values.
- `app/` is the shared object that the Android app loads: the JNI exports, the
  sockets and the device, and the tasks around them. The cipher, the transport,
  the disguise as TLS and the bodies of the tunnel's own messages come from
  `mtproto_vpn`.

## Modules

| module | what it holds |
| --- | --- |
| `handshake` | the key exchange as a chain of states |
| `agreement` | what both sides of the exchange can count on |
| `rsa_pad`, `server_key` | how the client's secrets are covered, and for whom |
| `dh` | the check of a power, the shared key, and what is derived from the nonces |
| `session`, `packet` | the packets of the tunnel, and the numbers of its messages |
| `msg_id` | message identifiers that carry the time and grow strictly |
| `tl` | the binary form of the messages of the exchange |
| `proxy`, `address`, `text` | the settings, and the endpoint and route that they lead to |
| `state`, `bridge` | what the tunnel holds, and what the bridge does with what it reads |
| `bignum`, `bytes`, `digest`, `random` | numbers, bytes, digests and chance |

## The shape of the exchange

Each state of `handshake` takes what was received, or what came out of the block
cipher, and gives the next state with a packet to send or a `CipherJob` to run.
Whoever drives it does the sending and the ciphering. The nonces, the random key
and the exponent are drawn inside; for each there is also a function that takes
it as an argument.
