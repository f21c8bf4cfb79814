# yubirs

Access to the PIV application of YubiKeys over PC/SC, verified with Verus.

- `src/` is the verified library: command APDUs (`piv::apdu`, `piv::command`, with
  command chaining), status words (`piv::sw`), response handling (`piv::response`, and
  `piv::hal::send_data`, which collects a response over GET RESPONSE), BER-TLV object
  framing (`piv::tlv`), PIN/PUK padding (`piv::pin`), management keys (`piv::key`), the
  CHUID and CCC templates (`piv::chuid`), versions (`piv::version`), errors (`error`) and
  the `piv::handle::Handle` that runs each operation over a `PcscHal`.
- Every call into the `PcscHal` goes through `piv::link::Link`, which records it, with
  what it returned, in a ghost log that only `Link` can extend. The contracts of `Handle`
  state what each operation sends and returns as a function of that log
  (`piv::event`).
- 3DES (for authenticating with the management key) comes from the `des` crate, hex
  decoding from `data-encoding`, random challenges from `sodiumoxide`.
- `app/` holds the `PcscHal` over the `pcsc` crate and the variants of the operations that
  prompt on the terminal for a secret that is not supplied.
- `tests/` run the handle against a simulated card.
