# vecno_wallet

The Vecno desktop wallet, with its decisions verified by Verus.

- `src/` is the verified library: the checks on what the user types and on
  what the backend is asked, the balance and transaction history computed from
  the node's unspent outputs, recovery phrases and the key material kept while
  a wallet is open, the labels the interface shows, and what each reply of the
  backend changes in the interface. Every public function carries a contract;
  the laws that span functions are public proof functions.
- `app/` is the program around it: the Tauri commands that drive the Vecno
  wallet framework, and the Yew interface that runs in the web view. It does
  the I/O and hands the library plain values.
- `tests/` runs the library on concrete values.

Calls into `bip39`, `hex`, `rand`, `chrono`, `qrcode`, `image` and `base64`
stand in `src/` behind small trusted wrappers, each with a doc comment that
says what its contract claims of the outside function.

The history groups outputs by transaction id in a `Vec` of per-transaction
totals, kept free of duplicate ids as an invariant, rather than in a map keyed
by the id: Verus proves nothing of a standard map keyed by a `String`, while
over a `Vec` the grouping, its sums and its order are proved in full. The
pairing of DAA scores with the node's timestamps is likewise a lookup by
position that keeps the last pair, as a map built by zipping would.
