# pallet_rent

Two pallets that make non-fungible collectibles rentable, with their logic
verified by Verus:

- `rent`: lessors mint collectibles, offer them for rent with a price per block
  and a minimum and maximum period, withdraw and burn them; lessees rent them
  for a number of blocks, once or recurring, extend and stop the renewal; both
  equip and unequip them. At the start of each block the rentals due then are
  processed: a recurring one is paid and scheduled again, the others end.
- `nft_on_rent`: the first form of the same pallet, without owner lists,
  burning or a list of rentable collectibles.

Layout of `src/`:

- `storage.rs`: the keyed store that stands for the storage maps.
- `filters.rs`: dropping a collectible from the lists that storage keeps.
- `collectible_id.rs`: identifiers drawn from the runtime's randomness, through
  SCALE encoding and the Blake2 hash of `frame_support`.
- `currency.rs`: the runtime's currency, which pays the rents, and the record
  of every question the pallets put to it with its answer, over which the
  contracts state who pays whom and how much.
- `rent/`, `nft_on_rent/`: for each pallet its types, a mathematical model of
  its state and of what each call makes of it (`model.rs`), the executable
  pallet proved against that model (`pallet.rs`), and the laws that hold across
  calls (`laws.rs`).
- `utils.rs`: checked conversion between primitive integers.

`app/` holds what a FRAME runtime hands the pallets: its currency, randomness,
signed origins, block number and extrinsic index; and each pallet with its
storage and currency, dispatching the calls and the block hook to the library
after the tests (`can_rent`, `can_extend_rent`, `on_initialize_checked`) that
the library's contracts ask for.
