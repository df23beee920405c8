# lwext4_core

An ext4 filesystem library whose logic is verified with Verus: on-disk
formats (superblock, inodes, group descriptors, extended attributes, JBD2
journal blocks), their checksums, and the decisions of the filesystem
operations, each with a `requires`/`ensures` contract.

- `src/` is the verified library. Functions that would read or write the
  device take and return bytes or plans instead: the caller reads a block,
  hands it to the library, and writes back what the library returns.
  Operations that alternate device access and decisions are split into
  step functions (recovery scan, checkpointing, directory operations,
  truncation, block lookup).
- The attribute editors, whose `requires` speak of the bytes of an area
  read from disk, have checkers beside them that compute exactly that
  condition (`edit_allowed`, `ibody_edit_allowed`, `set_allowed`,
  `remove_allowed`, `set_block_entry_allowed`, `remove_block_entry_allowed`);
  the device side tests it and reports a corrupted area instead of calling.
- `app/` holds the device side: the `BlockDevice` trait and the loops that
  read and write the blocks the library names.
- `tests/` runs the library on concrete values.

Extent trees, directory entry blocks, block and inode allocation and the
block group descriptor table are not part of this crate.
