# rhdfs

Protocol logic of an HDFS client, verified with Verus.

- `src/listing.rs`: the paged directory listing conversation with the NameNode.
- `src/read_fsm.rs`: the state machine that reads a byte range of a file block by
  block, moving to the next replica when a DataNode fails; its laws.
- `src/get.rs`: the file source that turns network events into stream actions; its laws.
- `src/messages.rs`, `src/datanode.rs`, `src/error.rs`, `src/put.rs`: decoded messages,
  DataNodes, errors, and the write sink's state.
- `src/buffer.rs`: the trusted contracts of the `bytes` buffers that carry file data.
- `app/`: drivers that run the state machines against a transport (the I/O side),
  including the parsing of DataNode address text, whose outcome the library turns
  into a read request or an error (`get::resolve_read`).
