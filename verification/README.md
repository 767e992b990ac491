# nipart

The network state model of the nipart network management daemon, as a
verified library: interfaces of each kind (bond, Linux bridge, VLAN,
ethernet and veth, OVS, WiFi, loopback, dummy), their validation and clean
up, the merging of a desired state over the current one (interfaces, routes,
up priorities), verification of the result, secret hiding, and the framing
rules of the IPC protocol.

Layout:

- `src/` the library, written and proved with Verus. Public functions carry
  `requires`/`ensures` contracts over spec models of the types; laws that
  relate several functions are public proof functions next to them.
- `tests/` tests of the library on concrete values.
- `app/` the I/O around the library: the UNIX socket IPC connection and the
  daemon client (tokio), log emission (`log`), and the JSON and YAML forms
  of the data (`serde`), through serializable copies of the library's types.
