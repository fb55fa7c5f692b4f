# pathfinder

The decisions of a StarkNet node, verified with Verus:

- `startup`: which chain the node follows, and whether its database, its gateway and its Ethereum
  client belong to that chain;
- `p2p_network` and `head`: how the node joins the peer-to-peer network, and which block it takes
  for the head of the chain;
- `websocket`: how connections serve subscriptions to new block headers and to the events of new
  blocks.

The library in `src/` does no input or output of its own. Where decisions alternate with such work,
a `step` function takes what came of the last action and says what to do next. The program in `app/`
performs the actions.
