# bevy_rl

Verified core of a toolkit for parallel physics simulation and reinforcement
learning of articulated creatures.

- `src/` is the library, written in Verus: environment isolation (grid cells
  and collision layers), creature skeletons (articulation root, joint order for
  forward kinematics, action slots, pose edits), rollout storage and episode
  boundaries, the PPO shuffle and minibatch schedule, the training schedule,
  checkpoint naming and validation, viewer layout, and ground-mesh indexing.
  Every function carries a contract. Verus proves all of them except those of
  the small trusted wrappers through which the library calls the standard
  path functions, `String::from_iter`, `dirs` and `avian3d`; those contracts
  are taken on trust from the outside code's documentation.
- `tests/` runs the library on concrete values.
- `app/` is ordinary Rust around the library: JSON/RON files, metadata
  serialization, and floating-point reward and metric code.
