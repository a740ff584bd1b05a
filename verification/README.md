# nova_mod

Verified core of an in-process overlay for an Unreal Engine game.

- `src/` (Verus): which addresses are read and when a read may be attempted
  (`region`), the engine offsets and single-read lookups (`memory`), the search
  for the level's actor array (`actors`) and the survey of all candidate
  offsets (`scan`) as step machines driven by the caller's reads (`probe`),
  the cached line-trace handle (`raytrace`), the line-trace parameter block
  (`trace_params`), and the overlay's class filter and class list (`visuals`).
  Each search comes with a proof that, fed from one memory image, it answers
  what a direct reading of that image gives.
- `app/`: the unverified side: Win32 memory queries and raw reads, the call
  through the engine's virtual table, and the floating-point projection.
