# rs_internal_ue_palia

An in-process overlay for Palia (Unreal Engine 5), split in two.

* `src/` is the verified library. It holds plain-value models of the engine
  structures that the overlay reads and the logic that runs on them, each with
  a contract that Verus proves:
  * `ue::names`: name-pool handles, entries, and display names;
  * `ue::containers`: engine arrays, their iterator, and UTF-16 engine strings;
  * `ue::objects`: object headers, full names, and object-array addressing and lookup;
  * `ue::engine`, `sdk`: engine and game object layouts, with pointers held as addresses;
  * `utils`: where the globals lie in the module, and key-release detection;
  * `overlay`: which events are intercepted, which actors are labelled and in
    which colour, and the fishing automation's state machine.
* `app/` is the injected module itself: the `#[repr(C)]` layouts that are read
  from game memory, the hooks, the Windows calls, the engine function calls, and
  the floating-point parts (distances, colours, movement and reel tuning).
