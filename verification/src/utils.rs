//! Where the engine's globals lie in the game module, and which keys were
//! released since they were last seen down.
use vstd::prelude::*;

verus! {

/// Offset of the global object array from the game module's base.
pub const G_OBJECTS_OFFSET: u64 = 0x81b5060;

/// Offset of the global name pool from the game module's base.
pub const G_NAMES_OFFSET: u64 = 0x8115540;

/// Offset of the global world pointer from the game module's base.
pub const G_WORLD_OFFSET: u64 = 0x830fd50;

/// The address of the global object array in a module loaded at `base`.
pub fn get_g_objects(base: u64) -> (a: u64)
    requires
        base + G_OBJECTS_OFFSET <= u64::MAX,
    ensures
        a == base + G_OBJECTS_OFFSET,
{
    base + G_OBJECTS_OFFSET
}

/// The address of the global name pool in a module loaded at `base`.
pub fn get_g_names(base: u64) -> (a: u64)
    requires
        base + G_NAMES_OFFSET <= u64::MAX,
    ensures
        a == base + G_NAMES_OFFSET,
{
    base + G_NAMES_OFFSET
}

/// The address of the global world pointer in a module loaded at `base`.
pub fn get_g_world(base: u64) -> (a: u64)
    requires
        base + G_WORLD_OFFSET <= u64::MAX,
    ensures
        a == base + G_WORLD_OFFSET,
{
    base + G_WORLD_OFFSET
}

/// A key state word reports the key down when its most significant bit is set.
pub open spec fn key_is_down(key_state: i16) -> bool {
    key_state < 0
}

/// One observation of `key`: the key's entry becomes whether it is down, and a
/// release is reported when it was down before and is up now.
pub open spec fn key_step(pressed: Seq<bool>, key: int, down: bool) -> (Seq<bool>, bool) {
    (pressed.update(key, down), pressed[key] && !down)
}

/// For each of the first 255 virtual keys, whether it was last seen down.
pub struct PressedKeys {
    pressed: [bool; 255],
}

impl View for PressedKeys {
    type V = Seq<bool>;

    closed spec fn view(&self) -> Seq<bool> {
        self.pressed@
    }
}

impl PressedKeys {
    /// No key seen down.
    pub fn new() -> (k: Self)
        ensures
            k@.len() == 255,
            forall|i: int| 0 <= i < 255 ==> !#[trigger] k@[i],
    {
        let pressed = [false; 255];
        PressedKeys { pressed }
    }

    /// Records the state word `key_state` read for `key`; true exactly when the
    /// key was last seen down and is up now.
    pub fn key_released(&mut self, key: u16, key_state: i16) -> (released: bool)
        requires
            key < 255,
        ensures
            old(self)@.len() == 255,
            final(self)@.len() == 255,
            (final(self)@, released) == key_step(old(self)@, key as int, key_is_down(key_state)),
    {
        let is_pressed = !((key_state >> 15) & 1 == 0);
        assert(((key_state >> 15i16) & 1i16 == 0i16) <==> key_state >= 0) by (bit_vector);
        let index = key as usize;
        let was_pressed = self.pressed[index];
        if is_pressed && was_pressed {
            return false;
        }
        if is_pressed && !was_pressed {
            self.pressed[index] = true;
            return false;
        }
        if !is_pressed && !was_pressed {
            return false;
        }
        self.pressed[index] = false;
        true
    }
}

/// A run of observations of one key: the entries afterwards, and what each
/// observation reported.
pub open spec fn key_run(pressed: Seq<bool>, key: int, downs: Seq<bool>) -> (Seq<bool>, Seq<bool>)
    decreases downs.len(),
{
    if downs.len() == 0 {
        (pressed, Seq::empty())
    } else {
        let (before, reports) = key_run(pressed, key, downs.drop_last());
        let (after, released) = key_step(before, key, downs.last());
        (after, reports.push(released))
    }
}

/// Whether the key was down just before observation `i` of a run.
pub open spec fn down_before(pressed: Seq<bool>, key: int, downs: Seq<bool>, i: int) -> bool {
    if i == 0 {
        pressed[key]
    } else {
        downs[i - 1]
    }
}

proof fn lemma_key_run(pressed: Seq<bool>, key: int, downs: Seq<bool>)
    requires
        0 <= key < pressed.len(),
    ensures
        key_run(pressed, key, downs).1.len() == downs.len(),
        key_run(pressed, key, downs).0.len() == pressed.len(),
        key_run(pressed, key, downs).0[key] == (if downs.len() == 0 {
            pressed[key]
        } else {
            downs.last()
        }),
        forall|i: int|
            0 <= i < downs.len() ==> #[trigger] key_run(pressed, key, downs).1[i] == (down_before(
                pressed,
                key,
                downs,
                i,
            ) && !downs[i]),
    decreases downs.len(),
{
    if downs.len() > 0 {
        let d = downs.drop_last();
        lemma_key_run(pressed, key, d);
        assert forall|i: int| 0 <= i < downs.len() implies #[trigger] key_run(pressed, key, downs).1[i]
            == (down_before(pressed, key, downs, i) && !downs[i]) by {
            if i < d.len() {
                assert(key_run(pressed, key, d).1[i] == (down_before(pressed, key, d, i) && !d[i]));
                if i > 0 {
                    assert(d[i - 1] == downs[i - 1]);
                }
            }
        }
    }
}

/// Over any run of observations of one key: each observation reports a release
/// exactly when the key was down just before and is up now; no observation
/// that sees the key down reports a release; and between any two reported
/// releases some observation saw the key down, so each press-and-release
/// cycle is reported once.
pub proof fn law_release_per_cycle(pressed: Seq<bool>, key: int, downs: Seq<bool>)
    requires
        0 <= key < pressed.len(),
    ensures
        key_run(pressed, key, downs).1.len() == downs.len(),
        forall|i: int|
            0 <= i < downs.len() ==> #[trigger] key_run(pressed, key, downs).1[i] == (down_before(
                pressed,
                key,
                downs,
                i,
            ) && !downs[i]),
        forall|i: int| 0 <= i < downs.len() && downs[i] ==> !#[trigger] key_run(pressed, key, downs).1[i],
        forall|j: int, i: int|
            0 <= j < i < downs.len() && #[trigger] key_run(pressed, key, downs).1[j]
                && #[trigger] key_run(pressed, key, downs).1[i] ==> exists|m: int|
                j < m < i && #[trigger] downs[m],
{
    lemma_key_run(pressed, key, downs);
    let r = key_run(pressed, key, downs).1;
    assert forall|j: int, i: int| 0 <= j < i < downs.len() && #[trigger] r[j] && #[trigger] r[i] implies exists|m: int|
        j < m < i && #[trigger] downs[m] by {
        assert(r[i] == (down_before(pressed, key, downs, i) && !downs[i]));
        assert(r[j] == (down_before(pressed, key, downs, j) && !downs[j]));
        assert(downs[i - 1]);
    }
}

/// A key is reported released once after it was seen down and then up, and
/// not again while it stays up.
pub proof fn law_release_reported_once(pressed: Seq<bool>, key: int)
    requires
        0 <= key < pressed.len(),
    ensures
        ({
            let (after_down, r1) = key_step(pressed, key, true);
            let (after_up, r2) = key_step(after_down, key, false);
            let (_, r3) = key_step(after_up, key, false);
            !r1 && r2 && !r3
        }),
{
}

/// No release is reported for a key that was not last seen down.
pub proof fn law_no_release_without_press(pressed: Seq<bool>, key: int, down: bool)
    requires
        0 <= key < pressed.len(),
        !pressed[key],
    ensures
        !key_step(pressed, key, down).1,
{
}

/// Observing one key leaves every other key's entry as it was.
pub proof fn law_other_keys_unchanged(pressed: Seq<bool>, key: int, down: bool, other: int)
    requires
        0 <= key < pressed.len(),
        0 <= other < pressed.len(),
        other != key,
    ensures
        key_step(pressed, key, down).0[other] == pressed[other],
{
}

} // verus!
