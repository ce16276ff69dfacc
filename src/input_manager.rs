use vstd::prelude::*;

use vstd::hash_map::StringHashMap;

verus! {

/// Pressed or released state of each key seen so far, by key name.
pub struct InputState {
    keys: StringHashMap<bool>,
}

impl View for InputState {
    type V = Map<Seq<char>, bool>;

    closed spec fn view(&self) -> Map<Seq<char>, bool> {
        self.keys@
    }
}

impl InputState {
    /// No key seen yet.
    pub fn new() -> (r: InputState)
        ensures
            r@ == Map::<Seq<char>, bool>::empty(),
    {
        InputState { keys: StringHashMap::new() }
    }
}

/// The key named `value` is down.
pub open spec fn pressed(keys: Map<Seq<char>, bool>, value: Seq<char>) -> bool {
    keys.contains_key(value) && keys[value]
}

/// Records that the key `keycode` went down.
pub fn key_down(input_manager: &mut InputState, keycode: String)
    ensures
        final(input_manager)@ == old(input_manager)@.insert(keycode@, true),
{
    input_manager.keys.insert(keycode, true);
}

/// Records that the key `keycode` went up.
pub fn key_up(input_manager: &mut InputState, keycode: String)
    ensures
        final(input_manager)@ == old(input_manager)@.insert(keycode@, false),
{
    input_manager.keys.insert(keycode, false);
}

/// Whether the key named `value` is down.
pub fn is_key_pressed(input_manager: &InputState, value: &str) -> (r: bool)
    ensures
        r == pressed(input_manager@, value@),
{
    match input_manager.keys.get(value) {
        Some(v) => *v,
        None => false,
    }
}

} // verus!
