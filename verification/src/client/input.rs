//! The keys a player holds, and what they mean.

use vstd::prelude::*;
use vstd::string::StringExecFns;
use crate::constants::AXIS_UNIT;

verus! {

/// The names of the keys that are held, and of those that went down since
/// the last frame.
pub struct InputView {
    pub down: Set<Seq<char>>,
    pub just_pressed: Set<Seq<char>>,
}

impl InputView {
    /// The keys after the key `key` went down: it is held, and it counts as
    /// just pressed unless it was held already.
    pub open spec fn pressed(self, key: Seq<char>) -> InputView {
        InputView {
            down: self.down.insert(key),
            just_pressed: if self.down.contains(key) {
                self.just_pressed
            } else {
                self.just_pressed.insert(key)
            },
        }
    }

    /// The keys after the key `key` went up.
    pub open spec fn released(self, key: Seq<char>) -> InputView {
        InputView { down: self.down.remove(key), ..self }
    }

    /// The keys at the start of the next frame: none counts as just pressed.
    pub open spec fn frame_cleared(self) -> InputView {
        InputView { just_pressed: Set::empty(), ..self }
    }

    /// Whether a key for going up is held.
    pub open spec fn up(self) -> bool {
        self.down.contains("ArrowUp"@) || self.down.contains("w"@) || self.down.contains("W"@)
    }

    /// Whether a key for going down is held.
    pub open spec fn down_held(self) -> bool {
        self.down.contains("ArrowDown"@) || self.down.contains("s"@) || self.down.contains("S"@)
    }

    /// Whether a key for going left is held.
    pub open spec fn left(self) -> bool {
        self.down.contains("ArrowLeft"@) || self.down.contains("a"@) || self.down.contains("A"@)
    }

    /// Whether a key for going right is held.
    pub open spec fn right(self) -> bool {
        self.down.contains("ArrowRight"@) || self.down.contains("d"@) || self.down.contains("D"@)
    }
}

/// The push along one axis: a full push towards the far side, a full push
/// towards the near side, or none if neither or both are asked for.
pub open spec fn axis(near: bool, far: bool) -> i32 {
    ((if far {
        AXIS_UNIT as int
    } else {
        0
    }) - (if near {
        AXIS_UNIT as int
    } else {
        0
    })) as i32
}

/// The names in `keys`, as a set.
pub open spec fn names(keys: Seq<String>) -> Set<Seq<char>> {
    Set::new(|k: Seq<char>| exists|i: int| 0 <= i < keys.len() && (#[trigger] keys[i])@ == k)
}

/// The keys of one player.
pub struct InputState {
    keys_down: Vec<String>,
    keys_just_pressed: Vec<String>,
}

impl View for InputState {
    type V = InputView;

    closed spec fn view(&self) -> InputView {
        InputView { down: names(self.keys_down@), just_pressed: names(self.keys_just_pressed@) }
    }
}

/// Whether `keys` holds the name `key`.
fn holds(keys: &Vec<String>, key: &String) -> (found: bool)
    ensures
        found == names(keys@).contains(key@),
{
    let mut i: usize = 0;
    while i < keys.len()
        invariant
            i <= keys.len(),
            forall|j: int| 0 <= j < i ==> (#[trigger] keys@[j])@ != key@,
        decreases keys.len() - i,
    {
        if keys[i] == *key {
            return true;
        }
        i += 1;
    }
    false
}

impl InputState {
    /// The axes that the held keys ask for, each a full push or none.
    pub open spec fn movement(&self) -> (i32, i32) {
        (axis(self@.left(), self@.right()), axis(self@.up(), self@.down_held()))
    }

    /// Whether the held keys ask for a bomb: the space bar was just pressed.
    pub open spec fn bomb_wanted(&self) -> bool {
        self@.just_pressed.contains(" "@)
    }

    /// No key held.
    pub fn new() -> (input: InputState)
        ensures
            input@ == (InputView { down: Set::empty(), just_pressed: Set::empty() }),
    {
        let input = InputState { keys_down: Vec::new(), keys_just_pressed: Vec::new() };
        assert(input@.down =~= Set::empty());
        assert(input@.just_pressed =~= Set::empty());
        input
    }

    /// Notes that the key `key` went down.
    pub fn key_down(&mut self, key: &str)
        ensures
            final(self)@ == old(self)@.pressed(key@),
    {
        let ghost start = self@;
        let name = String::from_str(key);
        if !holds(&self.keys_down, &name) {
            if !holds(&self.keys_just_pressed, &name) {
                let ghost before = self.keys_just_pressed@;
                self.keys_just_pressed.push(name.clone());
                assert(names(self.keys_just_pressed@) =~= start.just_pressed.insert(key@)) by {
                    assert(self.keys_just_pressed@[before.len() as int]@ == key@);
                    assert forall|k: Seq<char>| names(before).contains(k) implies names(
                        self.keys_just_pressed@,
                    ).contains(k) by {
                        let i = choose|i: int| 0 <= i < before.len() && (#[trigger] before[i])@ == k;
                        assert(self.keys_just_pressed@[i]@ == k);
                    }
                }
            } else {
                assert(start.just_pressed.insert(key@) =~= start.just_pressed);
            }
            let ghost before = self.keys_down@;
            self.keys_down.push(name);
            assert(names(self.keys_down@) =~= start.down.insert(key@)) by {
                assert(self.keys_down@[before.len() as int]@ == key@);
                assert forall|k: Seq<char>| names(before).contains(k) implies names(self.keys_down@).contains(
                    k,
                ) by {
                    let i = choose|i: int| 0 <= i < before.len() && (#[trigger] before[i])@ == k;
                    assert(self.keys_down@[i]@ == k);
                }
            }
        } else {
            assert(start.down.insert(key@) =~= start.down);
        }
    }

    /// Notes that the key `key` went up.
    pub fn key_up(&mut self, key: &str)
        ensures
            final(self)@ == old(self)@.released(key@),
    {
        let ghost start = self.keys_down@;
        let name = String::from_str(key);
        let mut kept: Vec<String> = Vec::new();
        let mut i: usize = 0;
        while i < self.keys_down.len()
            invariant
                self.keys_down@ == start,
                name@ == key@,
                i <= self.keys_down.len(),
                forall|k: Seq<char>|
                    names(kept@).contains(k) <==> (k != key@ && exists|j: int|
                        0 <= j < i && (#[trigger] start[j])@ == k),
            decreases self.keys_down.len() - i,
        {
            let ghost before = kept@;
            if self.keys_down[i] != name {
                kept.push(self.keys_down[i].clone());
                assert(kept@[before.len() as int]@ == start[i as int]@);
                assert forall|k: Seq<char>| names(kept@).contains(k) <==> (k != key@ && exists|j: int|
                    0 <= j < i + 1 && (#[trigger] start[j])@ == k) by {
                    if names(kept@).contains(k) {
                        let a = choose|a: int| 0 <= a < kept@.len() && (#[trigger] kept@[a])@ == k;
                        if a < before.len() {
                            assert(before[a]@ == k);
                            assert(names(before).contains(k));
                        } else {
                            assert(start[i as int]@ == k);
                        }
                    }
                    if k != key@ && exists|j: int| 0 <= j < i + 1 && (#[trigger] start[j])@ == k {
                        let j = choose|j: int| 0 <= j < i + 1 && (#[trigger] start[j])@ == k;
                        if j < i {
                            assert(names(before).contains(k));
                            let a = choose|a: int| 0 <= a < before.len() && (#[trigger] before[a])@ == k;
                            assert(kept@[a]@ == k);
                        } else {
                            assert(kept@[before.len() as int]@ == k);
                        }
                    }
                }
            } else {
                assert forall|k: Seq<char>| names(kept@).contains(k) <==> (k != key@ && exists|j: int|
                    0 <= j < i + 1 && (#[trigger] start[j])@ == k) by {
                    if k != key@ && exists|j: int| 0 <= j < i + 1 && (#[trigger] start[j])@ == k {
                        let j = choose|j: int| 0 <= j < i + 1 && (#[trigger] start[j])@ == k;
                        assert(j < i);
                    }
                }
            }
            i += 1;
        }
        self.keys_down = kept;
        assert(names(self.keys_down@) =~= names(start).remove(key@));
    }

    /// Whether the key `key` is held.
    pub fn is_key_down(&self, key: &str) -> (held: bool)
        ensures
            held == self@.down.contains(key@),
    {
        holds(&self.keys_down, &String::from_str(key))
    }

    /// Whether the key `key` went down since the last frame.
    pub fn is_key_just_pressed(&self, key: &str) -> (pressed: bool)
        ensures
            pressed == self@.just_pressed.contains(key@),
    {
        holds(&self.keys_just_pressed, &String::from_str(key))
    }

    /// Starts the next frame: no key counts as just pressed any more.
    pub fn clear_frame(&mut self)
        ensures
            final(self)@ == old(self)@.frame_cleared(),
    {
        self.keys_just_pressed.clear();
        assert(names(self.keys_just_pressed@) =~= Set::empty());
    }

    /// The axes that the held keys ask for: the arrow keys or W, A, S, D, in
    /// either case. Opposite keys cancel.
    pub fn get_movement(&self) -> (axes: (i32, i32))
        ensures
            axes == self.movement(),
    {
        let mut dx: i32 = 0;
        let mut dy: i32 = 0;
        if self.is_key_down("ArrowUp") || self.is_key_down("w") || self.is_key_down("W") {
            dy -= AXIS_UNIT;
        }
        if self.is_key_down("ArrowDown") || self.is_key_down("s") || self.is_key_down("S") {
            dy += AXIS_UNIT;
        }
        if self.is_key_down("ArrowLeft") || self.is_key_down("a") || self.is_key_down("A") {
            dx -= AXIS_UNIT;
        }
        if self.is_key_down("ArrowRight") || self.is_key_down("d") || self.is_key_down("D") {
            dx += AXIS_UNIT;
        }
        (dx, dy)
    }

    /// Whether the player asks for a bomb: the space bar was just pressed.
    pub fn wants_bomb(&self) -> (wanted: bool)
        ensures
            wanted == self.bomb_wanted(),
    {
        self.is_key_just_pressed(" ")
    }
}

} // verus!
