use vstd::prelude::*;

verus! {

/// The physical key, on the left block of a QWERTY keyboard, that stands for
/// each logical key 0x0 to 0xF.
pub const KEY_LAYOUT: [char; 16] = [
    'X', '1', '2', '3', 'Q', 'W', 'E', 'A', 'S', 'D', 'Z', 'C', '4', 'R', 'F', 'V',
];

/// The logical key for a physical key, written as its upper-case character.
pub fn keypad_index(c: char) -> (r: Option<u8>)
    ensures
        match r {
            Some(k) => k < 16 && KEY_LAYOUT@[k as int] == c,
            None => forall|k: int| 0 <= k < 16 ==> KEY_LAYOUT@[k] != c,
        },
{
    let mut k: usize = 0;
    while k < 16
        invariant
            k <= 16,
            forall|j: int| 0 <= j < k ==> KEY_LAYOUT@[j] != c,
        decreases 16 - k,
    {
        if KEY_LAYOUT[k] == c {
            return Some(k as u8);
        }
        k = k + 1;
    }
    None
}

/// Key `k` went from released in `before` to pressed in `now`.
pub open spec fn pressed_between(before: Seq<bool>, now: Seq<bool>, k: int) -> bool {
    now[k] && !before[k]
}

/// The lowest key that is released in `before` and pressed in `now`.
fn first_pressed(before: &[bool; 16], now: &[bool; 16]) -> (r: Option<u8>)
    ensures
        match r {
            Some(k) => k < 16 && pressed_between(before@, now@, k as int) && forall|j: int|
                0 <= j < k ==> !pressed_between(before@, now@, j),
            None => forall|j: int| 0 <= j < 16 ==> !pressed_between(before@, now@, j),
        },
{
    let mut k: usize = 0;
    while k < 16
        invariant
            k <= 16,
            forall|j: int| 0 <= j < k ==> !pressed_between(before@, now@, j),
        decreases 16 - k,
    {
        if now[k] && !before[k] {
            return Some(k as u8);
        }
        k = k + 1;
    }
    None
}

/// The wait of `FX0A`: it compares each key snapshot with the one before and
/// ends at the first key that went from released to pressed.
pub struct KeyWait {
    last: [bool; 16],
}

impl View for KeyWait {
    type V = Seq<bool>;

    /// The last snapshot seen.
    closed spec fn view(&self) -> Seq<bool> {
        self.last@
    }
}

impl KeyWait {
    /// Starts a wait from the snapshot taken when it began.
    pub fn new(keys: [bool; 16]) -> (w: KeyWait)
        ensures
            w@ == keys@,
    {
        KeyWait { last: keys }
    }

    /// Takes the next snapshot. Returns the lowest key that went from released
    /// to pressed since the last one, if any.
    pub fn poll(&mut self, keys: &[bool; 16]) -> (r: Option<u8>)
        ensures
            final(self)@ == keys@,
            match r {
                Some(k) => k < 16 && pressed_between(old(self)@, keys@, k as int) && forall|j: int|
                    0 <= j < k ==> !pressed_between(old(self)@, keys@, j),
                None => forall|j: int| 0 <= j < 16 ==> !pressed_between(old(self)@, keys@, j),
            },
    {
        let found = first_pressed(&self.last, keys);
        self.last = *keys;
        found
    }
}

} // verus!
