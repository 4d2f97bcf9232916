//! The two shortcut keys the page listens for.

use vstd::prelude::*;
use vstd::string::StringSliceAdditionalSpecFns;

verus! {

/// Keys pressed since the last frame looked.
#[derive(Clone, Copy, Debug, PartialEq, Eq, Structural)]
pub struct Keys {
    /// Space: show the corrected cloud against the raw one.
    pub compare: bool,
    /// Escape: put the board back.
    pub dismiss: bool,
}

/// Which shortcut, if any, a key name from a keyboard event stands for:
/// `" "` or `"Spacebar"` is compare, `"Escape"` or `"Esc"` is dismiss.
pub enum Shortcut {
    Compare,
    Dismiss,
}

/// The UTF-8 bytes of `"Spacebar"`.
pub open spec fn spacebar_bytes() -> Seq<u8> {
    seq![0x53u8, 0x70, 0x61, 0x63, 0x65, 0x62, 0x61, 0x72]
}

/// The UTF-8 bytes of `"Escape"`.
pub open spec fn escape_bytes() -> Seq<u8> {
    seq![0x45u8, 0x73, 0x63, 0x61, 0x70, 0x65]
}

/// The UTF-8 bytes of `"Esc"`.
pub open spec fn esc_bytes() -> Seq<u8> {
    seq![0x45u8, 0x73, 0x63]
}

/// The shortcut a key name stands for.
pub open spec fn shortcut_spec(key: Seq<u8>) -> Option<Shortcut> {
    if key == seq![0x20u8] || key == spacebar_bytes() {
        Some(Shortcut::Compare)
    } else if key == escape_bytes() || key == esc_bytes() {
        Some(Shortcut::Dismiss)
    } else {
        None
    }
}

impl Default for Keys {
    fn default() -> (keys: Keys)
        ensures
            keys == (Keys { compare: false, dismiss: false }),
    {
        Keys { compare: false, dismiss: false }
    }
}

/// Whether two byte strings are the same.
fn same_bytes(a: &[u8], b: &[u8]) -> (same: bool)
    ensures
        same == (a@ == b@),
{
    if a.len() != b.len() {
        return false;
    }
    let mut i: usize = 0;
    while i < a.len()
        invariant
            a@.len() == b@.len(),
            i <= a@.len(),
            forall|j: int| 0 <= j < i ==> a@[j] == b@[j],
        decreases a@.len() - i,
    {
        if a[i] != b[i] {
            return false;
        }
        i = i + 1;
    }
    assert(a@ =~= b@);
    true
}

/// The shortcut a key name (a keyboard event's `key`) stands for, if any.
pub fn shortcut(key: &str) -> (found: Option<Shortcut>)
    ensures
        found == shortcut_spec(key.spec_bytes()),
{
    let bytes = key.as_bytes();
    let space: [u8; 1] = [0x20];
    let spacebar: [u8; 8] = [0x53, 0x70, 0x61, 0x63, 0x65, 0x62, 0x61, 0x72];
    let escape: [u8; 6] = [0x45, 0x73, 0x63, 0x61, 0x70, 0x65];
    let esc: [u8; 3] = [0x45, 0x73, 0x63];
    assert(space@ =~= seq![0x20u8]);
    assert(spacebar@ =~= spacebar_bytes());
    assert(escape@ =~= escape_bytes());
    assert(esc@ =~= esc_bytes());
    if same_bytes(bytes, &space) || same_bytes(bytes, &spacebar) {
        Some(Shortcut::Compare)
    } else if same_bytes(bytes, &escape) || same_bytes(bytes, &esc) {
        Some(Shortcut::Dismiss)
    } else {
        None
    }
}

impl Keys {
    /// Note one key press. Returns whether it was one of the two shortcuts,
    /// in which case the page should stop the browser acting on it too.
    pub fn press(&mut self, key: &str) -> (handled: bool)
        ensures
            handled == shortcut_spec(key.spec_bytes()) is Some,
            *final(self) == match shortcut_spec(key.spec_bytes()) {
                Some(Shortcut::Compare) => Keys { compare: true, ..*old(self) },
                Some(Shortcut::Dismiss) => Keys { dismiss: true, ..*old(self) },
                None => *old(self),
            },
    {
        match shortcut(key) {
            Some(Shortcut::Compare) => {
                self.compare = true;
                true
            },
            Some(Shortcut::Dismiss) => {
                self.dismiss = true;
                true
            },
            None => false,
        }
    }
}

/// Read the pending presses and clear them, so one press is one action.
pub fn take_keys(keys: &mut Keys) -> (taken: Keys)
    ensures
        taken == *old(keys),
        *final(keys) == (Keys { compare: false, dismiss: false }),
{
    let taken = *keys;
    *keys = Keys { compare: false, dismiss: false };
    taken
}

} // verus!
