use vstd::prelude::*;

verus! {

/// A modifier key, held down while another key is pressed.
#[derive(Clone, Copy, Debug, PartialEq, Eq, Hash, Structural)]
pub enum ModKey {
    Shift,
    Lock,
    Control,
    Mod1,
    Mod2,
    Mod3,
    Mod4,
    Mod5,
}

impl ModKey {
    /// The bit that stands for the key in a modifier mask.
    pub open spec fn spec_mask(self) -> u32 {
        match self {
            ModKey::Shift => 0x01,
            ModKey::Lock => 0x02,
            ModKey::Control => 0x04,
            ModKey::Mod1 => 0x08,
            ModKey::Mod2 => 0x10,
            ModKey::Mod3 => 0x20,
            ModKey::Mod4 => 0x40,
            ModKey::Mod5 => 0x80,
        }
    }

    #[verifier::when_used_as_spec(spec_mask)]
    pub fn mask(self) -> (mask: u32)
        ensures
            mask == self.spec_mask(),
    {
        match self {
            ModKey::Shift => 0x01,
            ModKey::Lock => 0x02,
            ModKey::Control => 0x04,
            ModKey::Mod1 => 0x08,
            ModKey::Mod2 => 0x10,
            ModKey::Mod3 => 0x20,
            ModKey::Mod4 => 0x40,
            ModKey::Mod5 => 0x80,
        }
    }
}

/// The mask that has the bit of each of `mods` set, and no other.
pub open spec fn combined_mask(mods: Seq<ModKey>) -> u32
    decreases mods.len(),
{
    if mods.len() == 0 {
        0
    } else {
        combined_mask(mods.drop_last()) | mods.last().spec_mask()
    }
}

/// A key together with the modifier keys held down with it.
#[derive(Clone, Copy, Debug, PartialEq, Eq, Hash, Structural)]
pub struct KeyCombo {
    pub mod_mask: u32,
    pub keysym: u32,
}

impl KeyCombo {
    pub fn new(mods: Vec<ModKey>, keysym: u32) -> (combo: KeyCombo)
        ensures
            combo == (KeyCombo { mod_mask: combined_mask(mods@), keysym }),
    {
        let mut mod_mask: u32 = 0;
        let mut i: usize = 0;
        while i < mods.len()
            invariant
                i <= mods.len(),
                mod_mask == combined_mask(mods@.take(i as int)),
            decreases mods.len() - i,
        {
            assert(mods@.take(i + 1).drop_last() =~= mods@.take(i as int));
            mod_mask = mod_mask | mods[i].mask();
            i += 1;
        }
        assert(mods@.take(i as int) =~= mods@);
        KeyCombo { mod_mask, keysym }
    }
}

/// What a key combination can be bound to.
#[derive(Clone, Copy, Debug, PartialEq, Eq, Structural)]
pub enum Handler {
    /// Ask the focused window to close.
    CloseWindow,
    /// Give the focus to the next window.
    FocusNext,
    /// Give the focus to the window before.
    FocusPrevious,
    /// Exchange the focused window with the next one.
    ShuffleNext,
    /// Exchange the focused window with the one before.
    ShufflePrevious,
    /// Arrange the windows by the next layout.
    LayoutNext,
    /// Arrange the windows by the layout before.
    LayoutPrevious,
    /// Start the command that the configuration lists under this number.
    Spawn(u32),
}

/// The table that a run of bindings makes: each key combination with the
/// handler of the last binding that names it.
pub open spec fn bindings_map(bindings: Seq<(KeyCombo, Handler)>) -> Map<KeyCombo, Handler>
    decreases bindings.len(),
{
    if bindings.len() == 0 {
        Map::empty()
    } else {
        bindings_map(bindings.drop_last()).insert(bindings.last().0, bindings.last().1)
    }
}

/// The handler of the last of `bindings` that names `combo`.
pub open spec fn last_binding(bindings: Seq<(KeyCombo, Handler)>, combo: KeyCombo) -> Option<
    Handler,
>
    decreases bindings.len(),
{
    if bindings.len() == 0 {
        None
    } else if bindings.last().0 == combo {
        Some(bindings.last().1)
    } else {
        last_binding(bindings.drop_last(), combo)
    }
}

/// A key combination is in the table exactly when a binding names it, and
/// stands there with the handler of the last such binding.
pub proof fn lemma_bindings_map(bindings: Seq<(KeyCombo, Handler)>, combo: KeyCombo)
    ensures
        bindings_map(bindings).dom().contains(combo) <==> last_binding(bindings, combo) is Some,
        last_binding(bindings, combo) matches Some(handler) ==> bindings_map(bindings)[combo]
            == handler,
    decreases bindings.len(),
{
    if bindings.len() > 0 {
        lemma_bindings_map(bindings.drop_last(), combo);
    }
}

/// The key bindings of a window manager.
pub struct KeyHandlers {
    bindings: Vec<(KeyCombo, Handler)>,
}

impl View for KeyHandlers {
    type V = Map<KeyCombo, Handler>;

    closed spec fn view(&self) -> Map<KeyCombo, Handler> {
        bindings_map(self.bindings@)
    }
}

impl KeyHandlers {
    /// The table of `bindings`. Where two of them name one key combination,
    /// the later one counts.
    pub fn new(bindings: Vec<(KeyCombo, Handler)>) -> (keys: KeyHandlers)
        ensures
            keys@ == bindings_map(bindings@),
    {
        KeyHandlers { bindings }
    }

    /// The handler that `combo` is bound to.
    pub fn get(&self, combo: &KeyCombo) -> (handler: Option<Handler>)
        ensures
            handler == (if self@.dom().contains(*combo) {
                Some(self@[*combo])
            } else {
                None
            }),
    {
        let mut i: usize = self.bindings.len();
        assert(self.bindings@.take(i as int) =~= self.bindings@);
        while i > 0
            invariant
                i <= self.bindings.len(),
                last_binding(self.bindings@, *combo) == last_binding(
                    self.bindings@.take(i as int),
                    *combo,
                ),
            decreases i,
        {
            assert(self.bindings@.take(i as int).drop_last() =~= self.bindings@.take(i - 1));
            i -= 1;
            if self.bindings[i].0 == *combo {
                proof {
                    lemma_bindings_map(self.bindings@, *combo);
                }
                return Some(self.bindings[i].1);
            }
        }
        proof {
            lemma_bindings_map(self.bindings@, *combo);
        }
        None
    }
}

} // verus!
