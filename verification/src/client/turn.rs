use vstd::prelude::*;

verus! {

/// One turn of a player: the enemies that may be shot at, and the shots of
/// the salvo, of which `current` have been taken.
#[derive(Debug, PartialEq, Eq)]
pub struct Turn {
    pub enemies: Vec<String>,
    pub attacks: usize,
    pub current: usize,
}

impl Turn {
    /// A turn at its beginning, with no shot taken.
    pub fn new(enemies: Vec<String>, attacks: usize) -> (turn: Turn)
        ensures
            turn.enemies == enemies,
            turn.attacks == attacks,
            turn.current == 0,
    {
        Turn { enemies, attacks, current: 0 }
    }

    /// Takes the next shot of the salvo: its number, counted from 0, while
    /// shots are left.
    pub fn next(&mut self) -> (shot: Option<usize>)
        ensures
            final(self).enemies == old(self).enemies,
            final(self).attacks == old(self).attacks,
            old(self).current < old(self).attacks ==> shot == Some(old(self).current)
                && final(self).current == old(self).current + 1,
            old(self).current >= old(self).attacks ==> shot is None
                && final(self).current == old(self).current,
    {
        if self.current < self.attacks {
            let shot = self.current;
            self.current += 1;
            Some(shot)
        } else {
            None
        }
    }
}

} // verus!
