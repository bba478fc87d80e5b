//! Per-cell state: an operator symbol (or the empty sentinel) plus a
//! transient per-tick lock flag.

use vstd::prelude::*;

verus! {

/// One cell of the field. `operator` is `'\0'` when the cell is empty.
/// `lock` is meaningful only within a single tick: it is reset for every
/// slot at the start of each tick and set by a behavior to mark
/// "already acted on this tick".
#[derive(Copy, Clone, PartialEq, Eq, Structural, Debug)]
pub struct Slot {
    pub operator: char,
    pub lock: bool,
}

impl Slot {
    /// True iff the slot holds no operator.
    pub open spec fn spec_is_clear(&self) -> bool {
        self.operator == '\0'
    }

    #[verifier::when_used_as_spec(spec_is_clear)]
    pub fn is_clear(&self) -> (r: bool)
        ensures
            r == self.spec_is_clear(),
    {
        self.operator == '\0'
    }

    /// Replaces the operator with the fixed "destroyed" marker `*`.
    /// Idempotent; the lock flag is untouched.
    pub fn explode(&mut self)
        ensures
            final(self).operator == '*',
            final(self).lock == old(self).lock,
    {
        self.operator = '*';
    }

    /// Resets the operator to the empty sentinel. Idempotent; the lock
    /// flag is untouched.
    pub fn clear(&mut self)
        ensures
            final(self).operator == '\0',
            final(self).lock == old(self).lock,
    {
        self.operator = '\0';
    }

    /// The character shown for this slot: `.` stands in for empty.
    pub open spec fn display_char(self) -> char {
        if self.operator == '\0' {
            '.'
        } else {
            self.operator
        }
    }

    /// The three-character display form: `[c]` if locked, ` c ` otherwise.
    pub open spec fn spec_render(self) -> Seq<char> {
        if self.lock {
            seq!['[', self.display_char(), ']']
        } else {
            seq![' ', self.display_char(), ' ']
        }
    }

    /// Renders the slot as its fixed-width display form.
    pub fn render(&self) -> (r: Vec<char>)
        ensures
            r@ == self.spec_render(),
    {
        let shown = if self.operator == '\0' {
            '.'
        } else {
            self.operator
        };
        let mut r: Vec<char> = Vec::new();
        r.push(if self.lock { '[' } else { ' ' });
        r.push(shown);
        r.push(if self.lock { ']' } else { ' ' });
        proof {
            assert(r@ =~= self.spec_render());
        }
        r
    }
}

impl Default for Slot {
    /// An empty, unlocked slot.
    fn default() -> (s: Slot)
        ensures
            s.operator == '\0',
            !s.lock,
    {
        Slot { operator: '\0', lock: false }
    }
}

} // verus!
