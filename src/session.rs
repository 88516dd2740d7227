use vstd::prelude::*;
use crate::edit::{Action, EditState, Key, SubMode, action_for, action_of, next_state};
use crate::text::{char_count, insert_char_at, remove_char_before};
use crate::notes::{Stack, Stickynote, total_of, lemma_total_nonneg, lemma_total_concat,
    lemma_total_single, lemma_total_update, lemma_total_remove, lemma_total_insert};

verus! {

/// The selected note: a stack and a note within it, both from zero.
#[derive(Clone, Copy, PartialEq, Eq, Structural, Debug)]
pub struct Focus {
    pub stack_index: usize,
    pub note_index: usize,
}

/// One editing session: the stacks, the focus, the edit state, and the
/// text cursor (a character position in the focused note, held within the
/// text when used).
pub struct App {
    pub stacks: Vec<Stack>,
    pub focus: Focus,
    pub state: EditState,
    pub cursor: usize,
}

/// `i` if it is below `len`, else the last index below `len`.
pub open spec fn clamp_index(i: int, len: int) -> int {
    if i < len {
        i
    } else {
        len - 1
    }
}

/// Every stack holds at least one note.
pub open spec fn stacks_nonempty(stacks: Seq<Stack>) -> bool {
    forall|i: int| 0 <= i < stacks.len() ==> #[trigger] stacks[i].notes@.len() >= 1
}

/// The focus names an existing note of `stacks`.
pub open spec fn focus_in(stacks: Seq<Stack>, f: Focus) -> bool {
    &&& f.stack_index < stacks.len()
    &&& f.note_index < stacks[f.stack_index as int].notes@.len()
}

/// A stack that holds a single empty note.
pub open spec fn is_blank_stack(s: Stack) -> bool {
    &&& s.notes@.len() == 1
    &&& s.notes@[0].text@.len() == 0
}

impl App {
    /// The board's invariant: at least one stack, no empty stack, a focus on
    /// an existing note, and a note count that fits in `usize`.
    pub open spec fn wf(&self) -> bool {
        &&& self.stacks@.len() >= 1
        &&& stacks_nonempty(self.stacks@)
        &&& focus_in(self.stacks@, self.focus)
        &&& total_of(self.stacks@) <= usize::MAX
    }

    /// Number of notes on the board.
    pub open spec fn total(&self) -> int {
        total_of(self.stacks@)
    }

    /// Number of notes in stack `i`.
    pub open spec fn stack_len(&self, i: int) -> int {
        self.stacks@[i].notes@.len() as int
    }

    /// The focused note.
    pub open spec fn focused(&self) -> Stickynote {
        self.stacks@[self.focus.stack_index as int].notes@[self.focus.note_index as int]
    }

    /// The cursor position, held within the focused note's text.
    pub open spec fn text_cursor(&self) -> int {
        if self.cursor <= self.focused().text@.len() {
            self.cursor as int
        } else {
            self.focused().text@.len() as int
        }
    }

    /// This session with another focus.
    pub open spec fn with_focus(self, f: Focus) -> App {
        App { focus: f, ..self }
    }

    /// A board of one stack holding one empty note, focused and browsing.
    pub fn new() -> (r: App)
        ensures
            r.wf(),
            r.total() == 1,
            r.stacks@.len() == 1,
            is_blank_stack(r.stacks@[0]),
            r.focus == (Focus { stack_index: 0, note_index: 0 }),
            r.state == EditState::Browsing,
            r.cursor == 0,
    {
        let stacks = vec![Stack::new(vec![Stickynote::new(String::new())])];
        proof {
            lemma_total_single(stacks@[0]);
            assert(stacks@ =~= seq![stacks@[0]]);
        }
        App { stacks, focus: Focus { stack_index: 0, note_index: 0 }, state: EditState::Browsing, cursor: 0 }
    }

    /// A browsing session over `stacks` focused on `focus`, if the stacks
    /// form a valid board and the focus names one of its notes.
    pub fn from_stacks(stacks: Vec<Stack>, focus: Focus) -> (r: Option<App>)
        ensures
            r is Some <==> (stacks@.len() >= 1 && stacks_nonempty(stacks@) && focus_in(
                stacks@,
                focus,
            ) && total_of(stacks@) <= usize::MAX),
            r matches Some(a) ==> a.wf() && a.stacks@ == stacks@ && a.focus == focus
                && a.state == EditState::Browsing && a.cursor == 0,
    {
        let n = stacks.len();
        if n == 0 {
            return None;
        }
        let mut i: usize = 0;
        let mut total: usize = 0;
        while i < n
            invariant
                n == stacks@.len(),
                i <= n,
                total == total_of(stacks@.take(i as int)),
                forall|k: int| 0 <= k < i ==> #[trigger] stacks@[k].notes@.len() >= 1,
            decreases n - i,
        {
            proof {
                assert(stacks@.take(i + 1).drop_last() =~= stacks@.take(i as int));
            }
            if stacks[i].notes.len() == 0 {
                return None;
            }
            match total.checked_add(stacks[i].notes.len()) {
                Some(t) => total = t,
                None => {
                    proof {
                        let s = stacks@;
                        assert(s =~= s.take(i + 1) + s.skip(i + 1));
                        lemma_total_concat(s.take(i + 1), s.skip(i + 1));
                        lemma_total_nonneg(s.skip(i + 1));
                    }
                    return None;
                },
            }
            i = i + 1;
        }
        proof {
            assert(stacks@.take(i as int) =~= stacks@);
        }
        if focus.stack_index >= n || focus.note_index >= stacks[focus.stack_index].notes.len() {
            return None;
        }
        Some(App { stacks, focus, state: EditState::Browsing, cursor: 0 })
    }

    /// Number of notes over all stacks.
    pub fn total_notes(&self) -> (r: usize)
        requires
            total_of(self.stacks@) <= usize::MAX,
        ensures
            r == total_of(self.stacks@),
    {
        let mut total: usize = 0;
        let mut i: usize = 0;
        while i < self.stacks.len()
            invariant
                i <= self.stacks@.len(),
                total == total_of(self.stacks@.take(i as int)),
                total_of(self.stacks@) <= usize::MAX,
            decreases self.stacks@.len() - i,
        {
            proof {
                let s = self.stacks@;
                assert(s.take(i + 1).drop_last() =~= s.take(i as int));
                assert(s =~= s.take(i + 1) + s.skip(i + 1));
                lemma_total_concat(s.take(i + 1), s.skip(i + 1));
                lemma_total_nonneg(s.skip(i + 1));
            }
            total = total + self.stacks[i].notes.len();
            i = i + 1;
        }
        proof {
            assert(self.stacks@.take(i as int) =~= self.stacks@);
        }
        total
    }

    /// The note count of each stack, left to right.
    pub fn stack_sizes(&self) -> (r: Vec<usize>)
        ensures
            r@.len() == self.stacks@.len(),
            forall|i: int| 0 <= i < r@.len() ==> #[trigger] r@[i] == self.stack_len(i),
    {
        let mut r: Vec<usize> = Vec::new();
        let mut i: usize = 0;
        while i < self.stacks.len()
            invariant
                i <= self.stacks@.len(),
                r@.len() == i,
                forall|k: int| 0 <= k < i ==> #[trigger] r@[k] == self.stack_len(k),
            decreases self.stacks@.len() - i,
        {
            r.push(self.stacks[i].notes.len());
            i = i + 1;
        }
        r
    }

    /// `new` is `old` with a stack of one empty note put right after the
    /// focused stack; focus, state and cursor stay.
    pub open spec fn stack_added(old: App, new: App) -> bool {
        let at = old.focus.stack_index + 1;
        &&& new.stacks@ == old.stacks@.insert(at, new.stacks@[at])
        &&& is_blank_stack(new.stacks@[at])
        &&& new.focus == old.focus
        &&& new.state == old.state
        &&& new.cursor == old.cursor
    }

    /// `new` is `old` with one empty note put at the end of the focused
    /// stack; focus, state and cursor stay.
    pub open spec fn note_added(old: App, new: App) -> bool {
        let si = old.focus.stack_index as int;
        &&& new.stacks@ == old.stacks@.update(si, new.stacks@[si])
        &&& new.stacks@[si].notes@ == old.stacks@[si].notes@.push(new.stacks@[si].notes@.last())
        &&& new.stacks@[si].notes@.last().text@.len() == 0
        &&& new.focus == old.focus
        &&& new.state == old.state
        &&& new.cursor == old.cursor
    }

    /// `new` is `old` after deleting the focused note. When it is the only
    /// note, its text is cleared instead. Otherwise it leaves its stack, a
    /// stack left empty leaves the board, and the focus is clamped to the
    /// new shape. State and cursor stay.
    pub open spec fn note_deleted(old: App, new: App) -> bool {
        let si = old.focus.stack_index as int;
        let ni = old.focus.note_index as int;
        &&& new.state == old.state
        &&& new.cursor == old.cursor
        &&& if old.total() == 1 {
            &&& new.stacks@ == old.stacks@.update(si, new.stacks@[si])
            &&& new.stacks@[si].notes@ == old.stacks@[si].notes@.update(ni, new.focused())
            &&& new.focused().text@.len() == 0
            &&& new.focus == old.focus
        } else {
            &&& if old.stack_len(si) == 1 {
                new.stacks@ == old.stacks@.remove(si)
            } else {
                &&& new.stacks@ == old.stacks@.update(si, new.stacks@[si])
                &&& new.stacks@[si].notes@ == old.stacks@[si].notes@.remove(ni)
            }
            &&& new.focus.stack_index == clamp_index(si, new.stacks@.len() as int)
            &&& new.focus.note_index == clamp_index(
                ni,
                new.stack_len(new.focus.stack_index as int),
            )
        }
    }

    /// Inserts a stack holding one empty note right after the focused stack.
    pub fn new_stack(&mut self)
        requires
            old(self).wf(),
            old(self).total() < usize::MAX,
        ensures
            final(self).wf(),
            final(self).total() == old(self).total() + 1,
            App::stack_added(*old(self), *final(self)),
    {
        let n = self.stacks.len();
        let at = self.focus.stack_index + 1;
        let blank = Stack::new(vec![Stickynote::new(String::new())]);
        proof {
            lemma_total_insert(self.stacks@, at as int, blank);
        }
        self.stacks.insert(at, blank);
        proof {
            assert(self.stacks@[at as int] == blank);
            assert forall|i: int| 0 <= i < self.stacks@.len() implies #[trigger] self.stacks@[i].notes@.len() >= 1 by {
                if i > at {
                    assert(self.stacks@[i] == old(self).stacks@[i - 1]);
                }
            }
        }
    }

    /// Appends one empty note to the end of the focused stack.
    pub fn add_to_stack(&mut self)
        requires
            old(self).wf(),
            old(self).total() < usize::MAX,
        ensures
            final(self).wf(),
            final(self).total() == old(self).total() + 1,
            App::note_added(*old(self), *final(self)),
    {
        let si = self.focus.stack_index;
        let ghost s0 = self.stacks@;
        self.stacks[si].notes.push(Stickynote::new(String::new()));
        proof {
            lemma_total_update(s0, si as int, self.stacks@[si as int]);
            assert(self.stacks@ =~= s0.update(si as int, self.stacks@[si as int]));
        }
    }

    /// Deletes the focused note; see `note_deleted`. The board never loses
    /// its last note: that note's text is cleared instead.
    pub fn delete_focused_note(&mut self)
        requires
            old(self).wf(),
        ensures
            final(self).wf(),
            App::note_deleted(*old(self), *final(self)),
            old(self).total() == 1 ==> final(self).total() == 1,
            old(self).total() > 1 ==> final(self).total() == old(self).total() - 1,
    {
        let ghost s0 = self.stacks@;
        let si = self.focus.stack_index;
        let ni = self.focus.note_index;
        proof {
            lemma_total_split_at_focus(s0, si as int);
        }
        if self.total_notes() == 1 {
            let note = self.get_focused_note();
            note.text = String::new();
            proof {
                lemma_total_update(s0, si as int, self.stacks@[si as int]);
                assert(self.stacks@ =~= s0.update(si as int, self.stacks@[si as int]));
            }
            return;
        }
        self.stacks[si].notes.remove(ni);
        proof {
            lemma_total_update(s0, si as int, self.stacks@[si as int]);
        }
        let ghost s1 = self.stacks@;
        if self.stacks[si].notes.len() == 0 {
            self.stacks.remove(si);
            proof {
                lemma_total_remove(s1, si as int);
                assert(self.stacks@ =~= s0.remove(si as int));
            }
        } else {
            proof {
                assert(self.stacks@ =~= s0.update(si as int, self.stacks@[si as int]));
            }
        }
        self.normalize_focus();
    }

    /// Clamps the focus into the board's current shape: each index moves to
    /// the last valid one when it lies beyond it.
    fn normalize_focus(&mut self)
        requires
            old(self).stacks@.len() >= 1,
            stacks_nonempty(old(self).stacks@),
        ensures
            final(self).stacks == old(self).stacks,
            final(self).state == old(self).state,
            final(self).cursor == old(self).cursor,
            final(self).focus.stack_index == clamp_index(
                old(self).focus.stack_index as int,
                old(self).stacks@.len() as int,
            ),
            final(self).focus.note_index == clamp_index(
                old(self).focus.note_index as int,
                final(self).stack_len(final(self).focus.stack_index as int),
            ),
    {
        let n = self.stacks.len();
        if self.focus.stack_index > n - 1 {
            self.focus.stack_index = n - 1;
        }
        let m = self.stacks[self.focus.stack_index].notes.len();
        if self.focus.note_index > m - 1 {
            self.focus.note_index = m - 1;
        }
    }

    /// The focus after moving left: none at the first stack, else one stack
    /// left with the note index clamped to that stack.
    pub open spec fn focus_left(&self) -> Focus {
        let si = self.focus.stack_index as int;
        if si == 0 {
            self.focus
        } else {
            Focus {
                stack_index: (si - 1) as usize,
                note_index: clamp_index(self.focus.note_index as int, self.stack_len(si - 1))
                    as usize,
            }
        }
    }

    /// The focus after moving right: none at the last stack, else one stack
    /// right with the note index clamped to that stack.
    pub open spec fn focus_right(&self) -> Focus {
        let si = self.focus.stack_index as int;
        if si == self.stacks@.len() - 1 {
            self.focus
        } else {
            Focus {
                stack_index: (si + 1) as usize,
                note_index: clamp_index(self.focus.note_index as int, self.stack_len(si + 1))
                    as usize,
            }
        }
    }

    /// The focus after moving down, wrapping from the last note to the first.
    pub open spec fn focus_down(&self) -> Focus {
        let ni = self.focus.note_index as int;
        Focus {
            stack_index: self.focus.stack_index,
            note_index: if ni == self.stack_len(self.focus.stack_index as int) - 1 {
                0
            } else {
                (ni + 1) as usize
            },
        }
    }

    /// The focus after moving up, wrapping from the first note to the last.
    pub open spec fn focus_up(&self) -> Focus {
        let ni = self.focus.note_index as int;
        Focus {
            stack_index: self.focus.stack_index,
            note_index: if ni == 0 {
                (self.stack_len(self.focus.stack_index as int) - 1) as usize
            } else {
                (ni - 1) as usize
            },
        }
    }

    /// Moves the focus to the stack on the left; at the first stack nothing
    /// changes.
    pub fn move_left(&mut self)
        requires
            old(self).wf(),
        ensures
            final(self).wf(),
            *final(self) == old(self).with_focus(old(self).focus_left()),
            old(self).focus.stack_index == 0 ==> *final(self) == *old(self),
    {
        let si = self.focus.stack_index;
        if si == 0 {
            return;
        }
        let len = self.stacks[si - 1].notes.len();
        if self.focus.note_index > len - 1 {
            self.focus.note_index = len - 1;
        }
        self.focus.stack_index = si - 1;
    }

    /// Moves the focus to the stack on the right; at the last stack nothing
    /// changes.
    pub fn move_right(&mut self)
        requires
            old(self).wf(),
        ensures
            final(self).wf(),
            *final(self) == old(self).with_focus(old(self).focus_right()),
            old(self).focus.stack_index == old(self).stacks@.len() - 1 ==> *final(self) == *old(
                self,
            ),
    {
        let si = self.focus.stack_index;
        if si == self.stacks.len() - 1 {
            return;
        }
        let len = self.stacks[si + 1].notes.len();
        if self.focus.note_index > len - 1 {
            self.focus.note_index = len - 1;
        }
        self.focus.stack_index = si + 1;
    }

    /// Moves the focus one note down its stack, from the last note to the
    /// first.
    pub fn move_down(&mut self)
        requires
            old(self).wf(),
        ensures
            final(self).wf(),
            *final(self) == old(self).with_focus(old(self).focus_down()),
            old(self).focus.note_index == old(self).stack_len(old(self).focus.stack_index as int)
                - 1 ==> final(self).focus.note_index == 0,
    {
        let len = self.stacks[self.focus.stack_index].notes.len();
        if self.focus.note_index == len - 1 {
            self.focus.note_index = 0;
        } else {
            self.focus.note_index = self.focus.note_index + 1;
        }
    }

    /// Moves the focus one note up its stack, from the first note to the
    /// last.
    pub fn move_up(&mut self)
        requires
            old(self).wf(),
        ensures
            final(self).wf(),
            *final(self) == old(self).with_focus(old(self).focus_up()),
            old(self).focus.note_index == 0 ==> final(self).focus.note_index == old(self).stack_len(
                old(self).focus.stack_index as int,
            ) - 1,
    {
        let len = self.stacks[self.focus.stack_index].notes.len();
        if self.focus.note_index == 0 {
            self.focus.note_index = len - 1;
        } else {
            self.focus.note_index = self.focus.note_index - 1;
        }
    }

    /// `new` is `old` with the focused note's text replaced by `t`; focus
    /// and state stay.
    pub open spec fn text_replaced(old: App, new: App, t: Seq<char>) -> bool {
        let si = old.focus.stack_index as int;
        let ni = old.focus.note_index as int;
        &&& new.stacks@ == old.stacks@.update(si, new.stacks@[si])
        &&& new.stacks@[si].notes@ == old.stacks@[si].notes@.update(ni, new.focused())
        &&& new.focused().text@ == t
        &&& new.focus == old.focus
        &&& new.state == old.state
    }

    /// `new` is `old` with `c` inserted at the cursor of the focused note,
    /// and the cursor just past it.
    pub open spec fn char_inserted(old: App, new: App, c: char) -> bool {
        let t = old.focused().text@;
        let at = old.text_cursor();
        &&& App::text_replaced(old, new, t.take(at).push(c) + t.skip(at))
        &&& new.cursor == at + 1
    }

    /// `new` is `old` with the character before the cursor removed from the
    /// focused note, and the cursor one back; unchanged at the start of the
    /// text.
    pub open spec fn char_removed(old: App, new: App) -> bool {
        let t = old.focused().text@;
        let at = old.text_cursor();
        if at == 0 {
            new == old
        } else {
            &&& App::text_replaced(old, new, t.take(at - 1) + t.skip(at))
            &&& new.cursor == at - 1
        }
    }

    /// `new` is `old` in `state`; entering insert mode puts the cursor at the
    /// end of the focused note's text.
    pub open spec fn switched(old: App, new: App, state: EditState) -> bool {
        &&& new.stacks == old.stacks
        &&& new.focus == old.focus
        &&& new.state == state
        &&& new.cursor == if state == EditState::Editing(SubMode::Insert) {
            old.focused().text@.len() as usize
        } else {
            old.cursor
        }
    }

    /// `new` is `old` after `a`.
    pub open spec fn applied(old: App, new: App, a: Action) -> bool {
        match a {
            Action::Quit | Action::Ignore => new == old,
            Action::AddNote => App::note_added(old, new),
            Action::NewStack => App::stack_added(old, new),
            Action::DeleteNote => App::note_deleted(old, new),
            Action::MoveLeft => new == old.with_focus(old.focus_left()),
            Action::MoveRight => new == old.with_focus(old.focus_right()),
            Action::MoveUp => new == old.with_focus(old.focus_up()),
            Action::MoveDown => new == old.with_focus(old.focus_down()),
            Action::Switch(s) => App::switched(old, new, s),
            Action::InsertChar(c) => App::char_inserted(old, new, c),
            Action::DeleteBack => App::char_removed(old, new),
        }
    }

    /// The note count after `a` on a board of `total` notes.
    pub open spec fn total_after(total: int, a: Action) -> int {
        match a {
            Action::AddNote | Action::NewStack => total + 1,
            Action::DeleteNote => if total == 1 {
                1
            } else {
                total - 1
            },
            _ => total,
        }
    }

    /// Carries out `a` on the session.
    pub fn apply(&mut self, a: Action)
        requires
            old(self).wf(),
            old(self).total() < usize::MAX,
        ensures
            final(self).wf(),
            final(self).total() == App::total_after(old(self).total(), a),
            App::applied(*old(self), *final(self), a),
    {
        proof {
            lemma_board_invariants(*self);
        }
        match a {
            Action::Quit | Action::Ignore => {},
            Action::AddNote => self.add_to_stack(),
            Action::NewStack => self.new_stack(),
            Action::DeleteNote => self.delete_focused_note(),
            Action::MoveLeft => self.move_left(),
            Action::MoveRight => self.move_right(),
            Action::MoveUp => self.move_up(),
            Action::MoveDown => self.move_down(),
            Action::Switch(s) => self.switch_to(s),
            Action::InsertChar(c) => self.insert_char(c),
            Action::DeleteBack => self.delete_back(),
        }
    }

    /// Handles one key press: looks up its action for the current state and
    /// carries it out. Returns false when the key asks to quit.
    pub fn handle_key(&mut self, key: Key) -> (running: bool)
        requires
            old(self).wf(),
            old(self).total() < usize::MAX,
        ensures
            final(self).wf(),
            final(self).total() == App::total_after(old(self).total(), action_of(old(self).state, key)),
            running == (action_of(old(self).state, key) != Action::Quit),
            App::applied(*old(self), *final(self), action_of(old(self).state, key)),
            final(self).state == next_state(old(self).state, key),
    {
        let a = action_for(self.state, key);
        self.apply(a);
        match a {
            Action::Quit => false,
            _ => true,
        }
    }

    /// Replaces the focused note's text, keeping the board's shape.
    fn set_focused_text(&mut self, t: String)
        requires
            old(self).wf(),
        ensures
            final(self).wf(),
            final(self).total() == old(self).total(),
            final(self).cursor == old(self).cursor,
            App::text_replaced(*old(self), *final(self), t@),
    {
        let ghost s0 = self.stacks@;
        let si = self.focus.stack_index;
        let note = self.get_focused_note();
        note.text = t;
        proof {
            lemma_total_update(s0, si as int, self.stacks@[si as int]);
            assert(self.stacks@ =~= s0.update(si as int, self.stacks@[si as int]));
        }
    }

    /// The cursor held within the focused note's text.
    fn clamped_cursor(&self) -> (r: usize)
        requires
            self.wf(),
        ensures
            r == self.text_cursor(),
    {
        let len = char_count(&self.stacks[self.focus.stack_index].notes[self.focus.note_index].text);
        if self.cursor <= len {
            self.cursor
        } else {
            len
        }
    }

    /// Inserts `c` into the focused note at the cursor and moves the cursor
    /// past it.
    pub fn insert_char(&mut self, c: char)
        requires
            old(self).wf(),
        ensures
            final(self).wf(),
            final(self).total() == old(self).total(),
            App::char_inserted(*old(self), *final(self), c),
    {
        let pos = self.clamped_cursor();
        let t = insert_char_at(
            &self.stacks[self.focus.stack_index].notes[self.focus.note_index].text,
            pos,
            c,
        );
        // Counting the new text bounds its length, and so the cursor past the
        // inserted character, by usize::MAX.
        let _new_len = char_count(&t);
        self.set_focused_text(t);
        self.cursor = pos + 1;
    }

    /// Removes the character before the cursor from the focused note and
    /// moves the cursor back; at the start of the text nothing changes.
    pub fn delete_back(&mut self)
        requires
            old(self).wf(),
        ensures
            final(self).wf(),
            final(self).total() == old(self).total(),
            App::char_removed(*old(self), *final(self)),
    {
        let pos = self.clamped_cursor();
        if pos == 0 {
            return;
        }
        let t = remove_char_before(
            &self.stacks[self.focus.stack_index].notes[self.focus.note_index].text,
            pos,
        );
        self.set_focused_text(t);
        self.cursor = pos - 1;
    }

    /// Enters `state`; entering insert mode puts the cursor at the end of the
    /// focused note's text.
    pub fn switch_to(&mut self, state: EditState)
        requires
            old(self).wf(),
        ensures
            final(self).wf(),
            App::switched(*old(self), *final(self), state),
    {
        self.state = state;
        if state == EditState::Editing(SubMode::Insert) {
            self.cursor = char_count(&self.stacks[self.focus.stack_index].notes[self.focus.note_index].text);
        }
    }

    /// A mutable borrow of the focused note; the rest of the board stays.
    pub fn get_focused_note(&mut self) -> (r: &mut Stickynote)
        requires
            old(self).wf(),
        ensures
            *r == old(self).focused(),
            final(self).focus == old(self).focus,
            final(self).state == old(self).state,
            final(self).cursor == old(self).cursor,
            final(self).stacks@.len() == old(self).stacks@.len(),
            forall|i: int|
                0 <= i < old(self).stacks@.len() && i != old(self).focus.stack_index
                    ==> #[trigger] final(self).stacks@[i] == old(self).stacks@[i],
            final(self).stacks@[old(self).focus.stack_index as int].notes@ == old(
                self,
            ).stacks@[old(self).focus.stack_index as int].notes@.update(
                old(self).focus.note_index as int,
                *final(r),
            ),
    {
        let si = self.focus.stack_index;
        let ni = self.focus.note_index;
        &mut self.stacks[si].notes[ni]
    }
}

/// On every well-formed board, which every constructor and every key press
/// leaves behind, there is at least one note and the focus names an existing
/// note.
pub proof fn lemma_board_invariants(app: App)
    requires
        app.wf(),
    ensures
        app.total() >= 1,
        app.focus.stack_index < app.stacks@.len(),
        app.focus.note_index < app.stack_len(app.focus.stack_index as int),
{
    lemma_total_split_at_focus(app.stacks@, app.focus.stack_index as int);
}

/// Deleting on a board that holds a single note, and deleting again, keeps
/// one stack holding one note, whose text is empty.
pub proof fn lemma_delete_sole_note(a: App, b: App, c: App)
    requires
        a.wf(),
        a.total() == 1,
        App::note_deleted(a, b),
        App::note_deleted(b, c),
    ensures
        b.total() == 1,
        c.total() == 1,
        b.stacks@.len() == 1 && b.stack_len(0) == 1,
        c.stacks@.len() == 1 && c.stack_len(0) == 1,
        b.focused().text@.len() == 0,
        c.focused().text@.len() == 0,
{
    let si = a.focus.stack_index as int;
    lemma_total_split_at_focus(a.stacks@, si);
    lemma_total_update(a.stacks@, si, b.stacks@[si]);
    assert(b.wf());
    lemma_total_split_at_focus(b.stacks@, si);
    lemma_total_update(b.stacks@, si, c.stacks@[si]);
}

/// Moving down from the last note of a stack comes to its first note, and
/// moving up from the first note comes to its last.
pub proof fn lemma_vertical_wrap(app: App)
    requires
        app.wf(),
    ensures
        app.focus.note_index == app.stack_len(app.focus.stack_index as int) - 1
            ==> app.focus_down().note_index == 0,
        app.focus.note_index == 0 ==> app.focus_up().note_index == app.stack_len(
            app.focus.stack_index as int,
        ) - 1,
{
    lemma_total_split_at_focus(app.stacks@, app.focus.stack_index as int);
}

/// With every stack non-empty, a board whose total is one has a single
/// stack; a focused stack of one note then leaves others behind when the
/// total is larger.
proof fn lemma_total_split_at_focus(s: Seq<Stack>, i: int)
    requires
        0 <= i < s.len(),
        stacks_nonempty(s),
    ensures
        s[i].notes@.len() <= total_of(s),
        s.len() > 1 ==> total_of(s) > s[i].notes@.len(),
{
    crate::notes::lemma_total_split(s, i);
    lemma_total_nonneg(s.take(i));
    lemma_total_nonneg(s.skip(i + 1));
    if s.len() > 1 {
        let j = if i == 0 { 1 } else { 0 };
        assert(s[j].notes@.len() >= 1);
        if j < i {
            crate::notes::lemma_total_split(s.take(i), j);
            assert(s.take(i)[j] == s[j]);
            lemma_total_nonneg(s.take(i).take(j));
            lemma_total_nonneg(s.take(i).skip(j + 1));
        } else {
            crate::notes::lemma_total_split(s.skip(i + 1), 0);
            assert(s.skip(i + 1)[0] == s[j]);
            lemma_total_nonneg(s.skip(i + 1).take(0));
            lemma_total_nonneg(s.skip(i + 1).skip(1));
        }
    }
}

} // verus!
