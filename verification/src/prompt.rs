//! A one-line editor for text typed at the bottom of the screen.
//!
//! The editor keeps the submitted texts as history. `Up` and `Down` walk
//! through the history; the position behind the last entry stands for the
//! new, empty text.

use crate::command::{Key, KeyEvent};
use vstd::prelude::*;
use vstd::slice::slice_to_vec;

verus! {

/// What a key press did to the prompt.
#[derive(Debug, PartialEq, Eq)]
pub enum PromptResult {
    /// The prompt stays open.
    Editing,
    /// The text was submitted.
    Submitted(Vec<u8>),
    /// The prompt was left without submitting.
    Cancelled,
}

/// The texts of a history as sequences.
pub open spec fn history_view(history: Seq<Vec<u8>>) -> Seq<Seq<u8>> {
    Seq::new(history.len(), |i: int| history[i]@)
}

/// The text shown at position `recall` of `history`: the entry there, or
/// the empty text behind the last entry.
pub open spec fn recalled_text(history: Seq<Seq<u8>>, recall: int) -> Seq<u8> {
    if 0 <= recall < history.len() {
        history[recall]
    } else {
        Seq::empty()
    }
}

/// `history` after `text` was submitted: empty texts are not recorded.
pub open spec fn history_after_submit(history: Seq<Seq<u8>>, text: Seq<u8>) -> Seq<Seq<u8>> {
    if text.len() > 0 {
        history.push(text)
    } else {
        history
    }
}

/// The state of the editor as a mathematical value.
pub struct PromptView {
    /// The text being edited.
    pub text: Seq<u8>,
    /// Offset of the cursor in the text.
    pub cursor: int,
    /// The submitted texts, oldest first.
    pub history: Seq<Seq<u8>>,
    /// Position in the history that `Up` and `Down` have reached.
    pub recall: int,
}

/// An empty prompt behind the last entry of `history`.
pub open spec fn cleared(history: Seq<Seq<u8>>) -> PromptView {
    PromptView { text: Seq::empty(), cursor: 0, history, recall: history.len() as int }
}

/// `p` showing the text at position `recall` of its history, with the
/// cursor at its end.
pub open spec fn recalled(p: PromptView, recall: int) -> PromptView {
    PromptView {
        text: recalled_text(p.history, recall),
        cursor: recalled_text(p.history, recall).len() as int,
        recall,
        ..p
    }
}

/// Whether `key` submits the prompt: a plain `Enter`.
pub open spec fn key_submits(key: KeyEvent) -> bool {
    key.key == Key::Enter && !key.ctrl && !key.alt
}

/// Whether `key` cancels the prompt: a plain `Escape`, or Control-C.
pub open spec fn key_cancels(key: KeyEvent) -> bool {
    (key.key == Key::Escape && !key.ctrl && !key.alt) || (key.key == Key::Char(99) && key.ctrl
        && !key.alt)
}

/// The prompt after a key press.
///
/// `Enter` records the text in the history and empties the prompt;
/// `Escape` and Control-C empty it. Any other key with Control or Alt is
/// ignored. A character is inserted at the cursor; `Backspace` and
/// `Delete` remove the byte before and at the cursor; `Left`, `Right`,
/// `Home` and `End` move the cursor; `Up` and `Down` walk through the
/// history. Every other key is ignored.
pub open spec fn after_key(p: PromptView, key: KeyEvent) -> PromptView {
    if key_submits(key) {
        cleared(history_after_submit(p.history, p.text))
    } else if key_cancels(key) {
        cleared(p.history)
    } else if key.ctrl || key.alt {
        p
    } else {
        match key.key {
            Key::Char(b) => PromptView { text: p.text.insert(p.cursor, b), cursor: p.cursor + 1, ..p },
            Key::Backspace => if p.cursor > 0 {
                PromptView { text: p.text.remove(p.cursor - 1), cursor: p.cursor - 1, ..p }
            } else {
                p
            },
            Key::Delete => if p.cursor < p.text.len() {
                PromptView { text: p.text.remove(p.cursor), ..p }
            } else {
                p
            },
            Key::Left => if p.cursor > 0 {
                PromptView { cursor: p.cursor - 1, ..p }
            } else {
                p
            },
            Key::Right => if p.cursor < p.text.len() {
                PromptView { cursor: p.cursor + 1, ..p }
            } else {
                p
            },
            Key::Home => PromptView { cursor: 0, ..p },
            Key::End => PromptView { cursor: p.text.len() as int, ..p },
            Key::Up => if p.recall > 0 {
                recalled(p, p.recall - 1)
            } else {
                p
            },
            Key::Down => if p.recall < p.history.len() {
                recalled(p, p.recall + 1)
            } else {
                p
            },
            _ => p,
        }
    }
}

/// The editor.
pub struct Prompt {
    text: Vec<u8>,
    cursor: usize,
    history: Vec<Vec<u8>>,
    recall: usize,
}

impl View for Prompt {
    type V = PromptView;

    open spec fn view(&self) -> PromptView {
        PromptView {
            text: self.text(),
            cursor: self.cursor(),
            history: self.history(),
            recall: self.recall(),
        }
    }
}

impl Prompt {
    /// The text being edited.
    pub closed spec fn text(&self) -> Seq<u8> {
        self.text@
    }

    /// Offset of the cursor in the text.
    pub closed spec fn cursor(&self) -> int {
        self.cursor as int
    }

    /// The submitted texts, oldest first.
    pub closed spec fn history(&self) -> Seq<Seq<u8>> {
        history_view(self.history@)
    }

    /// Position in the history that `Up` and `Down` have reached.
    pub closed spec fn recall(&self) -> int {
        self.recall as int
    }

    /// The cursor lies within the text and the recall position within the
    /// history or directly behind it.
    pub closed spec fn wf(&self) -> bool {
        self.cursor <= self.text@.len() && self.recall <= self.history@.len()
    }

    /// What `wf` says, over the public view.
    pub proof fn lemma_wf(&self)
        requires
            self.wf(),
        ensures
            0 <= self.cursor() <= self.text().len(),
            0 <= self.recall() <= self.history().len(),
    {
    }

    /// An empty prompt without history.
    pub fn new() -> (prompt: Prompt)
        ensures
            prompt.wf(),
            prompt.text() == Seq::<u8>::empty(),
            prompt.cursor() == 0,
            prompt.history() == Seq::<Seq<u8>>::empty(),
            prompt.recall() == 0,
    {
        let prompt = Prompt { text: Vec::new(), cursor: 0, history: Vec::new(), recall: 0 };
        assert(prompt.history() == Seq::<Seq<u8>>::empty());
        prompt
    }

    /// A copy of the text being edited.
    pub fn content(&self) -> (text: Vec<u8>)
        ensures
            text@ == self.text(),
    {
        slice_to_vec(self.text.as_slice())
    }

    /// Offset of the cursor in the text.
    pub fn cursor_position(&self) -> (cursor: usize)
        ensures
            cursor == self.cursor(),
    {
        self.cursor
    }

    /// Number of texts in the history.
    pub fn history_len(&self) -> (n: usize)
        ensures
            n == self.history().len(),
    {
        self.history.len()
    }

    /// Inserts `b` at the cursor and moves the cursor behind it.
    pub fn insert(&mut self, b: u8)
        requires
            old(self).wf(),
        ensures
            final(self).wf(),
            final(self).text() == old(self).text().insert(old(self).cursor(), b),
            final(self).cursor() == old(self).cursor() + 1,
            final(self).history() == old(self).history(),
            final(self).recall() == old(self).recall(),
    {
        self.text.insert(self.cursor, b);
        let len = self.text.len();
        assert(self.cursor < len);
        self.cursor = self.cursor + 1;
    }

    /// Removes the byte before the cursor, if there is one.
    pub fn backspace(&mut self)
        requires
            old(self).wf(),
        ensures
            final(self).wf(),
            final(self).text() == if old(self).cursor() > 0 {
                old(self).text().remove(old(self).cursor() - 1)
            } else {
                old(self).text()
            },
            final(self).cursor() == if old(self).cursor() > 0 {
                old(self).cursor() - 1
            } else {
                0
            },
            final(self).history() == old(self).history(),
            final(self).recall() == old(self).recall(),
    {
        if self.cursor > 0 {
            self.cursor = self.cursor - 1;
            self.text.remove(self.cursor);
        }
    }

    /// Removes the byte at the cursor, if there is one.
    pub fn delete(&mut self)
        requires
            old(self).wf(),
        ensures
            final(self).wf(),
            final(self).text() == if old(self).cursor() < old(self).text().len() {
                old(self).text().remove(old(self).cursor())
            } else {
                old(self).text()
            },
            final(self).cursor() == old(self).cursor(),
            final(self).history() == old(self).history(),
            final(self).recall() == old(self).recall(),
    {
        if self.cursor < self.text.len() {
            self.text.remove(self.cursor);
        }
    }

    /// Moves the cursor to `position`, or to the end of the text if
    /// `position` lies behind it.
    pub fn move_to(&mut self, position: usize)
        requires
            old(self).wf(),
        ensures
            final(self).wf(),
            final(self).cursor() == if position <= old(self).text().len() {
                position as int
            } else {
                old(self).text().len() as int
            },
            final(self).text() == old(self).text(),
            final(self).history() == old(self).history(),
            final(self).recall() == old(self).recall(),
    {
        self.cursor = if position <= self.text.len() {
            position
        } else {
            self.text.len()
        };
    }

    /// Shows the text at position `recall` of the history, with the cursor
    /// at its end. A position behind the history counts as the one
    /// directly behind its last entry.
    pub fn recall_at(&mut self, recall: usize)
        requires
            old(self).wf(),
        ensures
            final(self).wf(),
            final(self).recall() == if recall <= old(self).history().len() {
                recall as int
            } else {
                old(self).history().len() as int
            },
            final(self).text() == recalled_text(old(self).history(), final(self).recall()),
            final(self).cursor() == final(self).text().len(),
            final(self).history() == old(self).history(),
    {
        let n = self.history.len();
        if recall < n {
            self.text = slice_to_vec(self.history[recall].as_slice());
            self.recall = recall;
        } else {
            self.text = Vec::new();
            self.recall = n;
        }
        self.cursor = self.text.len();
    }

    /// Takes the text out of the prompt and records it in the history,
    /// unless it is empty. The prompt is left empty, behind the history.
    pub fn submit(&mut self) -> (text: Vec<u8>)
        requires
            old(self).wf(),
        ensures
            final(self).wf(),
            text@ == old(self).text(),
            final(self).text() == Seq::<u8>::empty(),
            final(self).cursor() == 0,
            final(self).history() == history_after_submit(old(self).history(), old(self).text()),
            final(self).recall() == final(self).history().len(),
    {
        let text = slice_to_vec(self.text.as_slice());
        if self.text.len() > 0 {
            let entry = slice_to_vec(self.text.as_slice());
            self.history.push(entry);
            assert(self.history() == old(self).history().push(old(self).text()));
        }
        self.text = Vec::new();
        self.cursor = 0;
        self.recall = self.history.len();
        text
    }

    /// Empties the prompt; the history stays as it is.
    pub fn cancel(&mut self)
        requires
            old(self).wf(),
        ensures
            final(self).wf(),
            final(self).text() == Seq::<u8>::empty(),
            final(self).cursor() == 0,
            final(self).history() == old(self).history(),
            final(self).recall() == final(self).history().len(),
    {
        self.text = Vec::new();
        self.cursor = 0;
        self.recall = self.history.len();
    }

    /// Applies one key press and says whether it submitted the text,
    /// cancelled the prompt or left it open.
    pub fn handle_key(&mut self, key: KeyEvent) -> (result: PromptResult)
        requires
            old(self).wf(),
        ensures
            final(self).wf(),
            final(self)@ == after_key(old(self)@, key),
            match result {
                PromptResult::Submitted(text) => key_submits(key) && text@ == old(self)@.text,
                PromptResult::Cancelled => key_cancels(key),
                PromptResult::Editing => !key_submits(key) && !key_cancels(key),
            },
    {
        if key.ctrl || key.alt {
            return match key.key {
                Key::Char(99) => if key.ctrl && !key.alt {
                    self.cancel();
                    PromptResult::Cancelled
                } else {
                    PromptResult::Editing
                },
                _ => PromptResult::Editing,
            };
        }
        match key.key {
            Key::Enter => PromptResult::Submitted(self.submit()),
            Key::Escape => {
                self.cancel();
                PromptResult::Cancelled
            },
            Key::Char(b) => {
                self.insert(b);
                PromptResult::Editing
            },
            Key::Backspace => {
                self.backspace();
                PromptResult::Editing
            },
            Key::Delete => {
                self.delete();
                PromptResult::Editing
            },
            Key::Left => {
                if self.cursor > 0 {
                    self.move_to(self.cursor - 1);
                }
                PromptResult::Editing
            },
            Key::Right => {
                if self.cursor < self.text.len() {
                    self.move_to(self.cursor + 1);
                }
                PromptResult::Editing
            },
            Key::Home => {
                self.move_to(0);
                PromptResult::Editing
            },
            Key::End => {
                self.move_to(self.text.len());
                PromptResult::Editing
            },
            Key::Up => {
                if self.recall > 0 {
                    self.recall_at(self.recall - 1);
                }
                PromptResult::Editing
            },
            Key::Down => {
                if self.recall < self.history.len() {
                    self.recall_at(self.recall + 1);
                }
                PromptResult::Editing
            },
            _ => PromptResult::Editing,
        }
    }
}

} // verus!
