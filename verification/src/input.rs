//! The prompt line: a text buffer with a cursor and a recallable history.
//!
//! The cursor is a byte offset into the buffer that always stands between
//! two characters. Contracts speak of [`InputView`], which counts it in
//! characters instead.

use vstd::prelude::*;

use crate::text::{
    byte_len, bytes_in, chars_of, lemma_byte_len_prefix, push_text, string_of, texts, width_of,
};

verus! {

/// What the prompt line holds.
#[verifier::ext_equal]
pub struct InputView {
    /// Characters of the buffer.
    pub text: Seq<char>,
    /// Number of characters before the cursor.
    pub at: int,
    /// Submitted lines, oldest first.
    pub history: Seq<Seq<char>>,
    /// Entry of the history that was recalled last, while recalling.
    pub recall: Option<int>,
}

impl InputView {
    /// An empty prompt over a history.
    pub open spec fn over(history: Seq<Seq<char>>) -> InputView {
        InputView { text: Seq::empty(), at: 0, history, recall: None }
    }

    /// The buffer replaced by `text`, the cursor behind it.
    pub open spec fn filled(self, text: Seq<char>) -> InputView {
        InputView { text, at: text.len() as int, ..self }
    }

    /// The characters from `from` up to `to` replaced by `text`, the cursor
    /// behind it.
    pub open spec fn replaced(self, from: int, to: int, text: Seq<char>) -> InputView {
        InputView {
            text: self.text.take(from) + text + self.text.skip(to),
            at: from + text.len(),
            ..self
        }
    }

    /// `c` written at the cursor, the cursor behind it.
    pub open spec fn typed(self, c: char) -> InputView {
        InputView {
            text: self.text.take(self.at).push(c) + self.text.skip(self.at),
            at: self.at + 1,
            ..self
        }
    }

    /// The character before the cursor removed.
    pub open spec fn backspaced(self) -> InputView {
        if self.at == 0 {
            self
        } else {
            InputView { text: self.text.remove(self.at - 1), at: self.at - 1, ..self }
        }
    }

    /// The character behind the cursor removed.
    pub open spec fn deleted(self) -> InputView {
        if self.at >= self.text.len() {
            self
        } else {
            InputView { text: self.text.remove(self.at), ..self }
        }
    }

    /// The cursor moved to `at`.
    pub open spec fn moved(self, at: int) -> InputView {
        InputView { at, ..self }
    }

    pub open spec fn left(self) -> InputView {
        if self.at == 0 {
            self
        } else {
            self.moved(self.at - 1)
        }
    }

    pub open spec fn right(self) -> InputView {
        if self.at >= self.text.len() {
            self
        } else {
            self.moved(self.at + 1)
        }
    }

    /// An empty prompt, recalling nothing.
    pub open spec fn cleared(self) -> InputView {
        InputView::over(self.history)
    }

    /// The buffer moved to the end of the history, the prompt empty.
    pub open spec fn submitted(self) -> InputView {
        InputView::over(self.history.push(self.text))
    }

    /// The entry that one step back in the history recalls.
    pub open spec fn older(self) -> int {
        match self.recall {
            None => self.history.len() - 1,
            Some(i) => if i == 0 {
                0
            } else {
                i - 1
            },
        }
    }

    pub open spec fn recalled(self, i: int) -> InputView {
        InputView { recall: Some(i), ..self.filled(self.history[i]) }
    }

    pub open spec fn up(self) -> InputView {
        if self.history.len() == 0 {
            self
        } else {
            self.recalled(self.older())
        }
    }

    pub open spec fn down(self) -> InputView {
        match self.recall {
            None => self,
            Some(i) => if i + 1 >= self.history.len() {
                self.cleared()
            } else {
                self.recalled(i + 1)
            },
        }
    }

    /// The cursor lies within the text and the recalled entry within the
    /// history.
    pub open spec fn wf(self) -> bool {
        &&& 0 <= self.at <= self.text.len()
        &&& match self.recall {
            Some(i) => 0 <= i < self.history.len(),
            None => true,
        }
    }
}

/// Input buffer with a cursor and history navigation.
#[derive(Debug)]
pub struct Input {
    pub buffer: String,
    pub cursor: usize,
    pub history: Vec<String>,
    pub history_cursor: Option<usize>,
}

/// Whether exactly `k` characters of `s` make up its first `byte` bytes.
pub open spec fn splits_at(s: Seq<char>, byte: int, k: int) -> bool {
    0 <= k <= s.len() && byte_len(s.take(k)) == byte
}

/// Whether the first `byte` bytes of `s` are whole characters.
pub open spec fn on_boundary(s: Seq<char>, byte: int) -> bool {
    exists|k: int| splits_at(s, byte, k)
}

/// Number of characters in the first `byte` bytes of `s`.
pub open spec fn chars_before(s: Seq<char>, byte: int) -> int {
    choose|k: int| splits_at(s, byte, k)
}

pub proof fn lemma_chars_before(s: Seq<char>, byte: int, k: int)
    requires
        splits_at(s, byte, k),
    ensures
        chars_before(s, byte) == k,
        on_boundary(s, byte),
{
    let m = chars_before(s, byte);
    if m < k {
        lemma_byte_len_prefix(s, m, k);
    } else if k < m {
        lemma_byte_len_prefix(s, k, m);
    }
}

fn char_index(cs: &Vec<char>, byte: usize) -> (k: usize)
    requires
        on_boundary(cs@, byte as int),
    ensures
        splits_at(cs@, byte as int, k as int),
        k == chars_before(cs@, byte as int),
{
    let ghost m = chars_before(cs@, byte as int);
    let n: usize = cs.len();
    let mut k: usize = 0;
    let mut seen: usize = 0;
    while seen < byte
        invariant
            splits_at(cs@, byte as int, m),
            0 <= k <= m <= n == cs@.len(),
            seen <= byte,
            seen == byte_len(cs@.take(k as int)),
        decreases byte - seen,
    {
        proof {
            if k == m {
                assert(false);
            }
            lemma_byte_len_prefix(cs@, k + 1, m);
            assert(cs@.take(k + 1).drop_last() =~= cs@.take(k as int));
        }
        seen = seen + width_of(cs[k]);
        k = k + 1;
    }
    proof {
        lemma_byte_len_prefix(cs@, k as int, m);
    }
    k
}

impl View for Input {
    type V = InputView;

    open spec fn view(&self) -> InputView {
        InputView {
            text: self.buffer@,
            at: chars_before(self.buffer@, self.cursor as int),
            history: texts(self.history@),
            recall: match self.history_cursor {
                Some(i) => Some(i as int),
                None => None,
            },
        }
    }
}

impl Input {
    /// The cursor stands between two characters of the buffer, and a
    /// recalled entry exists.
    pub open spec fn wf(&self) -> bool {
        &&& on_boundary(self.buffer@, self.cursor as int)
        &&& match self.history_cursor {
            Some(i) => i < self.history@.len(),
            None => true,
        }
    }

    pub fn new() -> (r: Input)
        ensures
            r.wf(),
            r@ == InputView::over(Seq::empty()),
    {
        Input::from_history(Vec::new())
    }

    pub fn from_history(history: Vec<String>) -> (r: Input)
        ensures
            r.wf(),
            r@ == InputView::over(texts(history@)),
    {
        let r = Input { buffer: String::new(), cursor: 0, history, history_cursor: None };
        proof {
            assert(r.buffer@.take(0) =~= Seq::<char>::empty());
            assert(splits_at(r.buffer@, 0, 0));
            lemma_chars_before(r.buffer@, 0, 0);
        }
        r
    }

    /// Replaces the buffer, the cursor behind its last character.
    pub fn set_buffer(&mut self, text: String)
        requires
            old(self).wf(),
        ensures
            final(self).wf(),
            final(self)@ == old(self)@.filled(text@),
    {
        self.cursor = bytes_in(text.as_str());
        self.buffer = text;
        proof {
            assert(text@.take(text@.len() as int) =~= text@);
            assert(splits_at(text@, self.cursor as int, text@.len() as int));
            lemma_chars_before(text@, self.cursor as int, text@.len() as int);
        }
    }

    /// Replaces the characters from `from` up to `to`, the cursor behind what
    /// takes their place.
    pub fn replace(&mut self, from: usize, to: usize, text: &str)
        requires
            old(self).wf(),
            from <= to <= old(self)@.text.len(),
        ensures
            final(self).wf(),
            final(self)@ == old(self)@.replaced(from as int, to as int, text@),
    {
        let cs = chars_of(self.buffer.as_str());
        let mut out = string_of(&cs, 0, from);
        out.append(text);
        let ghost head = out@;
        self.cursor = bytes_in(out.as_str());
        out.append(string_of(&cs, to, cs.len()).as_str());
        proof {
            assert(out@ =~= cs@.take(from as int) + text@ + cs@.skip(to as int));
            assert(out@.take(head.len() as int) =~= head);
            assert(splits_at(out@, self.cursor as int, head.len() as int));
            lemma_chars_before(out@, self.cursor as int, head.len() as int);
        }
        self.buffer = out;
    }

    /// The text before the cursor.
    pub fn before_cursor(&self) -> (r: String)
        requires
            self.wf(),
        ensures
            r@ == self@.text.take(self@.at),
    {
        let cs = chars_of(self.buffer.as_str());
        let k = char_index(&cs, self.cursor);
        let r = string_of(&cs, 0, k);
        assert(r@ =~= cs@.take(k as int));
        r
    }

    pub fn insert_char(&mut self, c: char)
        requires
            old(self).wf(),
        ensures
            final(self).wf(),
            final(self)@ == old(self)@.typed(c),
    {
        let cs = chars_of(self.buffer.as_str());
        let k = char_index(&cs, self.cursor);
        let mut out = string_of(&cs, 0, k);
        out.push(c);
        out.append(string_of(&cs, k, cs.len()).as_str());
        let total = bytes_in(out.as_str());
        proof {
            assert(out@ =~= cs@.take(k as int).push(c) + cs@.skip(k as int));
            lemma_byte_len_prefix(out@, k + 1, out@.len() as int);
            assert(out@.take(k + 1).drop_last() =~= cs@.take(k as int));
            assert(out@.take(k + 1).last() == c);
            assert(out@.take(out@.len() as int) =~= out@);
        }
        self.buffer = out;
        self.cursor = self.cursor + width_of(c);
        proof {
            assert(splits_at(out@, self.cursor as int, k + 1));
            lemma_chars_before(out@, self.cursor as int, k + 1);
        }
    }

    pub fn backspace(&mut self)
        requires
            old(self).wf(),
        ensures
            final(self).wf(),
            final(self)@ == old(self)@.backspaced(),
    {
        let cs = chars_of(self.buffer.as_str());
        let k = char_index(&cs, self.cursor);
        if k == 0 {
            return;
        }
        let mut out = string_of(&cs, 0, k - 1);
        out.append(string_of(&cs, k, cs.len()).as_str());
        proof {
            assert(out@ =~= cs@.remove(k - 1));
            assert(cs@.take(k as int).drop_last() =~= cs@.take(k - 1));
            assert(out@.take(k - 1) =~= cs@.take(k - 1));
        }
        self.buffer = out;
        self.cursor = self.cursor - width_of(cs[k - 1]);
        proof {
            assert(splits_at(out@, self.cursor as int, k - 1));
            lemma_chars_before(out@, self.cursor as int, k - 1);
        }
    }

    pub fn delete_forward(&mut self)
        requires
            old(self).wf(),
        ensures
            final(self).wf(),
            final(self)@ == old(self)@.deleted(),
    {
        let cs = chars_of(self.buffer.as_str());
        let k = char_index(&cs, self.cursor);
        if k >= cs.len() {
            return;
        }
        let mut out = string_of(&cs, 0, k);
        out.append(string_of(&cs, k + 1, cs.len()).as_str());
        proof {
            assert(out@ =~= cs@.remove(k as int));
            assert(out@.take(k as int) =~= cs@.take(k as int));
        }
        self.buffer = out;
        proof {
            assert(splits_at(out@, self.cursor as int, k as int));
            lemma_chars_before(out@, self.cursor as int, k as int);
        }
    }

    pub fn cursor_left(&mut self)
        requires
            old(self).wf(),
        ensures
            final(self).wf(),
            final(self)@ == old(self)@.left(),
    {
        let cs = chars_of(self.buffer.as_str());
        let k = char_index(&cs, self.cursor);
        if k == 0 {
            return;
        }
        proof {
            assert(cs@.take(k as int).drop_last() =~= cs@.take(k - 1));
        }
        self.cursor = self.cursor - width_of(cs[k - 1]);
        proof {
            assert(splits_at(self.buffer@, self.cursor as int, k - 1));
            lemma_chars_before(self.buffer@, self.cursor as int, k - 1);
        }
    }

    pub fn cursor_right(&mut self)
        requires
            old(self).wf(),
        ensures
            final(self).wf(),
            final(self)@ == old(self)@.right(),
    {
        let cs = chars_of(self.buffer.as_str());
        let k = char_index(&cs, self.cursor);
        if k >= cs.len() {
            return;
        }
        let total = bytes_in(self.buffer.as_str());
        proof {
            assert(cs@.take(k + 1).drop_last() =~= cs@.take(k as int));
            lemma_byte_len_prefix(cs@, k + 1, cs@.len() as int);
        }
        self.cursor = self.cursor + width_of(cs[k]);
        proof {
            assert(splits_at(self.buffer@, self.cursor as int, k + 1));
            lemma_chars_before(self.buffer@, self.cursor as int, k + 1);
        }
    }

    pub fn cursor_home(&mut self)
        requires
            old(self).wf(),
        ensures
            final(self).wf(),
            final(self)@ == old(self)@.moved(0),
    {
        self.cursor = 0;
        proof {
            assert(self.buffer@.take(0) =~= Seq::<char>::empty());
            assert(splits_at(self.buffer@, 0, 0));
            lemma_chars_before(self.buffer@, 0, 0);
        }
    }

    pub fn cursor_end(&mut self)
        requires
            old(self).wf(),
        ensures
            final(self).wf(),
            final(self)@ == old(self)@.moved(old(self)@.text.len() as int),
    {
        self.cursor = bytes_in(self.buffer.as_str());
        proof {
            let n = self.buffer@.len() as int;
            assert(self.buffer@.take(n) =~= self.buffer@);
            assert(splits_at(self.buffer@, self.cursor as int, n));
            lemma_chars_before(self.buffer@, self.cursor as int, n);
        }
    }

    pub fn insert_newline(&mut self)
        requires
            old(self).wf(),
        ensures
            final(self).wf(),
            final(self)@ == old(self)@.typed('\n'),
    {
        self.insert_char('\n');
    }

    pub fn clear(&mut self)
        requires
            old(self).wf(),
        ensures
            final(self).wf(),
            final(self)@ == old(self)@.cleared(),
    {
        self.buffer = String::new();
        self.cursor = 0;
        self.history_cursor = None;
        proof {
            assert(self.buffer@.take(0) =~= Seq::<char>::empty());
            assert(splits_at(self.buffer@, 0, 0));
            lemma_chars_before(self.buffer@, 0, 0);
        }
    }

    /// Empties the buffer, leaving the recall position as it is.
    pub fn blank(&mut self)
        requires
            old(self).wf(),
        ensures
            final(self).wf(),
            final(self)@ == old(self)@.filled(Seq::empty()),
    {
        self.set_buffer(String::new());
    }

    /// Takes the buffer, pushes it onto the history, and resets to an empty
    /// prompt.
    pub fn submit(&mut self) -> (line: String)
        requires
            old(self).wf(),
        ensures
            final(self).wf(),
            line@ == old(self)@.text,
            final(self)@ == old(self)@.submitted(),
    {
        let line = self.buffer.clone();
        push_text(&mut self.history, line.clone());
        self.clear();
        line
    }

    pub fn history_up(&mut self)
        requires
            old(self).wf(),
        ensures
            final(self).wf(),
            final(self)@ == old(self)@.up(),
    {
        if self.history.len() == 0 {
            return;
        }
        let i: usize = match self.history_cursor {
            None => self.history.len() - 1,
            Some(i) => if i == 0 {
                0
            } else {
                i - 1
            },
        };
        self.history_cursor = Some(i);
        let entry = self.history[i].clone();
        self.set_buffer(entry);
    }

    pub fn history_down(&mut self)
        requires
            old(self).wf(),
        ensures
            final(self).wf(),
            final(self)@ == old(self)@.down(),
    {
        let n: usize = self.history.len();
        match self.history_cursor {
            None => {},
            Some(i) => {
                if i + 1 >= n {
                    self.clear();
                } else {
                    self.history_cursor = Some(i + 1);
                    let entry = self.history[i + 1].clone();
                    self.set_buffer(entry);
                }
            },
        }
    }
}

// ---------------------------------------------------------------------------
// Laws
// ---------------------------------------------------------------------------

/// Every operation keeps the cursor within the text and the recalled entry
/// within the history.
pub proof fn law_operations_keep_the_cursor_valid(v: InputView, c: char)
    requires
        v.wf(),
    ensures
        v.typed(c).wf(),
        v.backspaced().wf(),
        v.deleted().wf(),
        v.left().wf(),
        v.right().wf(),
        v.moved(0).wf(),
        v.moved(v.text.len() as int).wf(),
        v.cleared().wf(),
        v.submitted().wf(),
        v.up().wf(),
        v.down().wf(),
{
}

/// Backspace takes back what was typed last.
pub proof fn law_backspace_undoes_typing(v: InputView, c: char)
    requires
        v.wf(),
    ensures
        v.typed(c).backspaced() == v,
{
    assert(v.typed(c).backspaced() =~= v) by {
        assert(v.typed(c).text.remove(v.at) =~= v.text);
    }
}

/// Deleting forward equals stepping right and pressing backspace.
pub proof fn law_delete_is_right_then_backspace(v: InputView)
    requires
        v.wf(),
        v.at < v.text.len(),
    ensures
        v.deleted() == v.right().backspaced(),
{
}

/// A step left undoes a step right and the other way round, wherever the
/// first step moves at all.
pub proof fn law_left_and_right_undo_each_other(v: InputView)
    requires
        v.wf(),
    ensures
        v.at < v.text.len() ==> v.right().left() == v,
        v.at > 0 ==> v.left().right() == v,
{
}

/// Recalling an entry and stepping back down from the newest one leaves an
/// empty prompt.
pub proof fn law_down_from_the_newest_entry_empties_the_prompt(v: InputView)
    requires
        v.wf(),
        v.recall is None,
        v.history.len() > 0,
    ensures
        v.up().down() == v.cleared(),
{
}

/// Going one entry further back and down again shows the same entry.
pub proof fn law_history_round_trip(v: InputView)
    requires
        v.wf(),
        v.recall is Some,
        v.recall->0 > 0,
    ensures
        v.up().down() == v.recalled(v.recall->0),
{
}

/// What was submitted last is what one step back recalls.
pub proof fn law_submitted_line_is_recalled_first(v: InputView)
    requires
        v.wf(),
    ensures
        v.submitted().up().text == v.text,
{
}

/// A typed character stands where the cursor was, what stood before it and
/// behind it stays on its side, and the cursor follows the character.
pub proof fn law_typing_writes_at_the_cursor(v: InputView, c: char)
    requires
        v.wf(),
    ensures
        ({
            let w = v.typed(c);
            &&& w.text.len() == v.text.len() + 1
            &&& w.text[v.at] == c
            &&& forall|i: int| 0 <= i < v.at ==> #[trigger] w.text[i] == v.text[i]
            &&& forall|i: int| v.at < i < w.text.len() ==> #[trigger] w.text[i] == v.text[i - 1]
            &&& w.at == v.at + 1
            &&& w.history == v.history
            &&& w.recall == v.recall
        }),
{
}

/// Backspace removes the character before the cursor and Delete the one
/// behind it; where there is none, nothing changes. All other characters
/// keep their order.
pub proof fn law_erasing_takes_one_character(v: InputView)
    requires
        v.wf(),
    ensures
        v.at == 0 ==> v.backspaced() == v,
        v.at > 0 ==> {
            let w = v.backspaced();
            &&& w.text == v.text.take(v.at - 1) + v.text.skip(v.at)
            &&& w.at == v.at - 1
            &&& w.history == v.history
            &&& w.recall == v.recall
        },
        v.at == v.text.len() ==> v.deleted() == v,
        v.at < v.text.len() ==> {
            let w = v.deleted();
            &&& w.text == v.text.take(v.at) + v.text.skip(v.at + 1)
            &&& w.at == v.at
            &&& w.history == v.history
            &&& w.recall == v.recall
        },
{
    if v.at > 0 {
        assert(v.backspaced().text =~= v.text.take(v.at - 1) + v.text.skip(v.at));
    }
    if v.at < v.text.len() {
        assert(v.deleted().text =~= v.text.take(v.at) + v.text.skip(v.at + 1));
    }
}

/// Moving the cursor changes nothing else, goes by one character and stops
/// at the ends.
pub proof fn law_the_cursor_moves_by_one(v: InputView, to: int)
    requires
        v.wf(),
    ensures
        v.left() == (InputView { at: v.left().at, ..v }),
        v.right() == (InputView { at: v.right().at, ..v }),
        v.left().at == (if v.at == 0 {
            0
        } else {
            v.at - 1
        }),
        v.right().at == (if v.at == v.text.len() {
            v.at
        } else {
            v.at + 1
        }),
        v.moved(to) == (InputView { at: to, ..v }),
{
}

/// A filled prompt holds the text with the cursor behind it; a cleared one
/// is empty and recalls nothing; either keeps the history.
pub proof fn law_filling_puts_the_cursor_behind(v: InputView, text: Seq<char>)
    ensures
        v.filled(text).text == text,
        v.filled(text).at == text.len(),
        v.filled(text).history == v.history,
        v.filled(text).recall == v.recall,
        v.cleared().text.len() == 0,
        v.cleared().at == 0,
        v.cleared().recall is None,
        v.cleared().history == v.history,
        InputView::over(v.history) == v.cleared(),
{
}

/// A replacement stands in place of what it replaces, between what stood
/// before and behind it, with the cursor behind it.
pub proof fn law_replacing_keeps_what_stands_around(
    v: InputView,
    from: int,
    to: int,
    text: Seq<char>,
)
    requires
        0 <= from <= to <= v.text.len(),
    ensures
        ({
            let w = v.replaced(from, to, text);
            &&& w.text.take(from) == v.text.take(from)
            &&& w.text.subrange(from, from + text.len()) == text
            &&& w.text.skip(from + text.len()) == v.text.skip(to)
            &&& w.at == from + text.len()
            &&& w.history == v.history
        }),
{
    let w = v.replaced(from, to, text);
    assert(w.text.take(from) =~= v.text.take(from));
    assert(w.text.subrange(from, from + text.len()) =~= text);
    assert(w.text.skip(from + text.len()) =~= v.text.skip(to));
}

/// Submitting empties the prompt and puts what it held at the end of the
/// history.
pub proof fn law_submitting_remembers_the_line(v: InputView)
    ensures
        v.submitted().text.len() == 0,
        v.submitted().at == 0,
        v.submitted().recall is None,
        v.submitted().history == v.history.push(v.text),
{
}

/// One step back recalls the newest entry first, then the one before the
/// recalled one, and stays on the oldest; one step forward goes the other
/// way and empties the prompt behind the newest. What is recalled stands in
/// the prompt with the cursor behind it.
pub proof fn law_recalling_walks_the_history(v: InputView)
    requires
        v.wf(),
    ensures
        v.up().history == v.history,
        v.down().history == v.history,
        v.history.len() == 0 ==> v.up() == v,
        v.history.len() > 0 ==> {
            let i = match v.recall {
                None => v.history.len() - 1,
                Some(k) => if k > 0 {
                    k - 1
                } else {
                    0
                },
            };
            &&& v.up().recall == Some(i)
            &&& v.up().text == v.history[i]
            &&& v.up().at == v.history[i].len()
        },
        v.recall is None ==> v.down() == v,
        v.recall matches Some(k) ==> if k == v.history.len() - 1 {
            v.down().text.len() == 0 && v.down().recall is None && v.down().at == 0
        } else {
            v.down().text == v.history[k + 1] && v.down().recall == Some(k + 1) && v.down().at
                == v.history[k + 1].len()
        },
{
}

/// The bytes of the characters before a place in a text end at a boundary,
/// and as many characters lie before it.
pub proof fn law_boundaries_lie_between_characters(a: Seq<char>, b: Seq<char>)
    ensures
        on_boundary(a + b, byte_len(a) as int),
        chars_before(a + b, byte_len(a) as int) == a.len(),
{
    let s = a + b;
    assert(s.take(a.len() as int) =~= a);
    assert(splits_at(s, byte_len(a) as int, a.len() as int));
    let k = chars_before(s, byte_len(a) as int);
    assert(splits_at(s, byte_len(a) as int, k));
    if k < a.len() {
        lemma_byte_len_prefix(s, k, a.len() as int);
    } else if k > a.len() {
        lemma_byte_len_prefix(s, a.len() as int, k);
    }
}

} // verus!
