//! Which editor to hand a text to.

use vstd::prelude::*;

use crate::text::{chars_of, push_text, texts, trim, trim_text};

verus! {

/// White space within ASCII: blank, tab, line feed, form feed, carriage
/// return.
pub open spec fn is_ascii_white(c: char) -> bool {
    c == ' ' || c == '\t' || c == '\n' || c == '\x0c' || c == '\r'
}

fn is_ascii_white_char(c: char) -> (r: bool)
    ensures
        r == is_ascii_white(c),
{
    c == ' ' || c == '\t' || c == '\n' || c == '\x0c' || c == '\r'
}

/// The runs of characters other than ASCII white space, in order. `open` is
/// the run that the text so far ends in.
pub open spec fn argv_of(s: Seq<char>) -> Seq<Seq<char>>
    decreases s.len(),
{
    if s.len() == 0 {
        Seq::empty()
    } else if is_ascii_white(s.last()) {
        argv_of(s.drop_last())
    } else if s.len() == 1 || is_ascii_white(s[s.len() - 2]) {
        argv_of(s.drop_last()).push(seq![s.last()])
    } else {
        let before = argv_of(s.drop_last());
        before.drop_last().push(before.last().push(s.last()))
    }
}

proof fn lemma_argv_open(s: Seq<char>)
    requires
        s.len() > 0,
        !is_ascii_white(s.last()),
    ensures
        argv_of(s).len() > 0,
    decreases s.len(),
{
    if s.len() > 1 && !is_ascii_white(s[s.len() - 2]) {
        lemma_argv_open(s.drop_last());
    }
}

fn split_argv(s: &str) -> (out: Vec<String>)
    ensures
        texts(out@) == argv_of(s@),
{
    let cs = chars_of(s);
    let mut out: Vec<String> = Vec::new();
    let mut i: usize = 0;
    assert(texts(out@) =~= argv_of(cs@.take(0)));
    while i < cs.len()
        invariant
            i <= cs@.len(),
            texts(out@) == argv_of(cs@.take(i as int)),
        decreases cs@.len() - i,
    {
        let c = cs[i];
        let ghost before = texts(out@);
        let ghost t = cs@.take(i + 1);
        assert(t.drop_last() =~= cs@.take(i as int));
        assert(t.last() == c);
        if is_ascii_white_char(c) {
        } else if i == 0 || is_ascii_white_char(cs[i - 1]) {
            let mut word = String::new();
            word.push(c);
            assert(word@ =~= seq![c]);
            push_text(&mut out, word);
        } else {
            proof {
                lemma_argv_open(cs@.take(i as int));
                assert(before.len() == out@.len());
            }
            let last: usize = out.len() - 1;
            let mut word = out[last].clone();
            assert(before.last() == out@[last as int]@);
            word.push(c);
            out.truncate(last);
            assert(texts(out@) =~= before.drop_last());
            push_text(&mut out, word);
        }
        i = i + 1;
    }
    assert(cs@.take(cs@.len() as int) =~= cs@);
    out
}

/// The command line that is chosen: the first of the two variables that
/// holds more than white space, else `vi`.
pub open spec fn editor_line(visual: Option<&str>, editor: Option<&str>) -> Seq<char> {
    if visual is Some && trim(visual->0@).len() > 0 {
        visual->0@
    } else if editor is Some && trim(editor->0@).len() > 0 {
        editor->0@
    } else {
        "vi"@
    }
}

/// The program and arguments of the editor, from the values of `$VISUAL` and
/// `$EDITOR`. The line is split at ASCII white space as it stands; nothing
/// is unquoted.
pub fn resolve_editor_argv_from(visual: Option<&str>, editor: Option<&str>) -> (r: Option<
    (String, Vec<String>),
>)
    ensures
        match r {
            Some(p) => argv_of(editor_line(visual, editor)).len() > 0 && p.0@ == argv_of(
                editor_line(visual, editor),
            )[0] && texts(p.1@) == argv_of(editor_line(visual, editor)).drop_first(),
            None => argv_of(editor_line(visual, editor)).len() == 0,
        },
{
    let mut raw = String::from_str("vi");
    let mut found = false;
    if let Some(v) = visual {
        let t = trim_text(v);
        if !t.as_str().is_empty() {
            raw = String::from_str(v);
            found = true;
        }
    }
    if !found {
        if let Some(e) = editor {
            let t = trim_text(e);
            if !t.as_str().is_empty() {
                raw = String::from_str(e);
            }
        }
    }
    let parts = split_argv(raw.as_str());
    let ghost all = texts(parts@);
    assert(all.len() == parts@.len());
    if parts.len() == 0 {
        return None;
    }
    assert(all[0] == parts@[0]@);
    let program = parts[0].clone();
    let mut args: Vec<String> = Vec::new();
    let mut i: usize = 1;
    assert(texts(args@) =~= all.subrange(1, 1));
    while i < parts.len()
        invariant
            1 <= i <= parts@.len(),
            all == texts(parts@),
            texts(args@) == all.subrange(1, i as int),
        decreases parts@.len() - i,
    {
        push_text(&mut args, parts[i].clone());
        i = i + 1;
        assert(all.subrange(1, i as int) =~= all.subrange(1, i - 1).push(parts@[i - 1]@));
    }
    assert(all.subrange(1, all.len() as int) =~= all.drop_first());
    Some((program, args))
}

// ---------------------------------------------------------------------------
// Laws
// ---------------------------------------------------------------------------

proof fn lemma_argv_nonempty(s: Seq<char>)
    requires
        s.len() > 0,
        !is_ascii_white(s.last()),
    ensures
        argv_of(s).len() > 0,
{
    lemma_argv_open(s);
}

/// White space parts the arguments: what stands before it and what stands
/// behind it are split each for themselves.
pub proof fn law_white_space_parts_arguments(a: Seq<char>, c: char, b: Seq<char>)
    requires
        c == ' ' || c == '\t' || c == '\n' || c == '\x0c' || c == '\r',
    ensures
        argv_of(a + seq![c] + b) == argv_of(a) + argv_of(b),
    decreases b.len(),
{
    let s = a + seq![c] + b;
    if b.len() == 0 {
        assert(s.drop_last() =~= a);
        assert(s.last() == c);
        assert(argv_of(a) + argv_of(b) =~= argv_of(a));
    } else {
        let front = b.drop_last();
        assert(s.drop_last() =~= a + seq![c] + front);
        assert(s.last() == b.last());
        law_white_space_parts_arguments(a, c, front);
        let x = argv_of(a);
        let y = argv_of(front);
        if is_ascii_white(b.last()) {
        } else if b.len() == 1 {
            assert(s[s.len() - 2] == c);
            assert(argv_of(front) =~= Seq::<Seq<char>>::empty());
            assert(argv_of(s) =~= x + argv_of(b));
        } else {
            assert(s[s.len() - 2] == b[b.len() - 2]);
            if is_ascii_white(b[b.len() - 2]) {
                assert((x + y).push(seq![b.last()]) =~= x + y.push(seq![b.last()]));
            } else {
                assert(front.last() == b[b.len() - 2]);
                lemma_argv_nonempty(front);
                assert((x + y).last() == y.last());
                assert((x + y).drop_last() =~= x + y.drop_last());
                let grown = y.last().push(b.last());
                assert((x + y.drop_last()).push(grown) =~= x + y.drop_last().push(grown));
            }
        }
    }
}

/// A line without white space is one argument.
pub proof fn law_unbroken_lines_are_one_argument(w: Seq<char>)
    requires
        w.len() > 0,
        forall|i: int|
            0 <= i < w.len() ==> {
                let c = #[trigger] w[i];
                c != ' ' && c != '\t' && c != '\n' && c != '\x0c' && c != '\r'
            },
    ensures
        argv_of(w) == seq![w],
    decreases w.len(),
{
    assert(w[w.len() - 1] == w.last());
    if w.len() == 1 {
        assert(argv_of(w.drop_last()) =~= Seq::<Seq<char>>::empty());
        assert(seq![w.last()] =~= w);
        assert(argv_of(w) =~= seq![w]);
    } else {
        let front = w.drop_last();
        assert forall|i: int| 0 <= i < front.len() implies {
            let c = #[trigger] front[i];
            c != ' ' && c != '\t' && c != '\n' && c != '\x0c' && c != '\r'
        } by {
            assert(front[i] == w[i]);
        }
        law_unbroken_lines_are_one_argument(front);
        assert(!is_ascii_white(w[w.len() - 2]));
        assert(front.push(w.last()) =~= w);
        assert(argv_of(w) =~= seq![w]);
    }
}

/// The first of the two variables that says anything names the editor, and
/// where neither does, it is `vi`.
pub proof fn law_visual_comes_before_editor(visual: Option<&str>, editor: Option<&str>)
    ensures
        ({
            let first = visual is Some && trim(visual->0@).len() > 0;
            let second = editor is Some && trim(editor->0@).len() > 0;
            &&& first ==> editor_line(visual, editor) == visual->0@
            &&& !first && second ==> editor_line(visual, editor) == editor->0@
            &&& !first && !second ==> editor_line(visual, editor) == "vi"@
        }),
{
}

} // verus!
