//! The decisions of the text outputs: how a polished text reaches the
//! focused application, by clipboard paste or by simulated typing.
use vstd::prelude::*;
use crate::text::{chars_of, find, find_chars, slice_range, string_of};

verus! {

/// Delay after writing the clipboard before the paste keystroke.
pub const CLIPBOARD_SETTLE_MS: u64 = 20;

/// Most characters typed by one call of the keyboard simulator.
pub const TYPE_CHUNK_SIZE: usize = 200;

/// Delay between two typed chunks.
pub const TYPE_CHUNK_DELAY_MS: u64 = 5;

/// Delay after writing the clipboard before pasting multi-line text.
pub const MULTILINE_PASTE_SETTLE_MS: u64 = 30;

/// How an output delivers text.
#[derive(Debug, Clone, Copy, PartialEq, Eq, Structural)]
pub enum OutputMode {
    Keyboard,
    Clipboard,
}

/// Delivers text by writing the clipboard and pasting it.
pub struct ClipboardOutput;

impl ClipboardOutput {
    /// The clipboard output.
    pub fn new() -> (o: Self) {
        ClipboardOutput
    }

    /// Its mode.
    pub fn mode(&self) -> (m: OutputMode)
        ensures
            m == OutputMode::Clipboard,
    {
        OutputMode::Clipboard
    }
}

impl Default for ClipboardOutput {
    fn default() -> (o: Self)
        ensures
            o == (ClipboardOutput),
    {
        ClipboardOutput::new()
    }
}

/// Delivers text by simulated typing (multi-line text is pasted).
pub struct KeyboardOutput;

impl Default for KeyboardOutput {
    fn default() -> (o: Self)
        ensures
            o == (KeyboardOutput),
    {
        KeyboardOutput::new()
    }
}

/// How the keyboard output delivers one text.
#[derive(Debug)]
pub enum TypingPlan {
    /// Through the clipboard.
    Paste,
    /// Typed, one chunk after the other.
    Type(Vec<String>),
}

/// `s` cut into consecutive pieces of `n` characters, the last one
/// possibly shorter; no pieces for an empty `s`.
pub open spec fn chunks_spec(s: Seq<char>, n: int) -> Seq<Seq<char>>
    decreases s.len(),
{
    if s.len() == 0 || n <= 0 {
        Seq::empty()
    } else if s.len() <= n {
        seq![s]
    } else {
        seq![s.take(n)] + chunks_spec(s.skip(n), n)
    }
}

/// The characters of each string.
pub open spec fn strings_view(v: Seq<String>) -> Seq<Seq<char>> {
    Seq::new(v.len(), |i: int| v[i]@)
}

/// A typing plan as plain values: `None` for a paste.
pub open spec fn plan_view(p: TypingPlan) -> Option<Seq<Seq<char>>> {
    match p {
        TypingPlan::Paste => None,
        TypingPlan::Type(v) => Some(strings_view(v@)),
    }
}

/// The plan for a text: where every text is pasted (an input method would
/// garble simulated keystrokes), or for multi-line text (typing it line by
/// line misbehaves), a paste; else the text is typed in chunks of 200
/// characters.
pub open spec fn typing_plan_spec(text: Seq<char>, paste_always: bool) -> Option<Seq<Seq<char>>> {
    if paste_always || find(text, seq!['\n']) is Some {
        None
    } else {
        Some(chunks_spec(text, TYPE_CHUNK_SIZE as int))
    }
}

/// The pieces put back together.
pub open spec fn flatten_chunks(cs: Seq<Seq<char>>) -> Seq<char>
    decreases cs.len(),
{
    if cs.len() == 0 {
        Seq::empty()
    } else {
        cs[0] + flatten_chunks(cs.drop_first())
    }
}

/// Typing a text in chunks types all of it, in order: the chunks put back
/// together are the text, and each holds between one and `n` characters.
pub proof fn law_typing_chunks_rebuild_text(s: Seq<char>, n: int)
    requires
        n > 0,
    ensures
        flatten_chunks(chunks_spec(s, n)) == s,
        forall|i: int|
            0 <= i < chunks_spec(s, n).len() ==> 0 < (#[trigger] chunks_spec(s, n)[i]).len() <= n,
    decreases s.len(),
{
    let cs = chunks_spec(s, n);
    if s.len() == 0 {
        assert(flatten_chunks(cs) =~= s);
    } else if s.len() <= n {
        assert(cs.drop_first() =~= Seq::<Seq<char>>::empty());
        assert(flatten_chunks(cs.drop_first()) =~= Seq::<char>::empty());
        assert(cs[0] == s);
        assert(flatten_chunks(cs) =~= s);
    } else {
        let rest = chunks_spec(s.skip(n), n);
        law_typing_chunks_rebuild_text(s.skip(n), n);
        assert(cs.drop_first() =~= rest);
        assert(flatten_chunks(cs) =~= s.take(n) + s.skip(n));
        assert(s.take(n) + s.skip(n) =~= s);
        assert forall|i: int| 0 <= i < cs.len() implies 0 < (#[trigger] cs[i]).len() <= n by {
            if i > 0 {
                assert(cs[i] == rest[i - 1]);
            }
        }
    }
}

impl KeyboardOutput {
    /// The keyboard output.
    pub fn new() -> (o: Self) {
        KeyboardOutput
    }

    /// Its mode.
    pub fn mode(&self) -> (m: OutputMode)
        ensures
            m == OutputMode::Keyboard,
    {
        OutputMode::Keyboard
    }

    /// Decides how a text is delivered where simulated typing is used.
    pub fn typing_plan(text: &str, paste_always: bool) -> (p: TypingPlan)
        ensures
            plan_view(p) == typing_plan_spec(text@, paste_always),
    {
        if paste_always {
            return TypingPlan::Paste;
        }
        let v = chars_of(text);
        let nl: Vec<char> = vec!['\n'];
        assert(nl@ =~= seq!['\n']);
        if find_chars(&v, &nl).is_some() {
            return TypingPlan::Paste;
        }
        let mut chunks: Vec<String> = Vec::new();
        let mut k: usize = 0;
        assert(v@.skip(0) =~= v@);
        while k < v.len()
            invariant
                k <= v.len(),
                strings_view(chunks@) + chunks_spec(
                    v@.skip(k as int),
                    TYPE_CHUNK_SIZE as int,
                ) == chunks_spec(v@, TYPE_CHUNK_SIZE as int),
            decreases v.len() - k,
        {
            let ghost before = strings_view(chunks@);
            let end = if v.len() - k <= TYPE_CHUNK_SIZE {
                v.len()
            } else {
                k + TYPE_CHUNK_SIZE
            };
            let piece = string_of(&slice_range(&v, k, end));
            let ghost rest = v@.skip(k as int);
            assert(piece@ =~= (if rest.len() <= 200 {
                rest
            } else {
                rest.take(200)
            }));
            proof {
                if rest.len() > 200 {
                    assert(rest.skip(200) =~= v@.skip(k + 200));
                }
            }
            chunks.push(piece);
            k = end;
            assert(strings_view(chunks@) =~= before + seq![piece@]);
            assert(v@.skip(k as int).len() == 0 ==> chunks_spec(v@.skip(k as int), 200)
                =~= Seq::<Seq<char>>::empty());
        }
        assert(chunks_spec(v@.skip(k as int), 200) =~= Seq::<Seq<char>>::empty());
        assert(strings_view(chunks@) + Seq::<Seq<char>>::empty()
            =~= strings_view(chunks@));
        TypingPlan::Type(chunks)
    }
}

} // verus!
