//! The chat input editor: a shadow of the host's chat input with a cursor,
//! a history of sent lines, modifier tracking and phrase hints.
use vstd::prelude::*;
use crate::events::{Key, MsgKind, Out, OutgoingEvent, outs};
use crate::overlay::{first_match, overlay, find_chars, hint_overlay};
use vstd::string::StrSliceExecFns;
use crate::overlay::append_chars;
use crate::text::{chars_of, string_from, slice_chars, trim_chars, trimmed};

verus! {

/// Longest line the host's chat input takes.
pub const MAX_CHAT_INPUT: usize = 192;

/// Shortest trimmed input that is looked up for hints.
pub const MIN_QUERY: usize = 2;

/// A candidate phrase: where the typed text occurs in it, and the phrase.
#[derive(Clone, Debug)]
pub struct Hint {
    pub offset: usize,
    pub sentence: String,
}

/// Which modifier keys are down.
#[derive(Clone, Copy, Debug, PartialEq, Eq, Structural)]
pub struct Modifiers {
    pub left_ctrl: bool,
    pub right_ctrl: bool,
    pub left_shift: bool,
    pub right_shift: bool,
}

/// The editor's state as values.
pub struct EditorView {
    pub open: bool,
    pub text: Seq<char>,
    pub cursor: int,
    pub dedupe: bool,
    pub history: Seq<Seq<char>>,
    pub history_pos: int,
    pub restore: Option<Seq<char>>,
    pub search: Option<Seq<char>>,
    pub hints: Option<Seq<(int, Seq<char>)>>,
    pub hint_pos: int,
    pub held: Modifiers,
    pub open_key: Key,
    pub send_key: Key,
    pub pending: Option<Seq<char>>,
    pub out: Seq<Out>,
}

pub open spec fn ctrl_held(m: Modifiers) -> bool {
    m.left_ctrl || m.right_ctrl
}

pub open spec fn shift_held(m: Modifiers) -> bool {
    m.left_shift || m.right_shift
}

/// Records that a modifier key went down or up; other keys change nothing.
pub open spec fn track(m: Modifiers, key: Key, down: bool) -> Modifiers {
    match key {
        Key::LeftCtrl => Modifiers { left_ctrl: down, ..m },
        Key::RightCtrl => Modifiers { right_ctrl: down, ..m },
        Key::LeftShift => Modifiers { left_shift: down, ..m },
        Key::RightShift => Modifiers { right_shift: down, ..m },
        _ => m,
    }
}

pub open spec fn hint_value(h: Hint) -> (int, Seq<char>) {
    (h.offset as int, h.sentence@)
}

pub open spec fn hints_value(v: Seq<Hint>) -> Seq<(int, Seq<char>)> {
    v.map_values(|h: Hint| hint_value(h))
}

/// Start of the spaces left of `c`.
pub open spec fn skip_spaces_left(t: Seq<char>, c: int) -> int
    decreases c,
{
    if 0 < c <= t.len() && t[c - 1] == ' ' {
        skip_spaces_left(t, c - 1)
    } else {
        c
    }
}

/// Start of the word that ends at `c`.
pub open spec fn skip_word_left(t: Seq<char>, c: int) -> int
    decreases c,
{
    if 0 < c <= t.len() && t[c - 1] != ' ' {
        skip_word_left(t, c - 1)
    } else {
        c
    }
}

/// End of the spaces right of `c`.
pub open spec fn skip_spaces_right(t: Seq<char>, c: int) -> int
    decreases t.len() - c,
{
    if 0 <= c < t.len() && t[c] == ' ' {
        skip_spaces_right(t, c + 1)
    } else {
        c
    }
}

/// End of the word that starts at `c`.
pub open spec fn skip_word_right(t: Seq<char>, c: int) -> int
    decreases t.len() - c,
{
    if 0 <= c < t.len() && t[c] != ' ' {
        skip_word_right(t, c + 1)
    } else {
        c
    }
}

/// Where a word-wise delete left of `c` stops: past the spaces, then past
/// the word.
pub open spec fn word_start(t: Seq<char>, c: int) -> int {
    skip_word_left(t, skip_spaces_left(t, c))
}

/// Where a word-wise move left of `c` stops: as a word-wise delete, and
/// over the space before the word too.
pub open spec fn word_left(t: Seq<char>, c: int) -> int {
    let w = word_start(t, c);
    if w > 0 {
        w - 1
    } else {
        w
    }
}

/// Where a word-wise move right of `c` stops: past the word, then past the
/// spaces.
pub open spec fn word_right(t: Seq<char>, c: int) -> int {
    skip_spaces_right(t, skip_word_right(t, c))
}

/// The phrases no longer than the host's chat input, in order.
pub open spec fn keep_short(s: Seq<(int, Seq<char>)>) -> Seq<(int, Seq<char>)>
    decreases s.len(),
{
    if s.len() == 0 {
        s
    } else {
        let k = keep_short(s.drop_last());
        if s.last().1.len() <= MAX_CHAT_INPUT {
            k.push(s.last())
        } else {
            k
        }
    }
}

/// A key tap: down, then up.
pub open spec fn tap(k: Key) -> Seq<Out> {
    seq![Out::InputDown(k, false), Out::InputUp(k, false)]
}

/// `n` taps of backspace.
pub open spec fn backspaces(n: nat) -> Seq<Out>
    decreases n,
{
    if n == 0 {
        Seq::empty()
    } else {
        backspaces((n - 1) as nat) + tap(Key::Backspace)
    }
}

/// Each character of `t` typed, in order.
pub open spec fn presses(t: Seq<char>) -> Seq<Out>
    decreases t.len(),
{
    if t.len() == 0 {
        Seq::empty()
    } else {
        presses(t.drop_last()).push(Out::InputPress(t.last()))
    }
}

proof fn lemma_push_concat(a: Seq<Out>, b: Seq<Out>, x: Out)
    ensures
        (a + b).push(x) == a + b.push(x),
{
    assert((a + b).push(x) =~= a + b.push(x));
}

proof fn lemma_presses_push(t: Seq<char>, c: char)
    ensures
        presses(t.push(c)) == presses(t).push(Out::InputPress(c)),
{
    assert(t.push(c).drop_last() =~= t);
}

/// The input that replaces what the host's chat input holds by `t`: to the
/// end, as many backspaces as the input can hold, then each character.
pub open spec fn retype(t: Seq<char>) -> Seq<Out> {
    tap(Key::End) + backspaces(MAX_CHAT_INPUT as nat) + presses(t)
}

/// What the status line shows for the editor's hints: nothing (empty)
/// without hints, the overlay of the selected hint where the searched text
/// occurs in it, and `None` (no change) otherwise.
pub open spec fn status_of(v: EditorView) -> Option<Seq<char>> {
    match v.hints {
        None => Some(Seq::empty()),
        Some(h) => {
            if v.search is Some && 0 <= v.hint_pos < h.len() {
                let input = v.search->0;
                let hint = h[v.hint_pos].1;
                match first_match(hint, input) {
                    Some(p) => Some(overlay(input, hint, p)),
                    None => None,
                }
            } else {
                None
            }
        },
    }
}

/// Shows the hint status.
pub open spec fn render(v: EditorView) -> EditorView {
    match status_of(v) {
        Some(s) => EditorView { out: v.out.push(Out::ChatAddOf(s, MsgKind::Status)), ..v },
        None => v,
    }
}

/// Drops the hints and asks for new ones where the trimmed text is long
/// enough; else shows that there are none.
pub open spec fn refresh(v: EditorView) -> EditorView {
    let q = trimmed(v.text);
    let v1 = EditorView { hints: None, hint_pos: 0, pending: None, ..v };
    if q.len() >= MIN_QUERY {
        EditorView { pending: Some(q), ..v1 }
    } else {
        render(v1)
    }
}

/// Replaces the text, typing it into the host's chat input too.
pub open spec fn put_text(v: EditorView, t: Seq<char>) -> EditorView {
    EditorView { text: t, cursor: t.len() as int, out: v.out + retype(t), ..v }
}

pub open spec fn cleared(v: EditorView, open: bool) -> EditorView {
    EditorView {
        open,
        text: Seq::empty(),
        cursor: 0,
        history_pos: 0,
        restore: None,
        hints: None,
        hint_pos: 0,
        pending: None,
        ..v
    }
}

pub open spec fn remove_at(t: Seq<char>, i: int) -> Seq<char> {
    t.subrange(0, i) + t.subrange(i + 1, t.len() as int)
}

/// One key of an open editor.
pub open spec fn key_step(v: EditorView, key: Key) -> EditorView {
    let t = v.text;
    let c = v.cursor;
    match key {
        Key::Left => if ctrl_held(v.held) {
            EditorView { cursor: word_left(t, c), ..v }
        } else if c > 0 {
            EditorView { cursor: c - 1, ..v }
        } else {
            v
        },
        Key::Right => if ctrl_held(v.held) {
            EditorView { cursor: word_right(t, c), ..v }
        } else if c < t.len() {
            EditorView { cursor: c + 1, ..v }
        } else {
            v
        },
        Key::Backspace => if ctrl_held(v.held) {
            let w = word_start(t, c);
            refresh(EditorView { text: t.subrange(0, w) + t.subrange(c, t.len() as int), cursor: w, ..v })
        } else if c > 0 {
            refresh(EditorView { text: remove_at(t, c - 1), cursor: c - 1, ..v })
        } else {
            refresh(v)
        },
        Key::Delete => if c < t.len() {
            refresh(EditorView { text: remove_at(t, c), ..v })
        } else {
            refresh(v)
        },
        Key::Home => EditorView { cursor: 0, ..v },
        Key::End => EditorView { cursor: t.len() as int, ..v },
        Key::Up => if ctrl_held(v.held) {
            v
        } else {
            let v1 = if v.history_pos == 0 {
                EditorView { restore: Some(t), ..v }
            } else {
                v
            };
            if v1.history_pos < v1.history.len() {
                let p = v1.history_pos + 1;
                let h = v1.history[v1.history.len() - p];
                refresh(EditorView { history_pos: p, text: h, cursor: h.len() as int, ..v1 })
            } else {
                refresh(v1)
            }
        },
        Key::Down => if ctrl_held(v.held) {
            EditorView { cursor: t.len() as int, ..v }
        } else {
            let v1 = if v.history_pos > 1 {
                let p = v.history_pos - 1;
                EditorView { history_pos: p, text: v.history[v.history.len() - p], ..v }
            } else if v.history_pos == 1 {
                match v.restore {
                    Some(r) => EditorView { history_pos: 0, text: r, ..v },
                    None => EditorView { history_pos: 0, ..v },
                }
            } else {
                match v.restore {
                    Some(r) => EditorView { text: r, ..v },
                    None => EditorView { text: Seq::empty(), ..v },
                }
            };
            refresh(EditorView { cursor: v1.text.len() as int, ..v1 })
        },
        Key::Tab => match v.hints {
            Some(h) => {
                let n = h.len() as int;
                let shown = h[v.hint_pos].1;
                let next = if shift_held(v.held) {
                    if v.hint_pos > 0 {
                        v.hint_pos - 1
                    } else {
                        n - 1
                    }
                } else if v.hint_pos + 1 < n {
                    v.hint_pos + 1
                } else {
                    0
                };
                render(put_text(EditorView { hint_pos: next, ..v }, shown))
            },
            None => render(v),
        },
        _ => v,
    }
}

/// A key going down.
pub open spec fn key_down(v: EditorView, key: Key, repeat: bool) -> EditorView {
    if !repeat && !v.open && (key == v.open_key || key == Key::Slash) {
        let v1 = cleared(v, true);
        let v2 = if key == Key::Slash {
            EditorView { text: seq!['/'], cursor: 1, ..v1 }
        } else {
            v1
        };
        let v3 = if key != Key::Enter {
            EditorView { dedupe: true, ..v2 }
        } else {
            v2
        };
        render(v3)
    } else if !repeat && (key == v.send_key || key == Key::KeypadEnter || key == Key::Escape) {
        let sent = (key == v.send_key || key == Key::KeypadEnter) && v.open;
        let v1 = if sent {
            EditorView { history: v.history.push(v.text), ..v }
        } else {
            v
        };
        render(cleared(v1, false))
    } else {
        let v1 = if !repeat {
            EditorView { held: track(v.held, key, true), ..v }
        } else {
            v
        };
        if v1.open {
            key_step(v1, key)
        } else {
            v1
        }
    }
}

/// A typed character.
pub open spec fn key_press(v: EditorView, c: char) -> EditorView {
    if !v.open {
        v
    } else if v.dedupe {
        EditorView { dedupe: false, ..v }
    } else {
        refresh(
            EditorView {
                text: v.text.insert(v.cursor, c),
                cursor: v.cursor + 1,
                ..v
            },
        )
    }
}

/// The answer to the pending hint query `q`: dropped where the text has
/// moved on since; else the phrases that fit the chat input become the
/// hints, the first selected.
pub open spec fn answer(v: EditorView, q: Seq<char>, results: Seq<(int, Seq<char>)>) -> EditorView {
    if v.pending != Some(q) {
        v
    } else {
        let kept = keep_short(results);
        let v1 = EditorView { pending: None, ..v };
        if kept.len() > 0 {
            render(EditorView { search: Some(q), hints: Some(kept), hint_pos: 0, ..v1 })
        } else {
            render(v1)
        }
    }
}

/// The editor's invariant: the cursor within the text, the history position
/// within the history, and a selected hint where there are hints.
pub open spec fn well_formed(v: EditorView) -> bool {
    &&& 0 <= v.cursor <= v.text.len()
    &&& 0 <= v.history_pos <= v.history.len()
    &&& v.hints matches Some(h) ==> (v.search is Some && 0 <= v.hint_pos < h.len())
}

/// The chat input editor.
pub struct Chat {
    open: bool,
    text: Vec<char>,
    cursor_pos: usize,
    dedupe_open_key: bool,
    history: Vec<Vec<char>>,
    history_pos: usize,
    history_restore: Option<Vec<char>>,
    search: Option<Vec<char>>,
    hints: Option<Vec<Hint>>,
    hint_pos: usize,
    held: Modifiers,
    open_chat_key: Key,
    send_chat_key: Key,
    pending: Option<Vec<char>>,
    outgoing: Vec<OutgoingEvent>,
}

pub open spec fn opt_chars(o: Option<Vec<char>>) -> Option<Seq<char>> {
    match o {
        Some(v) => Some(v@),
        None => None,
    }
}

impl View for Chat {
    type V = EditorView;

    closed spec fn view(&self) -> EditorView {
        EditorView {
            open: self.open,
            text: self.text@,
            cursor: self.cursor_pos as int,
            dedupe: self.dedupe_open_key,
            history: self.history@.map_values(|h: Vec<char>| h@),
            history_pos: self.history_pos as int,
            restore: opt_chars(self.history_restore),
            search: opt_chars(self.search),
            hints: match self.hints {
                Some(h) => Some(hints_value(h@)),
                None => None,
            },
            hint_pos: self.hint_pos as int,
            held: self.held,
            open_key: self.open_chat_key,
            send_key: self.send_chat_key,
            pending: opt_chars(self.pending),
            out: outs(self.outgoing@),
        }
    }
}

fn copy_chars(v: &Vec<char>) -> (r: Vec<char>)
    ensures
        r@ == v@,
{
    slice_chars(v, 0, v.len())
}

fn copy_opt(o: &Option<Vec<char>>) -> (r: Option<Vec<char>>)
    ensures
        opt_chars(r) == opt_chars(*o),
{
    match o {
        Some(v) => Some(copy_chars(v)),
        None => None,
    }
}

/// The events that retype the host's chat input as `t`.
fn retype_events(t: &Vec<char>) -> (r: Vec<OutgoingEvent>)
    ensures
        outs(r@) == retype(t@),
{
    let mut r: Vec<OutgoingEvent> = Vec::new();
    r.push(OutgoingEvent::InputDown(Key::End, false));
    r.push(OutgoingEvent::InputUp(Key::End, false));
    assert(outs(r@) =~= tap(Key::End));
    let mut i: usize = 0;
    while i < MAX_CHAT_INPUT
        invariant
            i <= MAX_CHAT_INPUT,
            outs(r@) == tap(Key::End) + backspaces(i as nat),
        decreases MAX_CHAT_INPUT - i,
    {
        let ghost r0 = r@;
        r.push(OutgoingEvent::InputDown(Key::Backspace, false));
        r.push(OutgoingEvent::InputUp(Key::Backspace, false));
        i += 1;
        assert(outs(r@) =~= outs(r0) + tap(Key::Backspace));
        assert(outs(r@) =~= tap(Key::End) + backspaces(i as nat));
    }
    let ghost base = outs(r@);
    let mut j: usize = 0;
    assert(presses(t@.subrange(0, 0)) =~= Seq::<Out>::empty());
    assert(outs(r@) =~= base + presses(t@.subrange(0, 0)));
    while j < t.len()
        invariant
            j <= t.len(),
            outs(r@) == base + presses(t@.subrange(0, j as int)),
        decreases t.len() - j,
    {
        let ghost r0 = r@;
        let c = t[j];
        let e = crate::events::simulate_char(c);
        proof {
            crate::events::lemma_outs_push(r0, e);
        }
        r.push(e);
        j += 1;
        assert(t@.subrange(0, j as int) =~= t@.subrange(0, j - 1).push(t@[j - 1]));
        proof {
            lemma_presses_push(t@.subrange(0, j - 1), t@[j - 1]);
            lemma_push_concat(base, presses(t@.subrange(0, j - 1)), Out::InputPress(c));
        }
    }
    assert(t@.subrange(0, j as int) =~= t@);
    r
}

fn spaces_left(t: &Vec<char>, c: usize) -> (r: usize)
    requires
        c <= t.len(),
    ensures
        r <= c,
        r as int == skip_spaces_left(t@, c as int),
{
    let mut i = c;
    while i > 0 && t[i - 1] == ' '
        invariant
            i <= c <= t.len(),
            skip_spaces_left(t@, c as int) == skip_spaces_left(t@, i as int),
        decreases i,
    {
        i -= 1;
    }
    i
}

fn word_left_start(t: &Vec<char>, c: usize) -> (r: usize)
    requires
        c <= t.len(),
    ensures
        r <= c,
        r as int == skip_word_left(t@, c as int),
{
    let mut i = c;
    while i > 0 && t[i - 1] != ' '
        invariant
            i <= c <= t.len(),
            skip_word_left(t@, c as int) == skip_word_left(t@, i as int),
        decreases i,
    {
        i -= 1;
    }
    i
}

fn spaces_right(t: &Vec<char>, c: usize) -> (r: usize)
    requires
        c <= t.len(),
    ensures
        c <= r <= t.len(),
        r as int == skip_spaces_right(t@, c as int),
{
    let mut i = c;
    while i < t.len() && t[i] == ' '
        invariant
            c <= i <= t.len(),
            skip_spaces_right(t@, c as int) == skip_spaces_right(t@, i as int),
        decreases t.len() - i,
    {
        i += 1;
    }
    i
}

fn word_right_end(t: &Vec<char>, c: usize) -> (r: usize)
    requires
        c <= t.len(),
    ensures
        c <= r <= t.len(),
        r as int == skip_word_right(t@, c as int),
{
    let mut i = c;
    while i < t.len() && t[i] != ' '
        invariant
            c <= i <= t.len(),
            skip_word_right(t@, c as int) == skip_word_right(t@, i as int),
        decreases t.len() - i,
    {
        i += 1;
    }
    i
}

/// The hints that fit the host's chat input, in order.
fn keep_short_hints(results: Vec<Hint>) -> (r: Vec<Hint>)
    ensures
        hints_value(r@) == keep_short(hints_value(results@)),
{
    let mut r: Vec<Hint> = Vec::new();
    let mut i: usize = 0;
    let mut results = results;
    let ghost all = hints_value(results@);
    assert(hints_value(r@) =~= keep_short(all.subrange(0, 0)));
    while i < results.len()
        invariant
            i <= results.len(),
            all == hints_value(results@),
            hints_value(r@) == keep_short(all.subrange(0, i as int)),
        decreases results.len() - i,
    {
        let n = results[i].sentence.as_str().unicode_len();
        let ghost sub = all.subrange(0, i + 1);
        assert(sub.drop_last() =~= all.subrange(0, i as int));
        assert(sub.last() == hint_value(results@[i as int]));
        if n <= MAX_CHAT_INPUT {
            let ghost r0 = r@;
            let h = Hint { offset: results[i].offset, sentence: crate::text::copy_string(&results[i].sentence) };
            r.push(h);
            assert(hints_value(r@) =~= hints_value(r0).push(hint_value(h)));
        }
        i += 1;
    }
    assert(all.subrange(0, i as int) =~= all);
    r
}

impl Chat {
    pub closed spec fn inv(&self) -> bool {
        &&& well_formed(self@)
        &&& self.history@.len() == self@.history.len()
        &&& (self.hints matches Some(h) ==> h@.len() == hints_value(h@).len())
    }

    /// A closed editor with empty text and history, opened by `open_chat_key`
    /// and sent by `send_chat_key`.
    pub fn new(open_chat_key: Key, send_chat_key: Key) -> (r: Chat)
        ensures
            r.inv(),
            r@ == (EditorView {
                open: false,
                text: Seq::empty(),
                cursor: 0,
                dedupe: false,
                history: Seq::empty(),
                history_pos: 0,
                restore: None,
                search: None,
                hints: None,
                hint_pos: 0,
                held: Modifiers {
                    left_ctrl: false,
                    right_ctrl: false,
                    left_shift: false,
                    right_shift: false,
                },
                open_key: open_chat_key,
                send_key: send_chat_key,
                pending: None,
                out: Seq::empty(),
            }),
    {
        let r = Chat {
            open: false,
            text: Vec::new(),
            cursor_pos: 0,
            dedupe_open_key: false,
            history: Vec::new(),
            history_pos: 0,
            history_restore: None,
            search: None,
            hints: None,
            hint_pos: 0,
            held: Modifiers {
                left_ctrl: false,
                right_ctrl: false,
                left_shift: false,
                right_shift: false,
            },
            open_chat_key,
            send_chat_key,
            pending: None,
            outgoing: Vec::new(),
        };
        assert(r@.history =~= Seq::<Seq<char>>::empty());
        assert(r@.out =~= Seq::<Out>::empty());
        r
    }

    /// The text as a string.
    pub fn get_text(&self) -> (r: String)
        ensures
            r@ == self@.text,
    {
        string_from(&self.text)
    }

    /// Whether the editor is open.
    pub fn is_open(&self) -> (r: bool)
        ensures
            r == self@.open,
    {
        self.open
    }

    /// The cursor's index in the text.
    pub fn cursor(&self) -> (r: usize)
        ensures
            r == self@.cursor,
    {
        self.cursor_pos
    }

    /// The trimmed text whose hints are awaited, if any.
    pub fn pending_query(&self) -> (r: Option<String>)
        ensures
            r is Some <==> self@.pending is Some,
            r is Some ==> r->0@ == self@.pending->0,
    {
        match &self.pending {
            Some(q) => Some(string_from(q)),
            None => None,
        }
    }

    /// Hands over the events that the editor has asked the host for.
    pub fn take_outgoing(&mut self) -> (r: Vec<OutgoingEvent>)
        requires
            old(self).inv(),
        ensures
            final(self).inv(),
            0 <= final(self)@.cursor <= final(self)@.text.len(),
            outs(r@) == old(self)@.out,
            final(self)@ == (EditorView { out: Seq::empty(), ..old(self)@ }),
    {
        let mut r: Vec<OutgoingEvent> = Vec::new();
        core::mem::swap(&mut r, &mut self.outgoing);
        assert(self@.out =~= Seq::<Out>::empty());
        assert(self@ =~= (EditorView { out: Seq::empty(), ..old(self)@ }));
        r
    }

    fn emit(&mut self, e: OutgoingEvent)
        ensures
            final(self)@ == (EditorView { out: old(self)@.out.push(e@), ..old(self)@ }),
            final(self).history@ == old(self).history@,
            final(self).hints == old(self).hints,
    {
        let ghost o = self.outgoing@;
        self.outgoing.push(e);
        assert(outs(self.outgoing@) =~= outs(o).push(e@));
    }

    /// What the status line is to show, as `status_of` says.
    fn status_line(&self) -> (r: Option<Vec<char>>)
        requires
            self.inv(),
        ensures
            opt_chars(r) == status_of(self@),
    {
        match &self.hints {
            None => Some(Vec::new()),
            Some(hints) => {
                let input = match &self.search {
                    Some(s) => copy_chars(s),
                    None => {
                        return None;
                    },
                };
                let hint = chars_of(hints[self.hint_pos].sentence.as_str());
                assert(hint@ == hints_value(hints@)[self.hint_pos as int].1);
                match find_chars(&hint, &input) {
                    Some(p) => Some(hint_overlay(&input, &hint, p)),
                    None => None,
                }
            },
        }
    }

    fn render_hints(&mut self)
        requires
            old(self).inv(),
        ensures
            final(self).inv(),
            final(self)@ == render(old(self)@),
            final(self).history@ == old(self).history@,
            final(self).hints == old(self).hints,
    {
        match self.status_line() {
            Some(s) => {
                let e = OutgoingEvent::ChatAddOf(string_from(&s), MsgKind::Status);
                self.emit(e);
            },
            None => {},
        }
    }

    fn refresh_hints(&mut self)
        requires
            old(self).inv(),
        ensures
            final(self).inv(),
            final(self)@ == refresh(old(self)@),
            final(self).history@ == old(self).history@,
    {
        self.hints = None;
        self.hint_pos = 0;
        self.pending = None;
        let q = trim_chars(&self.text);
        if q.len() >= MIN_QUERY {
            self.pending = Some(q);
        } else {
            self.render_hints();
        }
    }

    fn emit_all(&mut self, es: Vec<OutgoingEvent>)
        ensures
            final(self)@ == (EditorView { out: old(self)@.out + outs(es@), ..old(self)@ }),
            final(self).history@ == old(self).history@,
            final(self).hints == old(self).hints,
    {
        let mut es = es;
        let ghost o = self.outgoing@;
        let ghost e0 = es@;
        self.outgoing.append(&mut es);
        assert(outs(self.outgoing@) =~= outs(o) + outs(e0));
    }

    fn put_text(&mut self, t: Vec<char>)
        requires
            old(self).inv(),
        ensures
            final(self).inv(),
            final(self)@ == put_text(old(self)@, t@),
            final(self).history@ == old(self).history@,
            final(self).hints == old(self).hints,
    {
        let es = retype_events(&t);
        self.emit_all(es);
        self.cursor_pos = t.len();
        self.text = t;
    }

    fn track(&mut self, key: Key, down: bool)
        requires
            old(self).inv(),
        ensures
            final(self).inv(),
            final(self)@ == (EditorView { held: track(old(self)@.held, key, down), ..old(self)@ }),
            final(self).history@ == old(self).history@,
    {
        match key {
            Key::LeftCtrl => self.held.left_ctrl = down,
            Key::RightCtrl => self.held.right_ctrl = down,
            Key::LeftShift => self.held.left_shift = down,
            Key::RightShift => self.held.right_shift = down,
            _ => {},
        }
    }

    fn ctrl(&self) -> (r: bool)
        ensures
            r == ctrl_held(self@.held),
    {
        self.held.left_ctrl || self.held.right_ctrl
    }

    fn shift(&self) -> (r: bool)
        ensures
            r == shift_held(self@.held),
    {
        self.held.left_shift || self.held.right_shift
    }

    fn set_plain_text(&mut self, t: Vec<char>)
        requires
            old(self).inv(),
            old(self)@.cursor <= t@.len(),
        ensures
            final(self).inv(),
            final(self)@ == (EditorView { text: t@, ..old(self)@ }),
            final(self).history@ == old(self).history@,
            final(self).hints == old(self).hints,
    {
        self.text = t;
    }

    fn handle_key(&mut self, key: Key)
        requires
            old(self).inv(),
            old(self)@.open,
        ensures
            final(self).inv(),
            final(self)@ == key_step(old(self)@, key),
    {
        let ghost v = self@;
        let len = self.text.len();
        let c = self.cursor_pos;
        match key {
            Key::Left => {
                if self.ctrl() {
                    let w = word_left_start(&self.text, spaces_left(&self.text, c));
                    self.cursor_pos = if w > 0 { w - 1 } else { w };
                } else if c > 0 {
                    self.cursor_pos = c - 1;
                }
                assert(self@ == key_step(v, key));
            },
            Key::Right => {
                if self.ctrl() {
                    self.cursor_pos = spaces_right(&self.text, word_right_end(&self.text, c));
                } else if c < len {
                    self.cursor_pos = c + 1;
                }
                assert(self@ == key_step(v, key));
            },
            Key::Backspace => {
                if self.ctrl() {
                    let w = word_left_start(&self.text, spaces_left(&self.text, c));
                    let mut t = slice_chars(&self.text, 0, w);
                    let rest = slice_chars(&self.text, c, len);
                    append_chars(&mut t, &rest);
                    self.cursor_pos = w;
                    self.set_plain_text(t);
                } else if c > 0 {
                    self.text.remove(c - 1);
                    assert(self.text@ =~= remove_at(v.text, c - 1));
                    self.cursor_pos = c - 1;
                }
                self.refresh_hints();
                assert(self@ == key_step(v, key));
            },
            Key::Delete => {
                if c < len {
                    self.text.remove(c);
                    assert(self.text@ =~= remove_at(v.text, c as int));
                }
                self.refresh_hints();
                assert(self@ == key_step(v, key));
            },
            Key::Home => {
                self.cursor_pos = 0;
                assert(self@ == key_step(v, key));
            },
            Key::End => {
                self.cursor_pos = len;
                assert(self@ == key_step(v, key));
            },
            Key::Up => {
                if !self.ctrl() {
                    if self.history_pos == 0 {
                        self.history_restore = Some(copy_chars(&self.text));
                    }
                    if self.history_pos < self.history.len() {
                        let p = self.history_pos + 1;
                        let h = copy_chars(&self.history[self.history.len() - p]);
                        self.history_pos = p;
                        self.cursor_pos = h.len();
                        self.text = h;
                    }
                    self.refresh_hints();
                }
                assert(self@ == key_step(v, key));
            },
            Key::Down => {
                if self.ctrl() {
                    self.cursor_pos = len;
                } else {
                    if self.history_pos > 1 {
                        let p = self.history_pos - 1;
                        let h = copy_chars(&self.history[self.history.len() - p]);
                        self.history_pos = p;
                        self.cursor_pos = h.len();
                        self.text = h;
                    } else if self.history_pos == 1 {
                        self.history_pos = 0;
                        match &self.history_restore {
                            Some(r) => {
                                let h = copy_chars(r);
                                self.cursor_pos = h.len();
                                self.text = h;
                            },
                            None => {},
                        }
                    } else {
                        let h = match &self.history_restore {
                            Some(r) => copy_chars(r),
                            None => Vec::new(),
                        };
                        self.cursor_pos = h.len();
                        self.text = h;
                    }
                    self.cursor_pos = self.text.len();
                    self.refresh_hints();
                }
                assert(self@ == key_step(v, key));
            },
            Key::Tab => {
                match &self.hints {
                    Some(hints) => {
                        let n = hints.len();
                        let shown = chars_of(hints[self.hint_pos].sentence.as_str());
                        assert(shown@ == v.hints->0[v.hint_pos].1);
                        let next = if self.shift() {
                            if self.hint_pos > 0 {
                                self.hint_pos - 1
                            } else {
                                n - 1
                            }
                        } else if self.hint_pos + 1 < n {
                            self.hint_pos + 1
                        } else {
                            0
                        };
                        self.hint_pos = next;
                        self.put_text(shown);
                        self.render_hints();
                    },
                    None => {
                        self.render_hints();
                    },
                }
            },
            _ => {
            },
        }
    }

    fn clear(&mut self, open: bool)
        requires
            old(self).inv(),
        ensures
            final(self).inv(),
            final(self)@ == cleared(old(self)@, open),
            final(self).history@ == old(self).history@,
    {
        self.open = open;
        self.text = Vec::new();
        self.cursor_pos = 0;
        self.history_pos = 0;
        self.history_restore = None;
        self.hints = None;
        self.hint_pos = 0;
        self.pending = None;
    }

    /// A key went down (`repeat` where the host repeats a held key).
    pub fn handle_key_down(&mut self, key: Key, repeat: bool)
        requires
            old(self).inv(),
        ensures
            final(self).inv(),
            0 <= final(self)@.cursor <= final(self)@.text.len(),
            final(self)@ == key_down(old(self)@, key, repeat),
    {
        let ghost v = self@;
        if !repeat {
            if !self.open && (key == self.open_chat_key || key == Key::Slash) {
                self.clear(true);
                if key == Key::Slash {
                    self.text.push('/');
                    self.cursor_pos = 1;
                    assert(self.text@ =~= seq!['/']);
                }
                if key != Key::Enter {
                    self.dedupe_open_key = true;
                }
                self.render_hints();
                return;
            }
            let sent = key == self.send_chat_key || key == Key::KeypadEnter;
            if sent || key == Key::Escape {
                if sent && self.open {
                    let t = copy_chars(&self.text);
                    let ghost h0 = self.history@;
                    self.history.push(t);
                    assert(self.history@.map_values(|h: Vec<char>| h@) =~= h0.map_values(
                        |h: Vec<char>| h@,
                    ).push(v.text));
                }
                self.clear(false);
                self.render_hints();
                return;
            }
            self.track(key, true);
        }
        if self.open {
            self.handle_key(key);
        }
    }

    /// A key went up.
    pub fn handle_key_up(&mut self, key: Key)
        requires
            old(self).inv(),
        ensures
            final(self).inv(),
            0 <= final(self)@.cursor <= final(self)@.text.len(),
            final(self)@ == (EditorView { held: track(old(self)@.held, key, false), ..old(self)@ }),
    {
        self.track(key, false);
    }

    /// A character was typed.
    pub fn handle_key_press(&mut self, key: char)
        requires
            old(self).inv(),
        ensures
            final(self).inv(),
            0 <= final(self)@.cursor <= final(self)@.text.len(),
            final(self)@ == key_press(old(self)@, key),
    {
        if self.open {
            if self.dedupe_open_key {
                self.dedupe_open_key = false;
                return;
            }
            self.text.insert(self.cursor_pos, key);
            let n = self.text.len();
            assert(self.cursor_pos < n);
            self.cursor_pos = self.cursor_pos + 1;
            self.refresh_hints();
        }
    }

    /// The catalog's answer to the hint query `query`: the candidates in
    /// order of relevance.
    pub fn receive_hints(&mut self, query: &str, results: Vec<Hint>)
        requires
            old(self).inv(),
        ensures
            final(self).inv(),
            0 <= final(self)@.cursor <= final(self)@.text.len(),
            final(self)@ == answer(old(self)@, query@, hints_value(results@)),
    {
        let q = chars_of(query);
        let current = match &self.pending {
            Some(p) => p.len() == q.len() && crate::text::starts_with(p, &q),
            None => false,
        };
        proof {
            if self.pending is Some {
                let p = self.pending->0@;
                assert(p.subrange(0, p.len() as int) =~= p);
                if p.len() == q@.len() && crate::text::has_prefix(p, q@) {
                    assert(p =~= q@);
                }
            }
        }
        if !current {
            return;
        }
        self.pending = None;
        let kept = keep_short_hints(results);
        if kept.len() > 0 {
            self.search = Some(q);
            self.hints = Some(kept);
            self.hint_pos = 0;
        }
        self.render_hints();
    }

    /// Replaces the text by `text`, typing it into the host's chat input.
    pub fn set_text(&mut self, text: &str)
        requires
            old(self).inv(),
        ensures
            final(self).inv(),
            0 <= final(self)@.cursor <= final(self)@.text.len(),
            final(self)@ == put_text(old(self)@, text@),
    {
        let t = chars_of(text);
        self.put_text(t);
    }
}

/// `n` presses of Up.
pub open spec fn ups(v: EditorView, n: nat) -> EditorView
    decreases n,
{
    if n == 0 {
        v
    } else {
        key_step(ups(v, (n - 1) as nat), Key::Up)
    }
}

/// `n` presses of Down.
pub open spec fn downs(v: EditorView, n: nat) -> EditorView
    decreases n,
{
    if n == 0 {
        v
    } else {
        key_step(downs(v, (n - 1) as nat), Key::Down)
    }
}

/// Whatever keys and characters reach an editor, its cursor stays within
/// its text: every method keeps the invariant, and the invariant holds this.
pub proof fn lemma_cursor_in_text(c: &Chat)
    requires
        c.inv(),
    ensures
        0 <= c@.cursor <= c@.text.len(),
{
}

proof fn lemma_ups(v: EditorView, k: nat)
    requires
        v.open,
        !ctrl_held(v.held),
        v.history_pos == 0,
        k <= v.history.len(),
    ensures
        ups(v, k).open,
        ups(v, k).held == v.held,
        ups(v, k).history == v.history,
        ups(v, k).history_pos == k,
        k > 0 ==> ups(v, k).restore == Some(v.text),
    decreases k,
{
    if k > 0 {
        lemma_ups(v, (k - 1) as nat);
    }
}

proof fn lemma_downs(v: EditorView, n: nat, k: nat)
    requires
        v.open,
        !ctrl_held(v.held),
        v.history_pos == 0,
        0 < n <= v.history.len(),
        k <= n,
    ensures
        downs(ups(v, n), k).open,
        downs(ups(v, n), k).held == v.held,
        downs(ups(v, n), k).history == v.history,
        downs(ups(v, n), k).history_pos == n - k,
        downs(ups(v, n), k).restore == Some(v.text),
        k == n ==> downs(ups(v, n), k).text == v.text,
        k > 0 ==> downs(ups(v, n), k).cursor == downs(ups(v, n), k).text.len(),
    decreases k,
{
    lemma_ups(v, n);
    if k > 0 {
        lemma_downs(v, n, (k - 1) as nat);
    }
}

/// Browsing the history up `n` times and down `n` times, from a line being
/// edited and with at least `n` lines sent before, brings back the line
/// being edited, with the cursor at its end.
pub proof fn lemma_history_round_trip(v: EditorView, n: nat)
    requires
        well_formed(v),
        v.open,
        !ctrl_held(v.held),
        v.history_pos == 0,
        0 < n <= v.history.len(),
    ensures
        downs(ups(v, n), n).text == v.text,
        downs(ups(v, n), n).cursor == v.text.len(),
        downs(ups(v, n), n).history_pos == 0,
{
    lemma_downs(v, n, n);
}

} // verus!
