//! From a received chat line to what to play: the speaker, the phrase, the
//! seed that every observer shares, and the emitters that follow speakers.
use vstd::prelude::*;
use crate::overlay::{find_chars, first_match};
use crate::roster::{EntitiesModule, TabListEntry, TabListModule, ENTITY_SELF_ID, lookup};
use crate::selector::{SpeakerCounts, speaker_hash, global_name, global_name_spec};
use crate::events::MsgKind;
use crate::text::{
    chars_of, string_from, slice_chars, trim_chars, trimmed, remove_color, strip_all_colors,
    continuation_of, global_cs_of, global_csent_of, is_continuation_message, is_global_cs_message,
    is_global_csent_message,
};

verus! {

/// Whether `s` is the phrase that stops every sound: "sh" in any case.
pub open spec fn is_stop_phrase(s: Seq<char>) -> bool {
    s.len() == 2 && (s[0] == 's' || s[0] == 'S') && (s[1] == 'h' || s[1] == 'H')
}

/// Exec check of the stop phrase.
pub fn stop_phrase(s: &Vec<char>) -> (r: bool)
    ensures
        r == is_stop_phrase(s@),
{
    s.len() == 2 && (s[0] == 's' || s[0] == 'S') && (s[1] == 'h' || s[1] == 'H')
}

pub open spec fn colon_space() -> Seq<char> {
    seq![':', ' ']
}

/// The speaker's displayed name and what was said, where a line reads
/// `"<name>: <text>"` and the first `": "` stands after the fifth character.
#[verifier::opaque]
pub open spec fn speaker_split(s: Seq<char>) -> Option<(Seq<char>, Seq<char>)> {
    match first_match(s, colon_space()) {
        Some(p) => if p > 4 {
            Some((s.subrange(0, p), s.subrange(p + 2, s.len() as int)))
        } else {
            None
        },
        None => None,
    }
}

/// A line split as `speaker_split` says.
pub fn split_speaker(line: &Vec<char>) -> (r: Option<(Vec<char>, Vec<char>)>)
    ensures
        r is Some <==> speaker_split(line@) is Some,
        r matches Some(p) ==> speaker_split(line@) == Some((p.0@, p.1@)),
{
    reveal(speaker_split);
    let sep: Vec<char> = vec![':', ' '];
    assert(sep@ =~= colon_space());
    match find_chars(line, &sep) {
        Some(p) => {
            if p > 4 {
                Some((slice_chars(line, 0, p), slice_chars(line, p + 2, line.len())))
            } else {
                None
            }
        },
        None => None,
    }
}

/// The line that a chat line makes with the one before, and what the next
/// continuation is added to: a continuation (`"> "`) joins the previous
/// line with one space, where there is one; any other line starts anew.
#[verifier::opaque]
pub open spec fn stitched(last: Option<Seq<char>>, msg: Seq<char>) -> (Seq<char>, Option<Seq<char>>) {
    match continuation_of(msg) {
        Some(c) => match last {
            Some(l) => (l + seq![' '] + c, Some(l + seq![' '] + c)),
            None => (msg, None),
        },
        None => (msg, Some(msg)),
    }
}

/// The previous chat line, to which continuation lines are joined.
pub struct ChatLog {
    chat_last: Option<String>,
}

impl ChatLog {
    pub closed spec fn last(&self) -> Option<Seq<char>> {
        match self.chat_last {
            Some(s) => Some(s@),
            None => None,
        }
    }

    /// No previous line.
    pub fn new() -> (r: ChatLog)
        ensures
            r.last() is None,
    {
        ChatLog { chat_last: None }
    }

    /// Joins `msg` to the previous line, as `stitched` says.
    pub fn stitch(&mut self, msg: &str) -> (r: String)
        ensures
            (r@, final(self).last()) == stitched(old(self).last(), msg@),
    {
        reveal(stitched);
        match is_continuation_message(msg) {
            Some(c) => match &self.chat_last {
                Some(l) => {
                    let mut v = chars_of(l.as_str());
                    v.push(' ');
                    let cv = chars_of(c.as_str());
                    crate::overlay::append_chars(&mut v, &cv);
                    let joined = string_from(&v);
                    self.chat_last = Some(string_from(&v));
                    joined
                },
                None => string_from(&chars_of(msg)),
            },
            None => {
                self.chat_last = Some(string_from(&chars_of(msg)));
                string_from(&chars_of(msg))
            },
        }
    }
}

/// Who a chat line makes speak, and what.
pub struct Trigger {
    pub entity_id: u8,
    pub speaker: String,
    pub text: String,
    pub anchored: bool,
}

/// What to do for a chat line.
pub enum PlayAction {
    /// Stop every sound and drop every emitter.
    StopAll,
    /// Play `phrase`, drawing the clip with `seed`: around entity
    /// `entity_id` where `spatial`, at a fixed place where `anchored`.
    Play { phrase: String, seed: u64, entity_id: u8, spatial: bool, anchored: bool },
}

/// The phrase that a trigger's text plays: colors removed, trimmed.
pub open spec fn phrase_of(text: Seq<char>) -> Seq<char> {
    trimmed(strip_all_colors(text))
}

/// A sound bound to an entity (or to a fixed place) while it plays.
#[derive(Clone, Copy, Debug, PartialEq, Eq, Structural)]
pub struct Emitter {
    pub entity_id: u8,
    pub sink: u64,
    pub anchored: bool,
}

/// The items of `s` whose flag in `keep` is set, in order.
pub open spec fn kept(s: Seq<Emitter>, keep: Seq<bool>) -> Seq<Emitter>
    decreases s.len(),
{
    if s.len() == 0 {
        s
    } else {
        let k = kept(s.drop_last(), keep);
        if s.len() - 1 < keep.len() && keep[s.len() - 1] {
            k.push(s.last())
        } else {
            k
        }
    }
}

/// Whether an emitter still plays this tick: its entity is still there (or
/// it is anchored), the listener's place is known and its sink is alive.
pub open spec fn stays(e: Emitter, ids: Set<u8>, listener_known: bool, sink_alive: bool) -> bool {
    (e.anchored || ids.contains(e.entity_id)) && listener_known && sink_alive
}

/// The sounds that follow their speakers.
pub struct EmitterSet {
    items: Vec<Emitter>,
}

impl EmitterSet {
    pub closed spec fn items(&self) -> Seq<Emitter> {
        self.items@
    }

    /// No emitter.
    pub fn new() -> (r: EmitterSet)
        ensures
            r.items() == Seq::<Emitter>::empty(),
    {
        EmitterSet { items: Vec::new() }
    }

    /// The emitters, in the order they began.
    pub fn list(&self) -> (r: Vec<Emitter>)
        ensures
            r@ == self.items(),
    {
        let mut r: Vec<Emitter> = Vec::new();
        let mut i: usize = 0;
        while i < self.items.len()
            invariant
                i <= self.items.len(),
                r@ == self.items@.subrange(0, i as int),
            decreases self.items.len() - i,
        {
            r.push(self.items[i]);
            i += 1;
        }
        r
    }

    /// Adds an emitter.
    pub fn add(&mut self, e: Emitter)
        ensures
            final(self).items() == old(self).items().push(e),
    {
        self.items.push(e);
    }

    /// Drops every emitter.
    pub fn clear(&mut self)
        ensures
            final(self).items() == Seq::<Emitter>::empty(),
    {
        self.items = Vec::new();
    }

    /// Keeps the emitters whose flag in `keep` is set, in order.
    pub fn retain_flagged(&mut self, keep: &Vec<bool>)
        requires
            keep@.len() == old(self).items().len(),
        ensures
            final(self).items() == kept(old(self).items(), keep@),
    {
        let mut r: Vec<Emitter> = Vec::new();
        let mut i: usize = 0;
        let ghost s = self.items@;
        assert(kept(s.subrange(0, 0), keep@) =~= r@);
        while i < self.items.len()
            invariant
                i <= self.items.len(),
                s == self.items@,
                keep@.len() == s.len(),
                r@ == kept(s.subrange(0, i as int), keep@),
            decreases self.items.len() - i,
        {
            let ghost sub = s.subrange(0, i + 1);
            assert(sub.drop_last() =~= s.subrange(0, i as int));
            if keep[i] {
                r.push(self.items[i]);
            }
            i += 1;
        }
        assert(s.subrange(0, i as int) =~= s);
        self.items = r;
    }

    /// A tick: drops each emitter that does not stay, as `stays` says, where
    /// `sinks_alive` tells for each emitter whether its sink still plays.
    pub fn handle_tick(&mut self, entities: &EntitiesModule, listener_known: bool, sinks_alive: &Vec<bool>)
        requires
            entities.inv(),
            sinks_alive@.len() == old(self).items().len(),
        ensures
            final(self).items().len() <= old(self).items().len(),
            exists|keep: Seq<bool>|
                keep.len() == old(self).items().len() && (forall|i: int|
                    0 <= i < keep.len() ==> keep[i] == stays(
                        old(self).items()[i],
                        entities.ids(),
                        listener_known,
                        sinks_alive@[i],
                    )) && final(self).items() == kept(old(self).items(), keep),
    {
        let mut keep: Vec<bool> = Vec::new();
        let mut i: usize = 0;
        while i < self.items.len()
            invariant
                i <= self.items.len(),
                entities.inv(),
                sinks_alive@.len() == self.items@.len(),
                keep@.len() == i,
                forall|j: int|
                    0 <= j < i ==> keep@[j] == stays(
                        self.items@[j],
                        entities.ids(),
                        listener_known,
                        sinks_alive@[j],
                    ),
            decreases self.items.len() - i,
        {
            let e = self.items[i];
            let present = e.anchored || entities.get(e.entity_id).is_some();
            keep.push(present && listener_known && sinks_alive[i]);
            i += 1;
        }
        self.retain_flagged(&keep);
        proof {
            lemma_kept_len(old(self).items(), keep@);
        }
    }
}

proof fn lemma_kept_len(s: Seq<Emitter>, keep: Seq<bool>)
    ensures
        kept(s, keep).len() <= s.len(),
    decreases s.len(),
{
    if s.len() > 0 {
        lemma_kept_len(s.drop_last(), keep);
    }
}

/// The phrase and entity id of a `"csent"` line.
pub open spec fn csent_parts(line: Seq<char>) -> (Seq<char>, u8) {
    global_csent_of(line)->0
}

/// What `find_player_from_message` gives for `msg`, with the previous line
/// `last` before and `last2` after.
pub open spec fn found_player(
    last: Option<Seq<char>>,
    last2: Option<Seq<char>>,
    msg: Seq<char>,
    tab: Seq<TabListEntry>,
    singleplayer: bool,
    r: Option<Trigger>,
) -> bool {
    if singleplayer {
        last2 == last && (r matches Some(t) && t.entity_id == ENTITY_SELF_ID && t.speaker@
            == Seq::<char>::empty() && t.text@ == msg && !t.anchored)
    } else {
        &&& last2 == stitched(last, msg).1
        &&& match speaker_split(stitched(last, msg).0) {
            None => r is None,
            Some(parts) => match r {
                None => lookup(tab, parts.0, None) || exists|id: u8|
                    lookup(tab, parts.0, Some(id)) && forall|j: int| 0 <= j < tab.len() ==> tab[j].id != id,
                Some(t) => lookup(tab, parts.0, Some(t.entity_id)) && t.text@ == parts.1 && !t.anchored
                    && exists|i: int|
                    0 <= i < tab.len() && tab[i].id == t.entity_id && t.speaker@ == tab[i].real_name@,
            },
        }
    }
}

/// Who a chat line makes speak, as `classify` says.
pub open spec fn classified(
    last: Option<Seq<char>>,
    last2: Option<Seq<char>>,
    line: Seq<char>,
    tab: Seq<TabListEntry>,
    singleplayer: bool,
    r: Option<Trigger>,
) -> bool {
    if global_cs_of(line) is Some {
        last2 == last && (r matches Some(t) && t.entity_id == ENTITY_SELF_ID && t.speaker@
            == global_name_spec() && t.text@ == global_cs_of(line)->0 && !t.anchored)
    } else if global_csent_of(line) is Some {
        last2 == last && (r matches Some(t) && t.entity_id == csent_parts(line).1 && t.speaker@
            == global_name_spec() && t.text@ == csent_parts(line).0 && !t.anchored)
    } else {
        found_player(last, last2, line, tab, singleplayer, r)
    }
}

/// What `play_trigger` gives for `t`, where `said` lines were counted for
/// its speaker before and `ids` are present.
pub open spec fn played(t: Trigger, said: usize, ids: Set<u8>, r: Option<PlayAction>) -> bool {
    if !ids.contains(t.entity_id) {
        r is None
    } else if is_stop_phrase(phrase_of(t.text@)) {
        r matches Some(PlayAction::StopAll)
    } else {
        match r {
            Some(PlayAction::Play { phrase, seed, entity_id, spatial, anchored }) => phrase@
                == phrase_of(t.text@) && seed == speaker_hash(t.speaker@, said) && entity_id
                == t.entity_id && anchored == t.anchored && spatial == (t.anchored || t.entity_id
                != ENTITY_SELF_ID),
            _ => false,
        }
    }
}

/// `b` counts one more line for `name` than `a` (staying at the largest
/// count once there), and as many for everyone else.
pub open spec fn bumped(a: &ChatsoundsEventListener, b: &ChatsoundsEventListener, name: Seq<char>) -> bool {
    &&& b.said(name) == if a.said(name) == usize::MAX {
        usize::MAX
    } else {
        (a.said(name) + 1) as usize
    }
    &&& forall|n: Seq<char>| n != name ==> b.said(n) == a.said(n)
}

/// After the action `r`, `b` has no emitter where `r` stops everything, and
/// the emitters of `a` otherwise.
pub open spec fn emitters_after(a: &ChatsoundsEventListener, b: &ChatsoundsEventListener, r: Option<PlayAction>) -> bool {
    if r matches Some(PlayAction::StopAll) {
        b.emitters() == Seq::<Emitter>::empty()
    } else {
        b.emitters() == a.emitters()
    }
}

/// The chat-sound listener's state: the previous line, the per-speaker
/// counts and the emitters.
pub struct ChatsoundsEventListener {
    log: ChatLog,
    counts: SpeakerCounts,
    emitters: EmitterSet,
}

impl ChatsoundsEventListener {
    pub closed spec fn inv(&self) -> bool {
        self.counts.inv()
    }

    pub closed spec fn last(&self) -> Option<Seq<char>> {
        self.log.last()
    }

    pub closed spec fn said(&self, name: Seq<char>) -> usize {
        self.counts.said(name)
    }

    pub closed spec fn emitters(&self) -> Seq<Emitter> {
        self.emitters.items()
    }

    /// No previous line, no count, no emitter.
    pub fn new() -> (r: ChatsoundsEventListener)
        ensures
            r.inv(),
            r.last() is None,
            forall|n: Seq<char>| r.said(n) == 0,
            r.emitters() == Seq::<Emitter>::empty(),
    {
        ChatsoundsEventListener { log: ChatLog::new(), counts: SpeakerCounts::new(), emitters: EmitterSet::new() }
    }

    /// Forgets every count (the roster changed).
    pub fn sync_reset(&mut self)
        requires
            old(self).inv(),
        ensures
            final(self).inv(),
            forall|n: Seq<char>| final(self).said(n) == 0,
            final(self).last() == old(self).last(),
            final(self).emitters() == old(self).emitters(),
    {
        self.counts.sync_reset();
    }

    /// The seed for `name`'s next line.
    pub fn seed_for(&self, name: &str) -> (r: u64)
        ensures
            r == speaker_hash(name@, self.said(name@)),
    {
        self.counts.seed_for(name)
    }

    /// The emitters, in the order they began.
    pub fn emitter_list(&self) -> (r: Vec<Emitter>)
        ensures
            r@ == self.emitters(),
    {
        self.emitters.list()
    }

    /// Adds the emitter of a sound that began playing.
    pub fn add_emitter(&mut self, e: Emitter)
        requires
            old(self).inv(),
        ensures
            final(self).inv(),
            final(self).emitters() == old(self).emitters().push(e),
            final(self).last() == old(self).last(),
            forall|n: Seq<char>| final(self).said(n) == old(self).said(n),
    {
        self.emitters.add(e);
    }

    /// A tick, as `EmitterSet::handle_tick` says.
    pub fn handle_tick(&mut self, entities: &EntitiesModule, listener_known: bool, sinks_alive: &Vec<bool>)
        requires
            old(self).inv(),
            entities.inv(),
            sinks_alive@.len() == old(self).emitters().len(),
        ensures
            final(self).inv(),
            exists|keep: Seq<bool>|
                keep.len() == old(self).emitters().len() && (forall|i: int|
                    0 <= i < keep.len() ==> keep[i] == stays(
                        old(self).emitters()[i],
                        entities.ids(),
                        listener_known,
                        sinks_alive@[i],
                    )) && final(self).emitters() == kept(old(self).emitters(), keep),
            final(self).last() == old(self).last(),
            forall|n: Seq<char>| final(self).said(n) == old(self).said(n),
    {
        self.emitters.handle_tick(entities, listener_known, sinks_alive);
    }

    /// The speaker of a player's chat line: in single player the local
    /// player says the whole line; else the line, joined to the previous one
    /// where it continues it, is split at its first `": "` and the name
    /// before it looked up in the player list.
    pub fn find_player_from_message(&mut self, full_msg: &str, tab: &TabListModule, singleplayer: bool)
        -> (r: Option<Trigger>)
        requires
            old(self).inv(),
        ensures
            final(self).inv(),
            found_player(old(self).last(), final(self).last(), full_msg@, tab.entries(), singleplayer, r),
            forall|n: Seq<char>| final(self).said(n) == old(self).said(n),
            final(self).emitters() == old(self).emitters(),
    {
        if singleplayer {
            return Some(Trigger {
                entity_id: ENTITY_SELF_ID,
                speaker: String::new(),
                text: string_from(&chars_of(full_msg)),
                anchored: false,
            });
        }
        let line = self.log.stitch(full_msg);
        match split_speaker(&chars_of(line.as_str())) {
            Some((left, right)) => {
                let nick = string_from(&left);
                match tab.find_entity_id_by_name(nick.as_str()) {
                    Some(id) => match tab.real_name(id) {
                        Some(real_name) => Some(
                            Trigger { entity_id: id, speaker: real_name, text: string_from(&right), anchored: false },
                        ),
                        None => None,
                    },
                    None => None,
                }
            },
            None => None,
        }
    }

    /// Plays what a trigger says: the seed is taken from the speaker's count
    /// before that count goes up by one; nothing plays where the entity is
    /// gone; the stop phrase stops everything and drops every emitter.
    pub fn play_trigger(&mut self, t: Trigger, entities: &EntitiesModule) -> (r: Option<PlayAction>)
        requires
            old(self).inv(),
            entities.inv(),
        ensures
            final(self).inv(),
            final(self).said(t.speaker@) == if old(self).said(t.speaker@) == usize::MAX {
                usize::MAX
            } else {
                (old(self).said(t.speaker@) + 1) as usize
            },
            forall|n: Seq<char>| n != t.speaker@ ==> final(self).said(n) == old(self).said(n),
            final(self).last() == old(self).last(),
            played(t, old(self).said(t.speaker@), entities.ids(), r),
            !entities.ids().contains(t.entity_id) ==> r is None && final(self).emitters()
                == old(self).emitters(),
            entities.ids().contains(t.entity_id) && is_stop_phrase(phrase_of(t.text@)) ==> (r
                matches Some(PlayAction::StopAll)) && final(self).emitters() == Seq::<Emitter>::empty(),
            entities.ids().contains(t.entity_id) && !is_stop_phrase(phrase_of(t.text@))
                ==> final(self).emitters() == old(self).emitters() && match r {
                Some(PlayAction::Play { phrase, seed, entity_id, spatial, anchored }) => phrase@
                    == phrase_of(t.text@) && seed == speaker_hash(
                    t.speaker@,
                    old(self).said(t.speaker@),
                ) && entity_id == t.entity_id && anchored == t.anchored && spatial == (t.anchored
                    || t.entity_id != ENTITY_SELF_ID),
                _ => false,
            },
    {
        let seed = self.counts.seed_for(t.speaker.as_str());
        self.counts.update_chat_count(t.speaker.as_str());
        if entities.get(t.entity_id).is_none() {
            return None;
        }
        let phrase = trim_chars(&chars_of(remove_color(t.text.as_str()).as_str()));
        if stop_phrase(&phrase) {
            self.emitters.clear();
            return Some(PlayAction::StopAll);
        }
        Some(
            PlayAction::Play {
                phrase: string_from(&phrase),
                seed,
                entity_id: t.entity_id,
                spatial: t.anchored || t.entity_id != ENTITY_SELF_ID,
                anchored: t.anchored,
            },
        )
    }

    /// Who a chat line makes speak: a global line (`"cs "`) makes the
    /// global identity speak as the local player, a `"csent"` line makes it
    /// speak as the entity given, any other line is a player's.
    #[verifier::rlimit(60)]
    pub fn classify(&mut self, line: &str, tab: &TabListModule, singleplayer: bool) -> (r: Option<Trigger>)
        requires
            old(self).inv(),
        ensures
            final(self).inv(),
            classified(old(self).last(), final(self).last(), line@, tab.entries(), singleplayer, r),
            forall|n: Seq<char>| final(self).said(n) == old(self).said(n),
            final(self).emitters() == old(self).emitters(),
    {
        match is_global_cs_message(line) {
            Some(p) => {
                return Some(Trigger { entity_id: ENTITY_SELF_ID, speaker: global_name(), text: p, anchored: false });
            },
            None => {},
        }
        match is_global_csent_message(line) {
            Some((p, id)) => {
                return Some(Trigger { entity_id: id, speaker: global_name(), text: p, anchored: false });
            },
            None => {},
        }
        self.find_player_from_message(line, tab, singleplayer)
    }

    /// A chat line arrived: only normal lines, while the window has focus
    /// and the listener's place is known, can play.
    pub fn handle_chat_received(
        &mut self,
        line: &str,
        kind: MsgKind,
        focused: bool,
        listener_known: bool,
        tab: &TabListModule,
        entities: &EntitiesModule,
        singleplayer: bool,
    ) -> (r: Option<PlayAction>)
        requires
            old(self).inv(),
            entities.inv(),
        ensures
            final(self).inv(),
            kind != MsgKind::Normal || !focused || !listener_known ==> r is None && final(self).last()
                == old(self).last() && final(self).emitters() == old(self).emitters() && forall|
                n: Seq<char>,
            | final(self).said(n) == old(self).said(n),
            kind == MsgKind::Normal && focused && listener_known ==> exists|t: Option<Trigger>|
                classified(old(self).last(), final(self).last(), line@, tab.entries(), singleplayer, t)
                    && match t {
                    None => r is None && final(self).emitters() == old(self).emitters() && forall|
                        n: Seq<char>,
                    | final(self).said(n) == old(self).said(n),
                    Some(tt) => played(tt, old(self).said(tt.speaker@), entities.ids(), r) && bumped(
                        old(self),
                        final(self),
                        tt.speaker@,
                    ) && emitters_after(old(self), final(self), r),
                },
    {
        if kind != MsgKind::Normal || !focused || !listener_known {
            return None;
        }
        let t = self.classify(line, tab, singleplayer);
        let ghost tg = t;
        match t {
            Some(t) => {
                let ghost said = self.said(t.speaker@);
                let r = self.play_trigger(t, entities);
                assert(classified(old(self).last(), self.last(), line@, tab.entries(), singleplayer, tg));
                assert(played(tg->0, said, entities.ids(), r));
                assert(bumped(old(self), self, tg->0.speaker@));
                assert(emitters_after(old(self), self, r));
                r
            },
            None => None,
        }
    }
}

/// What a change of window focus does to the volume.
#[derive(Clone, Copy, Debug, PartialEq, Eq, Structural)]
pub enum FocusAction {
    /// Save the volume and mute.
    Mute,
    /// Set the volume saved before back.
    Restore,
    /// Leave the volume as it is.
    Keep,
}

/// Where sounds mute while the window has no focus: losing focus saves the
/// volume and mutes; gaining it sets the saved volume back, where one was
/// saved.
pub fn focus_action(mute_lose_focus: bool, focused: bool, saved: bool) -> (r: FocusAction)
    ensures
        !mute_lose_focus ==> r == FocusAction::Keep,
        mute_lose_focus && !focused ==> r == FocusAction::Mute,
        mute_lose_focus && focused && saved ==> r == FocusAction::Restore,
        mute_lose_focus && focused && !saved ==> r == FocusAction::Keep,
{
    if !mute_lose_focus {
        FocusAction::Keep
    } else if !focused {
        FocusAction::Mute
    } else if saved {
        FocusAction::Restore
    } else {
        FocusAction::Keep
    }
}

} // verus!
