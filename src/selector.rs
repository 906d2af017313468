//! Deterministic clip selection: every observer who has seen a speaker say
//! the same number of lines picks the same clip for the next one.
use vstd::prelude::*;
use std::hash::{Hash, Hasher};
use rand::Rng;
use rand::SeedableRng;

verus! {

/// Identity under which lines that belong to no player are counted.
pub open spec fn global_name_spec() -> Seq<char> {
    seq!['!', 'g', 'l', 'o', 'b', 'a', 'l']
}

/// The identity under which lines that belong to no player are counted.
pub fn global_name() -> (r: String)
    ensures
        r@ == global_name_spec(),
{
    let v: Vec<char> = vec!['!', 'g', 'l', 'o', 'b', 'a', 'l'];
    assert(v@ =~= global_name_spec());
    crate::text::string_from(&v)
}

/// What std's `DefaultHasher` gives for a speaker's name and the number of
/// lines counted for it.
pub uninterp spec fn speaker_hash(name: Seq<char>, said: usize) -> u64;

/// Which of `n` candidates a ChaCha generator seeded with `seed` draws.
pub uninterp spec fn chacha_index(seed: u64, n: usize) -> usize;

/// Relies on std's `DefaultHasher` (keyed alike by every `new`), fed the
/// name's `Hash` and then the count's: the hash depends on the two values alone.
#[verifier::external_body]
fn hash_speaker(name: &str, said: usize) -> (r: u64)
    ensures
        r == speaker_hash(name@, said),
{
    let mut h = std::collections::hash_map::DefaultHasher::new();
    name.hash(&mut h);
    said.hash(&mut h);
    h.finish()
}

/// Relies on `rand_chacha::ChaChaRng::seed_from_u64` and `rand::Rng::gen_range`
/// over `0..n`: an index below `n` that depends on the seed and `n` alone
/// (`gen_range` panics on an empty range, which `requires` leaves out).
#[verifier::external_body]
fn draw_index(seed: u64, n: usize) -> (r: usize)
    requires
        n > 0,
    ensures
        r < n,
        r == chacha_index(seed, n),
{
    let mut rng = rand_chacha::ChaChaRng::seed_from_u64(seed);
    rng.gen_range(0..n)
}

/// How many lines have been counted for one speaker.
pub struct SpeakerCount {
    pub name: String,
    pub said: usize,
}

/// The count of the first entry for `name`, or 0.
pub open spec fn count_in(s: Seq<SpeakerCount>, name: Seq<char>) -> usize
    decreases s.len(),
{
    if s.len() == 0 {
        0
    } else if s[0].name@ == name {
        s[0].said
    } else {
        count_in(s.drop_first(), name)
    }
}

proof fn lemma_count_update(s: Seq<SpeakerCount>, i: int, x: SpeakerCount, n: Seq<char>)
    requires
        0 <= i < s.len(),
        x.name@ == s[i].name@,
        forall|j: int| 0 <= j < i ==> s[j].name@ != s[i].name@,
    ensures
        n == s[i].name@ ==> count_in(s.update(i, x), n) == x.said,
        n != s[i].name@ ==> count_in(s.update(i, x), n) == count_in(s, n),
    decreases i,
{
    if i > 0 {
        assert(s.update(i, x).drop_first() =~= s.drop_first().update(i - 1, x));
        lemma_count_update(s.drop_first(), i - 1, x, n);
    } else {
        assert(s.update(i, x).drop_first() =~= s.drop_first());
    }
}

proof fn lemma_count_push(s: Seq<SpeakerCount>, x: SpeakerCount, n: Seq<char>)
    requires
        forall|j: int| 0 <= j < s.len() ==> s[j].name@ != x.name@,
    ensures
        n == x.name@ ==> count_in(s.push(x), n) == x.said,
        n != x.name@ ==> count_in(s.push(x), n) == count_in(s, n),
    decreases s.len(),
{
    if s.len() > 0 {
        assert(s.push(x).drop_first() =~= s.drop_first().push(x));
        lemma_count_push(s.drop_first(), x, n);
    } else {
        assert(s.push(x).drop_first() =~= s);
    }
}

/// Lines counted per speaker, kept by the engine and cleared when the roster
/// is reset.
pub struct SpeakerCounts {
    entries: Vec<SpeakerCount>,
}

impl SpeakerCounts {
    /// The number of lines counted for `name`.
    pub closed spec fn said(&self, name: Seq<char>) -> usize {
        count_in(self.entries@, name)
    }

    /// Each speaker has at most one entry.
    pub closed spec fn inv(&self) -> bool {
        forall|i: int, j: int|
            0 <= i < j < self.entries@.len() ==> self.entries@[i].name@ != self.entries@[j].name@
    }

    /// No speaker counted.
    pub fn new() -> (r: SpeakerCounts)
        ensures
            r.inv(),
            forall|n: Seq<char>| r.said(n) == 0,
    {
        SpeakerCounts { entries: Vec::new() }
    }

    /// Forgets every count.
    pub fn sync_reset(&mut self)
        ensures
            final(self).inv(),
            forall|n: Seq<char>| final(self).said(n) == 0,
    {
        self.entries = Vec::new();
    }

    /// Index of the first entry for `name`.
    fn find(&self, name: &str) -> (r: Option<usize>)
        ensures
            r is Some ==> r->0 < self.entries.len() && self.entries@[r->0 as int].name@ == name@
                && forall|j: int| 0 <= j < r->0 ==> self.entries@[j].name@ != name@,
            r is None ==> forall|j: int|
                0 <= j < self.entries.len() ==> self.entries@[j].name@ != name@,
            r is None ==> count_in(self.entries@, name@) == 0,
            r is Some ==> count_in(self.entries@, name@) == self.entries@[r->0 as int].said,
    {
        let mut i: usize = 0;
        assert(self.entries@.subrange(0, self.entries@.len() as int) =~= self.entries@);
        while i < self.entries.len()
            invariant
                i <= self.entries.len(),
                forall|j: int| 0 <= j < i ==> self.entries@[j].name@ != name@,
                count_in(self.entries@, name@) == count_in(
                    self.entries@.subrange(i as int, self.entries@.len() as int),
                    name@,
                ),
            decreases self.entries.len() - i,
        {
            let ghost rest = self.entries@.subrange(i as int, self.entries@.len() as int);
            if crate::text::same_text(self.entries[i].name.as_str(), name) {
                return Some(i);
            }
            assert(rest.drop_first() =~= self.entries@.subrange(i + 1, self.entries@.len() as int));
            i += 1;
        }
        None
    }

    /// The number of lines counted for `name`.
    pub fn messages_said(&self, name: &str) -> (r: usize)
        ensures
            r == self.said(name@),
    {
        match self.find(name) {
            Some(i) => self.entries[i].said,
            None => 0,
        }
    }

    /// Counts one more line for `name` (staying at the largest count once
    /// there).
    pub fn update_chat_count(&mut self, name: &str)
        requires
            old(self).inv(),
        ensures
            final(self).inv(),
            final(self).said(name@) == if old(self).said(name@) == usize::MAX {
                usize::MAX
            } else {
                (old(self).said(name@) + 1) as usize
            },
            forall|n: Seq<char>| n != name@ ==> final(self).said(n) == old(self).said(n),
    {
        match self.find(name) {
            Some(i) => {
                let said = self.entries[i].said;
                let next = if said == usize::MAX { said } else { said + 1 };
                let e = SpeakerCount { name: self.entries[i].name.clone(), said: next };
                let ghost s = self.entries@;
                self.entries.set(i, e);
                proof {
                    assert forall|n: Seq<char>|
                        (n == e.name@ ==> count_in(s.update(i as int, e), n) == e.said) && (n
                            != e.name@ ==> count_in(s.update(i as int, e), n) == count_in(s, n)) by {
                        lemma_count_update(s, i as int, e, n);
                    }
                }
            },
            None => {
                let e = SpeakerCount { name: crate::text::string_from(&crate::text::chars_of(name)), said: 1 };
                let ghost s = self.entries@;
                self.entries.push(e);
                proof {
                    assert forall|n: Seq<char>|
                        (n == e.name@ ==> count_in(s.push(e), n) == 1) && (n != e.name@ ==> count_in(
                            s.push(e),
                            n,
                        ) == count_in(s, n)) by {
                        lemma_count_push(s, e, n);
                    }
                }
            },
        }
    }

    /// The seed for `name`'s next line: the hash of its name and of the
    /// number of lines counted for it so far.
    pub fn seed_for(&self, name: &str) -> (r: u64)
        ensures
            r == speaker_hash(name@, self.said(name@)),
    {
        let said = self.messages_said(name);
        hash_speaker(name, said)
    }

    /// Which of `n` candidates `name`'s next line plays, or `None` where
    /// there is none.
    pub fn select(&self, name: &str, n: usize) -> (r: Option<usize>)
        ensures
            n == 0 ==> r is None,
            n > 0 ==> r == Some(chacha_index(speaker_hash(name@, self.said(name@)), n)),
            r matches Some(i) ==> i < n,
    {
        if n == 0 {
            return None;
        }
        let seed = self.seed_for(name);
        Some(draw_index(seed, n))
    }
}

/// Which of `n` candidate clips the seed `seed` picks, or `None` where there
/// is none.
pub fn pick_clip(seed: u64, n: usize) -> (r: Option<usize>)
    ensures
        n == 0 ==> r is None,
        n > 0 ==> r == Some(chacha_index(seed, n)),
        r matches Some(i) ==> i < n,
{
    if n == 0 {
        None
    } else {
        Some(draw_index(seed, n))
    }
}

/// Two selections for the same speaker, count and candidates agree.
pub proof fn lemma_selection_deterministic(
    a: &SpeakerCounts,
    b: &SpeakerCounts,
    name: Seq<char>,
    n: usize,
)
    requires
        a.said(name) == b.said(name),
        n > 0,
    ensures
        chacha_index(speaker_hash(name, a.said(name)), n) == chacha_index(
            speaker_hash(name, b.said(name)),
            n,
        ),
{
}

} // verus!
