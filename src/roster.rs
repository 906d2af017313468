//! Who is in the world and in the player list: entity ids, and nicknames to
//! look a chat line's speaker up by.
use vstd::prelude::*;
use crate::overlay::matches_at;
use crate::text::{chars_of, slice_chars};

verus! {

/// An entity of the world, by id.
#[derive(Clone, Copy, Debug, PartialEq, Eq, Structural)]
pub struct Entity {
    pub id: u8,
}

/// Id of the local player's own entity.
pub const ENTITY_SELF_ID: u8 = 255;

/// Number of entity ids.
pub const ENTITY_IDS: usize = 256;

/// The entities present in the world.
pub struct EntitiesModule {
    present: Vec<bool>,
}

impl EntitiesModule {
    /// The ids present.
    pub closed spec fn ids(&self) -> Set<u8> {
        Set::new(|id: u8| (id as int) < self.present@.len() && self.present@[id as int])
    }

    pub closed spec fn inv(&self) -> bool {
        self.present@.len() == ENTITY_IDS
    }

    /// No entity present.
    pub fn new() -> (r: EntitiesModule)
        ensures
            r.inv(),
            r.ids() == Set::<u8>::empty(),
    {
        let mut present: Vec<bool> = Vec::new();
        let mut i: usize = 0;
        while i < ENTITY_IDS
            invariant
                i <= ENTITY_IDS,
                present@.len() == i,
                forall|j: int| 0 <= j < i ==> !present@[j],
            decreases ENTITY_IDS - i,
        {
            present.push(false);
            i += 1;
        }
        let r = EntitiesModule { present };
        assert(r.ids() =~= Set::<u8>::empty());
        r
    }

    /// The entity `id`, where present.
    pub fn get(&self, id: u8) -> (r: Option<Entity>)
        requires
            self.inv(),
        ensures
            r is Some <==> self.ids().contains(id),
            r matches Some(e) ==> e.id == id,
    {
        if self.present[id as usize] {
            Some(Entity { id })
        } else {
            None
        }
    }

    /// Records that entity `id` is present.
    pub fn add(&mut self, id: u8)
        requires
            old(self).inv(),
        ensures
            final(self).inv(),
            final(self).ids() == old(self).ids().insert(id),
    {
        self.present.set(id as usize, true);
        assert(self.ids() =~= old(self).ids().insert(id));
    }

    /// Records that entity `id` is gone.
    pub fn remove(&mut self, id: u8)
        requires
            old(self).inv(),
        ensures
            final(self).inv(),
            final(self).ids() == old(self).ids().remove(id),
    {
        self.present.set(id as usize, false);
        assert(self.ids() =~= old(self).ids().remove(id));
    }
}

/// A player-list entry.
#[derive(Clone, Debug)]
pub struct TabListEntry {
    pub id: u8,
    pub real_name: String,
    pub nick_name: String,
    pub group: String,
}

impl TabListEntry {
    /// The entry of player `id`, with the names the host lists for it.
    pub fn from_id(id: u8, real_name: String, nick_name: String, group: String) -> (r: TabListEntry)
        ensures
            r.id == id,
            r.real_name@ == real_name@,
            r.nick_name@ == nick_name@,
            r.group@ == group@,
    {
        TabListEntry { id, real_name, nick_name, group }
    }
}

/// `s` without one color code at its start.
pub open spec fn drop_color(s: Seq<char>) -> Seq<char> {
    if s.len() >= 2 && s[0] == '&' {
        s.subrange(2, s.len() as int)
    } else {
        s
    }
}

/// The last index at which `p` occurs in `h`, if any.
#[verifier::opaque]
pub open spec fn last_match(h: Seq<char>, p: Seq<char>) -> Option<int> {
    if exists|i: int| matches_at(h, p, i) {
        Some(choose|i: int| matches_at(h, p, i) && forall|j: int| i < j ==> !matches_at(h, p, j))
    } else {
        None
    }
}

/// Where entry `e`'s nickname occurs last in `full` (both without a
/// leading color code).
pub open spec fn nick_pos(e: TabListEntry, full: Seq<char>) -> Option<int> {
    last_match(drop_color(full), drop_color(e.nick_name@))
}

/// Entry `k` matches `full` loosely, and no entry's match starts earlier,
/// nor at the same place with a smaller id.
pub open spec fn best_loose(s: Seq<TabListEntry>, full: Seq<char>, k: int) -> bool {
    &&& 0 <= k < s.len()
    &&& nick_pos(s[k], full) is Some
    &&& forall|j: int|
        0 <= j < s.len() && #[trigger] nick_pos(s[j], full) is Some ==> nick_pos(s[k], full)->0
            < nick_pos(s[j], full)->0 || (nick_pos(s[k], full)->0 == nick_pos(s[j], full)->0
            && s[k].id <= s[j].id)
}

/// The id that a displayed name `full` stands for: the first entry whose
/// nickname is `full`; else the entry whose nickname occurs in `full`
/// earliest, the smaller id first (leading color codes aside).
#[verifier::opaque]
pub open spec fn lookup(s: Seq<TabListEntry>, full: Seq<char>, r: Option<u8>) -> bool {
    if exists|i: int| 0 <= i < s.len() && s[i].nick_name@ == full {
        exists|i: int|
            0 <= i < s.len() && s[i].nick_name@ == full && r == Some(s[i].id) && forall|j: int|
                0 <= j < i ==> s[j].nick_name@ != full
    } else if exists|k: int| 0 <= k < s.len() && nick_pos(s[k], full) is Some {
        exists|k: int| best_loose(s, full, k) && r == Some(s[k].id)
    } else {
        r is None
    }
}

fn drop_color_exec(v: Vec<char>) -> (r: Vec<char>)
    ensures
        r@ == drop_color(v@),
{
    if v.len() >= 2 && v[0] == '&' {
        slice_chars(&v, 2, v.len())
    } else {
        v
    }
}

proof fn lemma_last_match_is(h: Seq<char>, p: Seq<char>, i: int)
    requires
        matches_at(h, p, i),
        forall|j: int| i < j ==> !matches_at(h, p, j),
    ensures
        last_match(h, p) == Some(i),
{
    reveal(last_match);
    let c = choose|c: int| matches_at(h, p, c) && forall|j: int| c < j ==> !matches_at(h, p, j);
    if c < i {
        assert(!matches_at(h, p, i));
    } else if c > i {
        assert(!matches_at(h, p, c));
    }
}

/// Last index at which `p` occurs in `h`.
fn rfind_chars(h: &Vec<char>, p: &Vec<char>) -> (r: Option<usize>)
    ensures
        r is Some <==> last_match(h@, p@) is Some,
        r is Some ==> r->0 as int == last_match(h@, p@)->0,
{
    if p.len() > h.len() {
        assert forall|j: int| matches_at(h@, p@, j) implies false by {}
        reveal(last_match);
        return None;
    }
    if p.len() == 0 {
        assert(h@.subrange(h@.len() as int, h@.len() as int) =~= p@);
        proof {
            lemma_last_match_is(h@, p@, h@.len() as int);
        }
        return Some(h.len());
    }
    let mut i: usize = h.len() - p.len() + 1;
    while i > 0
        invariant
            p.len() <= h.len(),
            i <= h.len() - p.len() + 1,
            forall|j: int| i <= j ==> !matches_at(h@, p@, j),
        decreases i,
    {
        let k = i - 1;
        let mut m: usize = 0;
        let mut ok = true;
        while m < p.len()
            invariant
                k + p.len() <= h.len(),
                m <= p.len(),
                ok ==> forall|x: int| 0 <= x < m ==> h@[k + x] == p@[x],
                !ok ==> !matches_at(h@, p@, k as int),
            decreases p.len() - m,
        {
            if h[k + m] != p[m] {
                if ok {
                    assert(h@.subrange(k as int, k + p.len())[m as int] != p@[m as int]);
                }
                ok = false;
            }
            m += 1;
        }
        if ok {
            assert(h@.subrange(k as int, k + p.len()) =~= p@);
            proof {
                lemma_last_match_is(h@, p@, k as int);
            }
            return Some(k);
        }
        i = k;
    }
    assert forall|j: int| matches_at(h@, p@, j) implies false by {
        assert(0 <= j);
    }
    reveal(last_match);
    None
}

/// The player list.
pub struct TabListModule {
    entries: Vec<TabListEntry>,
}

impl TabListModule {
    /// The entries, in the order they were listed.
    pub closed spec fn entries(&self) -> Seq<TabListEntry> {
        self.entries@
    }

    /// Each id has at most one entry.
    pub closed spec fn inv(&self) -> bool {
        forall|i: int, j: int| 0 <= i < j < self.entries@.len() ==> self.entries@[i].id != self.entries@[j].id
    }

    /// An empty list.
    pub fn new() -> (r: TabListModule)
        ensures
            r.inv(),
            r.entries() == Seq::<TabListEntry>::empty(),
    {
        TabListModule { entries: Vec::new() }
    }

    /// Index of the first entry with id `id`.
    fn position(&self, id: u8) -> (r: Option<usize>)
        ensures
            r matches Some(i) ==> i < self.entries@.len() && self.entries@[i as int].id == id
                && forall|j: int| 0 <= j < i ==> self.entries@[j].id != id,
            r is None ==> forall|j: int| 0 <= j < self.entries@.len() ==> self.entries@[j].id != id,
    {
        let mut i: usize = 0;
        while i < self.entries.len()
            invariant
                i <= self.entries.len(),
                forall|j: int| 0 <= j < i ==> self.entries@[j].id != id,
            decreases self.entries.len() - i,
        {
            if self.entries[i].id == id {
                return Some(i);
            }
            i += 1;
        }
        None
    }

    /// The real name of the first entry with id `id`.
    pub fn real_name(&self, id: u8) -> (r: Option<String>)
        ensures
            r is None <==> forall|j: int| 0 <= j < self.entries().len() ==> self.entries()[j].id != id,
            r matches Some(n) ==> exists|i: int|
                0 <= i < self.entries().len() && self.entries()[i].id == id && n@
                    == self.entries()[i].real_name@,
    {
        match self.position(id) {
            Some(i) => {
                let n = self.entries[i].real_name.clone();
                assert(self.entries()[i as int].id == id && n@ == self.entries()[i as int].real_name@);
                Some(n)
            },
            None => None,
        }
    }

    /// Adds `entry`, in place of the entry with the same id if there is one.
    pub fn insert(&mut self, entry: TabListEntry)
        requires
            old(self).inv(),
        ensures
            final(self).inv(),
            (exists|i: int|
                0 <= i < old(self).entries().len() && old(self).entries()[i].id == entry.id && (forall|j: int|
                    0 <= j < i ==> old(self).entries()[j].id != entry.id) && final(self).entries()
                    == old(self).entries().update(i, entry)) || ((forall|j: int|
                0 <= j < old(self).entries().len() ==> old(self).entries()[j].id != entry.id)
                && final(self).entries() == old(self).entries().push(entry)),
    {
        match self.position(entry.id) {
            Some(i) => {
                self.entries.set(i, entry);
            },
            None => {
                self.entries.push(entry);
            },
        }
    }

    /// Drops the first entry with id `id`, if there is one.
    pub fn remove(&mut self, id: u8)
        requires
            old(self).inv(),
        ensures
            final(self).inv(),
            (exists|i: int|
                0 <= i < old(self).entries().len() && old(self).entries()[i].id == id && final(self).entries()
                    == old(self).entries().remove(i)) || ((forall|j: int|
                0 <= j < old(self).entries().len() ==> old(self).entries()[j].id != id)
                && final(self).entries() == old(self).entries()),
    {
        match self.position(id) {
            Some(i) => {
                self.entries.remove(i);
            },
            None => {},
        }
    }

    /// Index of the entry that matches `full_nick` loosely best.
    #[verifier::rlimit(40)]
    fn best_loose_index(&self, full_nick: &str) -> (r: Option<usize>)
        ensures
            r matches Some(k) ==> best_loose(self.entries(), full_nick@, k as int),
            r is None ==> forall|j: int|
                0 <= j < self.entries().len() ==> nick_pos(self.entries()[j], full_nick@) is None,
    {
        let s = &self.entries;
        let f = drop_color_exec(chars_of(full_nick));
        let mut found = false;
        let mut bi: usize = 0;
        let mut bp: usize = 0;
        let mut k: usize = 0;
        while k < s.len()
            invariant
                k <= s.len(),
                f@ == drop_color(full_nick@),
                !found ==> forall|j: int| 0 <= j < k ==> nick_pos(s@[j], full_nick@) is None,
                found ==> bi < k && nick_pos(s@[bi as int], full_nick@) == Some(bp as int),
                found ==> forall|j: int|
                    0 <= j < k && #[trigger] nick_pos(s@[j], full_nick@) is Some ==> bp
                        < nick_pos(s@[j], full_nick@)->0 || (bp == nick_pos(s@[j], full_nick@)->0
                        && s@[bi as int].id <= s@[j].id),
            decreases s.len() - k,
        {
            let n = drop_color_exec(chars_of(s[k].nick_name.as_str()));
            match rfind_chars(&f, &n) {
                Some(p) => {
                    if !found || p < bp || (p == bp && s[k].id < s[bi].id) {
                        found = true;
                        bi = k;
                        bp = p;
                    }
                },
                None => {},
            }
            k += 1;
        }
        if found {
            Some(bi)
        } else {
            None
        }
    }

    /// The id of the player whose displayed name is `full_nick`, as
    /// `lookup` says.
    pub fn find_entity_id_by_name(&self, full_nick: &str) -> (r: Option<u8>)
        ensures
            lookup(self.entries(), full_nick@, r),
    {
        reveal(lookup);
        let mut i: usize = 0;
        while i < self.entries.len()
            invariant
                i <= self.entries.len(),
                forall|j: int| 0 <= j < i ==> self.entries@[j].nick_name@ != full_nick@,
            decreases self.entries.len() - i,
        {
            if crate::text::same_text(self.entries[i].nick_name.as_str(), full_nick) {
                let r = Some(self.entries[i].id);
                assert(0 <= i < self.entries@.len() && self.entries@[i as int].nick_name@ == full_nick@
                    && r == Some(self.entries@[i as int].id) && forall|j: int|
                    0 <= j < i ==> self.entries@[j].nick_name@ != full_nick@);
                reveal(lookup);
                return r;
            }
            i += 1;
        }
        reveal(lookup);
        match self.best_loose_index(full_nick) {
            Some(k) => {
                let r = Some(self.entries[k].id);
                assert(best_loose(self.entries(), full_nick@, k as int) && r == Some(
                    self.entries()[k as int].id,
                ));
                r
            },
            None => None,
        }
    }
}

} // verus!
