//! The ghost-text overlay that shows the selected hint around what was typed.
use vstd::prelude::*;

verus! {

/// Visible width of the status line, in characters.
pub const STATUS_WIDTH: usize = 64;

/// Whether `p` occurs in `h` at index `i`.
pub open spec fn matches_at(h: Seq<char>, p: Seq<char>, i: int) -> bool {
    0 <= i && i + p.len() <= h.len() && h.subrange(i, i + p.len()) == p
}

/// The first index at which `p` occurs in `h`, if any.
pub open spec fn first_match(h: Seq<char>, p: Seq<char>) -> Option<int> {
    if exists|i: int| matches_at(h, p, i) {
        Some(choose|i: int| matches_at(h, p, i) && forall|j: int| 0 <= j < i ==> !matches_at(h, p, j))
    } else {
        None
    }
}

/// Muted color code.
pub open spec fn muted() -> Seq<char> {
    seq!['&', '7']
}

/// Plain color code.
pub open spec fn plain() -> Seq<char> {
    seq!['&', 'f']
}

/// The colorized hint before any shift: the text left of the match muted,
/// the typed text plain, the text right of the match muted.
pub open spec fn colorized(input: Seq<char>, hint: Seq<char>, pos: int) -> Seq<char> {
    let left = hint.subrange(0, pos);
    let right = hint.subrange(pos + input.len(), hint.len() as int);
    let middle = if left.len() == 0 {
        input
    } else {
        muted() + left + plain() + input
    };
    if right.len() == 0 {
        middle
    } else {
        middle + muted() + right
    }
}

/// What the status line shows for `hint`, where `input` was typed and
/// occurs in `hint` at `pos`: the typed text alone on a full match; else the
/// colorized hint, shifted left by `input.len() - 2` characters where it is
/// wider than the status line and has no text left of the match.
pub open spec fn overlay(input: Seq<char>, hint: Seq<char>, pos: int) -> Seq<char> {
    if pos == 0 && hint.len() == input.len() {
        input
    } else {
        let c = colorized(input, hint, pos);
        if c.len() > STATUS_WIDTH && pos == 0 && input.len() > 2 {
            c.subrange(input.len() - 2, c.len() as int)
        } else {
            c
        }
    }
}

/// Whether `p` occurs in `h` at index `i`.
fn match_here(h: &Vec<char>, p: &Vec<char>, i: usize) -> (r: bool)
    requires
        i + p.len() <= h.len(),
    ensures
        r == matches_at(h@, p@, i as int),
{
    let mut k: usize = 0;
    while k < p.len()
        invariant
            i + p.len() <= h.len(),
            k <= p.len(),
            forall|m: int| 0 <= m < k ==> h@[i + m] == p@[m],
        decreases p.len() - k,
    {
        if h[i + k] != p[k] {
            assert(h@.subrange(i as int, i + p.len())[k as int] != p@[k as int]);
            return false;
        }
        k += 1;
    }
    assert(h@.subrange(i as int, i + p.len()) =~= p@);
    true
}

proof fn lemma_first_match_is(h: Seq<char>, p: Seq<char>, i: int)
    requires
        matches_at(h, p, i),
        forall|j: int| 0 <= j < i ==> !matches_at(h, p, j),
    ensures
        first_match(h, p) == Some(i),
{
    let c = choose|c: int| matches_at(h, p, c) && forall|j: int| 0 <= j < c ==> !matches_at(h, p, j);
    if c < i {
        assert(!matches_at(h, p, c));
    } else if c > i {
        assert(!matches_at(h, p, i));
    }
}

/// Index of the first occurrence of `p` in `h`.
pub fn find_chars(h: &Vec<char>, p: &Vec<char>) -> (r: Option<usize>)
    ensures
        r is Some <==> first_match(h@, p@) is Some,
        r is Some ==> r->0 as int == first_match(h@, p@)->0 && matches_at(h@, p@, r->0 as int),
{
    if p.len() > h.len() {
        assert forall|j: int| matches_at(h@, p@, j) implies false by {}
        return None;
    }
    if p.len() == 0 {
        assert(h@.subrange(0, 0) =~= p@);
        proof {
            lemma_first_match_is(h@, p@, 0);
        }
        return Some(0);
    }
    let mut i: usize = 0;
    while i <= h.len() - p.len()
        invariant
            0 < p.len() <= h.len(),
            i <= h.len() - p.len() + 1,
            forall|j: int| 0 <= j < i ==> !matches_at(h@, p@, j),
        decreases h.len() - p.len() + 1 - i,
    {
        if match_here(h, p, i) {
            proof {
                lemma_first_match_is(h@, p@, i as int);
            }
            return Some(i);
        }
        i += 1;
    }
    assert forall|j: int| matches_at(h@, p@, j) implies false by {
        assert(j < i);
    }
    None
}

/// Appends the characters of `b` to `a`.
pub(crate) fn append_chars(a: &mut Vec<char>, b: &Vec<char>)
    ensures
        final(a)@ == old(a)@ + b@,
{
    let mut i: usize = 0;
    let ghost a0 = a@;
    while i < b.len()
        invariant
            i <= b.len(),
            a@ == a0 + b@.subrange(0, i as int),
        decreases b.len() - i,
    {
        a.push(b[i]);
        i += 1;
        assert(a@ =~= a0 + b@.subrange(0, i as int));
    }
    assert(b@.subrange(0, i as int) =~= b@);
}

/// Renders the overlay for `hint`, where `input` was typed and occurs in
/// `hint` at `pos`.
pub fn hint_overlay(input: &Vec<char>, hint: &Vec<char>, pos: usize) -> (r: Vec<char>)
    requires
        matches_at(hint@, input@, pos as int),
    ensures
        r@ == overlay(input@, hint@, pos as int),
{
    if pos == 0 && hint.len() == input.len() {
        return crate::text::slice_chars(input, 0, input.len());
    }
    let ilen = input.len();
    let hlen = hint.len();
    assert(pos + ilen <= hlen);
    let left = crate::text::slice_chars(hint, 0, pos);
    let right = crate::text::slice_chars(hint, pos + ilen, hlen);
    let mut c: Vec<char> = Vec::new();
    if left.len() > 0 {
        c.push('&');
        c.push('7');
        append_chars(&mut c, &left);
        c.push('&');
        c.push('f');
    }
    append_chars(&mut c, input);
    if right.len() > 0 {
        c.push('&');
        c.push('7');
        append_chars(&mut c, &right);
    }
    assert(c@ =~= colorized(input@, hint@, pos as int));
    if c.len() > STATUS_WIDTH && pos == 0 && input.len() > 2 {
        crate::text::slice_chars(&c, input.len() - 2, c.len())
    } else {
        c
    }
}

/// Where the colorized hint is wider than the status line and there is no
/// text left of the match, the overlay is the colorized hint with exactly
/// `input.len() - 2` leading characters removed.
pub proof fn lemma_overlay_left_shift(input: Seq<char>, hint: Seq<char>)
    requires
        input.len() >= 2,
        hint.len() > input.len(),
        matches_at(hint, input, 0),
        colorized(input, hint, 0).len() > STATUS_WIDTH,
    ensures
        overlay(input, hint, 0) == colorized(input, hint, 0).subrange(
            input.len() - 2,
            colorized(input, hint, 0).len() as int,
        ),
{
    let c = colorized(input, hint, 0);
    if input.len() == 2 {
        assert(c.subrange(0, c.len() as int) =~= c);
    }
}

} // verus!
