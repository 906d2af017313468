//! Chat-line text helpers: color codes, prefixes of the global sound
//! commands, whitespace trimming and small number parsing.
use vstd::prelude::*;

verus! {

/// Relies on `str::chars` collected into a `Vec`: the characters of `s` in order.
#[verifier::external_body]
pub(crate) fn chars_of(s: &str) -> (r: Vec<char>)
    ensures
        r@ == s@,
{
    s.chars().collect()
}

/// Relies on `String: FromIterator<char>`: the string made of the characters of `v`.
#[verifier::external_body]
pub(crate) fn string_from(v: &Vec<char>) -> (r: String)
    ensures
        r@ == v@,
{
    v.iter().collect()
}

/// The characters of `v` from `from` up to (not including) `to`.
pub fn slice_chars(v: &Vec<char>, from: usize, to: usize) -> (r: Vec<char>)
    requires
        from <= to <= v.len(),
    ensures
        r@ == v@.subrange(from as int, to as int),
{
    let mut r: Vec<char> = Vec::new();
    let mut i: usize = from;
    while i < to
        invariant
            from <= i <= to <= v.len(),
            r@ == v@.subrange(from as int, i as int),
        decreases to - i,
    {
        r.push(v[i]);
        i += 1;
    }
    r
}

/// `s` with each leading two-byte color code (`&` and one more ASCII
/// character) removed; a code whose second character is not ASCII ends it.
pub open spec fn strip_color_left(s: Seq<char>) -> Seq<char>
    decreases s.len(),
{
    if s.len() >= 2 && s[0] == '&' && (s[1] as u32) < 0x80 {
        strip_color_left(s.subrange(2, s.len() as int))
    } else {
        s
    }
}

/// `s` with every color code (`&` and the character after it) removed; a
/// trailing lone `&` stays.
pub open spec fn strip_all_colors(s: Seq<char>) -> Seq<char>
    decreases s.len(),
{
    if s.len() == 0 {
        s
    } else if s.len() >= 2 && s[0] == '&' {
        strip_all_colors(s.subrange(2, s.len() as int))
    } else {
        seq![s[0]] + strip_all_colors(s.subrange(1, s.len() as int))
    }
}

/// Whether `c` is white space as Unicode's `White_Space` property has it.
pub open spec fn is_space(c: char) -> bool {
    ('\u{9}' <= c && c <= '\u{d}') || c == ' ' || c == '\u{85}' || c == '\u{a0}'
        || c == '\u{1680}' || ('\u{2000}' <= c && c <= '\u{200a}') || c == '\u{2028}'
        || c == '\u{2029}' || c == '\u{202f}' || c == '\u{205f}' || c == '\u{3000}'
}

/// Number of leading white-space characters of `s`.
pub open spec fn lead_spaces(s: Seq<char>) -> nat
    decreases s.len(),
{
    if s.len() > 0 && is_space(s[0]) {
        1 + lead_spaces(s.subrange(1, s.len() as int))
    } else {
        0
    }
}

/// Number of trailing white-space characters of `s`.
pub open spec fn trail_spaces(s: Seq<char>) -> nat
    decreases s.len(),
{
    if s.len() > 0 && is_space(s.last()) {
        1 + trail_spaces(s.drop_last())
    } else {
        0
    }
}

/// `s` without leading and trailing white space.
pub open spec fn trimmed(s: Seq<char>) -> Seq<char> {
    let a = lead_spaces(s) as int;
    let rest = s.subrange(a, s.len() as int);
    rest.subrange(0, rest.len() - trail_spaces(rest) as int)
}

pub open spec fn is_digit(c: char) -> bool {
    '0' <= c && c <= '9'
}

pub open spec fn all_digits(s: Seq<char>) -> bool {
    forall|i: int| 0 <= i < s.len() ==> is_digit(#[trigger] s[i])
}

/// The value of a string of decimal digits.
pub open spec fn digits_value(s: Seq<char>) -> nat
    decreases s.len(),
{
    if s.len() == 0 {
        0
    } else {
        digits_value(s.drop_last()) * 10 + ((s.last() as u32 - '0' as u32) as nat)
    }
}

/// The byte that `s` spells in decimal, with an optional leading `+`.
pub open spec fn parse_u8_spec(s: Seq<char>) -> Option<u8> {
    let d = if s.len() > 0 && s[0] == '+' {
        s.subrange(1, s.len() as int)
    } else {
        s
    };
    if d.len() > 0 && all_digits(d) && digits_value(d) <= 255 {
        Some(digits_value(d) as u8)
    } else {
        None
    }
}

/// Exec check of the white-space property.
pub fn char_is_space(c: char) -> (r: bool)
    ensures
        r == is_space(c),
{
    ('\u{9}' <= c && c <= '\u{d}') || c == ' ' || c == '\u{85}' || c == '\u{a0}'
        || c == '\u{1680}' || ('\u{2000}' <= c && c <= '\u{200a}') || c == '\u{2028}'
        || c == '\u{2029}' || c == '\u{202f}' || c == '\u{205f}' || c == '\u{3000}'
}

/// The characters of `v` without leading and trailing white space.
pub fn trim_chars(v: &Vec<char>) -> (r: Vec<char>)
    ensures
        r@ == trimmed(v@),
{
    let mut a: usize = 0;
    assert(v@.subrange(0, v.len() as int) =~= v@);
    while a < v.len() && char_is_space(v[a])
        invariant
            a <= v.len(),
            lead_spaces(v@) == a + lead_spaces(v@.subrange(a as int, v.len() as int)),
        decreases v.len() - a,
    {
        assert(v@.subrange(a as int, v.len() as int).subrange(1, v.len() - a)
            =~= v@.subrange(a + 1, v.len() as int));
        a += 1;
    }
    assert(lead_spaces(v@.subrange(a as int, v.len() as int)) == 0);
    let ghost rest = v@.subrange(a as int, v.len() as int);
    let mut b: usize = v.len();
    while b > a && char_is_space(v[b - 1])
        invariant
            a <= b <= v.len(),
            rest == v@.subrange(a as int, v.len() as int),
            trail_spaces(rest) == (v.len() - b) + trail_spaces(v@.subrange(a as int, b as int)),
        decreases b - a,
    {
        assert(v@.subrange(a as int, b as int).drop_last() =~= v@.subrange(a as int, b - 1));
        b -= 1;
    }
    assert(trail_spaces(v@.subrange(a as int, b as int)) == 0);
    assert(rest.subrange(0, rest.len() - trail_spaces(rest) as int)
        =~= v@.subrange(a as int, b as int));
    slice_chars(v, a, b)
}

/// Parses a byte in decimal, as `u8`'s `FromStr` does.
pub fn parse_u8(v: &Vec<char>) -> (r: Option<u8>)
    ensures
        r == parse_u8_spec(v@),
{
    let start: usize = if v.len() > 0 && v[0] == '+' { 1 } else { 0 };
    let ghost d = v@.subrange(start as int, v.len() as int);
    assert(v@.subrange(0, v.len() as int) =~= v@);
    assert(d == (if v@.len() > 0 && v@[0] == '+' {
        v@.subrange(1, v@.len() as int)
    } else {
        v@
    }));
    if start >= v.len() {
        return None;
    }
    let mut value: u32 = 0;
    let mut i: usize = start;
    while i < v.len()
        invariant
            start <= i <= v.len(),
            d == v@.subrange(start as int, v.len() as int),
            d == (if v@.len() > 0 && v@[0] == '+' {
                v@.subrange(1, v@.len() as int)
            } else {
                v@
            }),
            d.subrange(0, i - start) == v@.subrange(start as int, i as int),
            all_digits(v@.subrange(start as int, i as int)),
            value == digits_value(v@.subrange(start as int, i as int)),
            value <= 255,
        decreases v.len() - i,
    {
        let c = v[i];
        let ghost pre = v@.subrange(start as int, i + 1);
        assert(pre.drop_last() =~= v@.subrange(start as int, i as int));
        assert(d.subrange(0, i + 1 - start) =~= pre);
        if !('0' <= c && c <= '9') {
            assert(!is_digit(d[i - start]));
            assert(!all_digits(d));
            return None;
        }
        let next: u32 = value * 10 + (c as u32 - '0' as u32);
        assert(next == digits_value(pre));
        if next > 255 {
            proof {
                if all_digits(d) {
                    lemma_digits_grow(d, (i + 1 - start) as nat);
                }
            }
            return None;
        }
        value = next;
        i += 1;
        assert(all_digits(v@.subrange(start as int, i as int))) by {
            assert forall|j: int| 0 <= j < pre.len() implies is_digit(#[trigger] pre[j]) by {
                if j < pre.len() - 1 {
                    assert(pre[j] == pre.drop_last()[j]);
                }
            }
        }
    }
    assert(v@.subrange(start as int, i as int) =~= d);
    Some(value as u8)
}

/// Once a prefix of digits is worth more than 255, the whole string is too.
proof fn lemma_digits_grow(s: Seq<char>, k: nat)
    requires
        k <= s.len(),
        all_digits(s),
    ensures
        digits_value(s) >= digits_value(s.subrange(0, k as int)),
    decreases s.len() - k,
{
    if k < s.len() {
        lemma_digits_grow(s, k + 1);
        let p = s.subrange(0, k + 1 as int);
        assert(p.drop_last() =~= s.subrange(0, k as int));
        assert(is_digit(s[k as int]));
        let x = digits_value(s.subrange(0, k as int));
        assert(x * 10 >= x) by (nonlinear_arith);
    } else {
        assert(s.subrange(0, k as int) =~= s);
    }
}

/// Whether `s` starts with `p`.
pub open spec fn has_prefix(s: Seq<char>, p: Seq<char>) -> bool {
    p.len() <= s.len() && s.subrange(0, p.len() as int) == p
}

/// Exec check that `v` starts with `p`.
pub fn starts_with(v: &Vec<char>, p: &Vec<char>) -> (r: bool)
    ensures
        r == has_prefix(v@, p@),
{
    if p.len() > v.len() {
        return false;
    }
    let mut i: usize = 0;
    while i < p.len()
        invariant
            p.len() <= v.len(),
            i <= p.len(),
            forall|j: int| 0 <= j < i ==> v@[j] == p@[j],
        decreases p.len() - i,
    {
        if v[i] != p[i] {
            assert(v@.subrange(0, p.len() as int)[i as int] != p@[i as int]);
            return false;
        }
        i += 1;
    }
    assert(v@.subrange(0, p.len() as int) =~= p@);
    true
}

/// Index where the color codes at the start of `v` end.
fn color_left_end(v: &Vec<char>) -> (r: usize)
    ensures
        r <= v.len(),
        strip_color_left(v@) == v@.subrange(r as int, v.len() as int),
{
    let mut i: usize = 0;
    assert(v@.subrange(0, v.len() as int) =~= v@);
    while v.len() - i >= 2 && v[i] == '&' && (v[i + 1] as u32) < 0x80
        invariant
            i <= v.len(),
            strip_color_left(v@) == strip_color_left(v@.subrange(i as int, v.len() as int)),
        decreases v.len() - i,
    {
        assert(v@.subrange(i as int, v.len() as int).subrange(2, v.len() - i)
            =~= v@.subrange(i + 2, v.len() as int));
        i += 2;
    }
    i
}

/// `text` without the color codes at its start.
pub fn remove_color_left(text: &str) -> (r: String)
    ensures
        r@ == strip_color_left(text@),
{
    let v = chars_of(text);
    let start = color_left_end(&v);
    string_from(&slice_chars(&v, start, v.len()))
}

/// `text` without any color code.
pub fn remove_color(text: &str) -> (r: String)
    ensures
        r@ == strip_all_colors(text@),
{
    let v = chars_of(text);
    let mut out: Vec<char> = Vec::new();
    let mut i: usize = 0;
    assert(v@.subrange(0, v.len() as int) =~= v@);
    assert(Seq::<char>::empty() + v@ =~= v@);
    while i < v.len()
        invariant
            i <= v.len(),
            strip_all_colors(v@) == out@ + strip_all_colors(v@.subrange(i as int, v.len() as int)),
        decreases v.len() - i,
    {
        let ghost rest = v@.subrange(i as int, v.len() as int);
        if v.len() - i >= 2 && v[i] == '&' {
            assert(rest.subrange(2, rest.len() as int) =~= v@.subrange(i + 2, v.len() as int));
            i += 2;
        } else {
            assert(rest.subrange(1, rest.len() as int) =~= v@.subrange(i + 1, v.len() as int));
            out.push(v[i]);
            proof {
                assert(out@ =~= out@.drop_last() + seq![rest[0]]);
            }
            i += 1;
        }
    }
    assert(v@.subrange(i as int, v.len() as int) =~= Seq::<char>::empty());
    assert(out@ + Seq::<char>::empty() =~= out@);
    string_from(&out)
}

pub open spec fn continuation_prefix() -> Seq<char> {
    seq!['>', ' ']
}

/// What a continuation line (`"> "` and more) carries, color codes at its
/// start removed.
pub open spec fn continuation_of(s: Seq<char>) -> Option<Seq<char>> {
    if has_prefix(s, continuation_prefix()) {
        Some(strip_color_left(s.subrange(2, s.len() as int)))
    } else {
        None
    }
}

/// The text of a continuation line, or `None` where `message` is none.
pub fn is_continuation_message(message: &str) -> (r: Option<String>)
    ensures
        r is Some <==> continuation_of(message@) is Some,
        r is Some ==> r->0@ == continuation_of(message@)->0,
{
    let v = chars_of(message);
    if v.len() >= 2 && v[0] == '>' && v[1] == ' ' {
        assert(v@.subrange(0, 2) =~= continuation_prefix());
        let rest = slice_chars(&v, 2, v.len());
        let start = color_left_end(&rest);
        Some(string_from(&slice_chars(&rest, start, rest.len())))
    } else {
        assert(!has_prefix(v@, continuation_prefix()) || (v@.len() >= 2 && v@[0] == '>'
            && v@[1] == ' ')) by {
            if has_prefix(v@, continuation_prefix()) {
                assert(v@.subrange(0, 2)[0] == '>');
                assert(v@.subrange(0, 2)[1] == ' ');
            }
        }
        None
    }
}

pub open spec fn cs_prefix() -> Seq<char> {
    seq!['c', 's', ' ']
}

pub open spec fn csent_prefix() -> Seq<char> {
    seq!['c', 's', 'e', 'n', 't', ' ']
}

/// What a global sound line (`"cs "` after any color codes) asks to play.
pub open spec fn global_cs_of(s: Seq<char>) -> Option<Seq<char>> {
    let m = strip_color_left(s);
    if has_prefix(m, cs_prefix()) {
        Some(m.subrange(3, m.len() as int))
    } else {
        None
    }
}

/// Index of the first `' '` in `s`, if any.
pub open spec fn first_space(s: Seq<char>) -> Option<int> {
    if exists|i: int| 0 <= i < s.len() && s[i] == ' ' {
        Some(choose|i: int| 0 <= i < s.len() && s[i] == ' ' && forall|j: int| 0 <= j < i ==> s[j] != ' ')
    } else {
        None
    }
}

/// The phrase and entity id of a `"csent <id> <phrase>"` line (after any
/// color codes), the phrase trimmed and not empty.
pub open spec fn global_csent_of(s: Seq<char>) -> Option<(Seq<char>, u8)> {
    let m = strip_color_left(s);
    if !has_prefix(m, csent_prefix()) {
        None
    } else {
        let rest = m.subrange(6, m.len() as int);
        match first_space(rest) {
            None => None,
            Some(k) => {
                let id = parse_u8_spec(rest.subrange(0, k));
                let phrase = trimmed(rest.subrange(k + 1, rest.len() as int));
                if id is Some && phrase.len() > 0 {
                    Some((phrase, id->0))
                } else {
                    None
                }
            },
        }
    }
}

/// The phrase of a global sound line, or `None` where `message` is none.
pub fn is_global_cs_message(message: &str) -> (r: Option<String>)
    ensures
        r is Some <==> global_cs_of(message@) is Some,
        r is Some ==> r->0@ == global_cs_of(message@)->0,
{
    let v = chars_of(message);
    let start = color_left_end(&v);
    let m = slice_chars(&v, start, v.len());
    let p: Vec<char> = vec!['c', 's', ' '];
    assert(p@ =~= cs_prefix());
    if starts_with(&m, &p) {
        Some(string_from(&slice_chars(&m, 3, m.len())))
    } else {
        None
    }
}

/// Index of the first `' '` in `v`, if any.
pub fn find_space(v: &Vec<char>) -> (r: Option<usize>)
    ensures
        r is Some <==> first_space(v@) is Some,
        r is Some ==> r->0 < v.len() && r->0 as int == first_space(v@)->0,
{
    let mut i: usize = 0;
    while i < v.len()
        invariant
            i <= v.len(),
            forall|j: int| 0 <= j < i ==> v@[j] != ' ',
        decreases v.len() - i,
    {
        if v[i] == ' ' {
            proof {
                let s = v@;
                assert(0 <= i < s.len() && s[i as int] == ' ' && forall|j: int|
                    0 <= j < i ==> s[j] != ' ');
                let k = choose|k: int|
                    0 <= k < s.len() && s[k] == ' ' && forall|j: int| 0 <= j < k ==> s[j] != ' ';
                if k < i {
                    assert(s[k] != ' ');
                } else if k > i {
                    assert(s[i as int] != ' ');
                }
            }
            return Some(i);
        }
        i += 1;
    }
    None
}

/// The phrase and entity id of a `"csent"` line, or `None` where `message`
/// is none.
pub fn is_global_csent_message(message: &str) -> (r: Option<(String, u8)>)
    ensures
        r is Some <==> global_csent_of(message@) is Some,
        r matches Some(p) ==> global_csent_of(message@) == Some((p.0@, p.1)),
{
    let v = chars_of(message);
    let start = color_left_end(&v);
    let m = slice_chars(&v, start, v.len());
    let p: Vec<char> = vec!['c', 's', 'e', 'n', 't', ' '];
    assert(p@ =~= csent_prefix());
    if !starts_with(&m, &p) {
        return None;
    }
    let rest = slice_chars(&m, 6, m.len());
    match find_space(&rest) {
        None => None,
        Some(k) => {
            let id = parse_u8(&slice_chars(&rest, 0, k));
            let phrase = trim_chars(&slice_chars(&rest, k + 1, rest.len()));
            match id {
                Some(id) => {
                    if phrase.len() > 0 {
                        Some((string_from(&phrase), id))
                    } else {
                        None
                    }
                },
                None => None,
            }
        },
    }
}

/// Equality of two strings, character by character.
pub fn same_text(a: &str, b: &str) -> (r: bool)
    ensures
        r == (a@ == b@),
{
    let x = chars_of(a);
    let y = chars_of(b);
    if x.len() != y.len() {
        return false;
    }
    let r = starts_with(&x, &y);
    assert(x@.subrange(0, x@.len() as int) =~= x@);
    r
}

/// A copy of `s`.
pub fn copy_string(s: &String) -> (r: String)
    ensures
        r@ == s@,
{
    string_from(&chars_of(s.as_str()))
}

} // verus!
