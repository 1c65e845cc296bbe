//! Character-level string helpers shared by the path-matching,
//! token-source and identifier modules.

use vstd::prelude::*;

verus! {

/// Compares two string slices character by character.
pub fn str_eq(a: &str, b: &str) -> (r: bool)
    ensures
        r == (a@ == b@),
{
    let na = a.unicode_len();
    let nb = b.unicode_len();
    if na != nb {
        return false;
    }
    let mut i: usize = 0;
    while i < na
        invariant
            i <= na,
            na as nat == a@.len(),
            na as nat == b@.len(),
            forall|j: int| 0 <= j < i ==> a@[j] == b@[j],
        decreases na - i,
    {
        if a.get_char(i) != b.get_char(i) {
            return false;
        }
        i = i + 1;
    }
    proof {
        assert(a@ =~= b@);
    }
    true
}

/// True when `prefix` is a prefix of `s`.
pub fn str_starts_with(s: &str, prefix: &str) -> (r: bool)
    ensures
        r == (prefix@.len() <= s@.len() && s@.take(prefix@.len() as int) == prefix@),
{
    let np = prefix.unicode_len();
    let ns = s.unicode_len();
    if np > ns {
        return false;
    }
    let mut i: usize = 0;
    while i < np
        invariant
            i <= np,
            np as nat == prefix@.len(),
            ns as nat == s@.len(),
            np <= ns,
            forall|j: int| 0 <= j < i ==> s@[j] == prefix@[j],
        decreases np - i,
    {
        if s.get_char(i) != prefix.get_char(i) {
            proof {
                assert(s@.take(np as int)[i as int] != prefix@[i as int]);
            }
            return false;
        }
        i = i + 1;
    }
    proof {
        assert(s@.take(np as int) =~= prefix@);
    }
    true
}

/// True when `suffix` is a suffix of `s`.
pub fn str_ends_with(s: &str, suffix: &str) -> (r: bool)
    ensures
        r == (suffix@.len() <= s@.len() && s@.skip(s@.len() - suffix@.len()) == suffix@),
{
    let np = suffix.unicode_len();
    let ns = s.unicode_len();
    if np > ns {
        return false;
    }
    let off = ns - np;
    let mut i: usize = 0;
    while i < np
        invariant
            i <= np,
            np as nat == suffix@.len(),
            ns as nat == s@.len(),
            np <= ns,
            off == ns - np,
            forall|j: int| 0 <= j < i ==> s@[off + j] == suffix@[j],
        decreases np - i,
    {
        if s.get_char(off + i) != suffix.get_char(i) {
            proof {
                assert(s@.skip(off as int)[i as int] != suffix@[i as int]);
            }
            return false;
        }
        i = i + 1;
    }
    proof {
        assert(s@.skip(off as int) =~= suffix@);
    }
    true
}

/// The views of a sequence of owned strings.
pub open spec fn views_of_strings(v: Seq<String>) -> Seq<Seq<char>> {
    v.map_values(|s: String| s@)
}

/// Whether some string of `vs` reads `p`.
pub open spec fn contains_view(vs: Seq<String>, p: Seq<char>) -> bool {
    exists|i: int| 0 <= i < vs.len() && vs[i]@ == p
}

/// Scans `v` for a string equal to `s`.
pub fn contains_str(v: &Vec<String>, s: &str) -> (r: bool)
    ensures
        r == contains_view(v@, s@),
{
    let n = v.len();
    let mut i: usize = 0;
    while i < n
        invariant
            i <= n,
            n == v@.len(),
            forall|j: int| 0 <= j < i ==> v@[j]@ != s@,
        decreases n - i,
    {
        if str_eq(v[i].as_str(), s) {
            return true;
        }
        i = i + 1;
    }
    false
}

/// Strict lexicographic order on character sequences, by code point.
pub open spec fn lex_lt(a: Seq<char>, b: Seq<char>) -> bool
    decreases a.len(),
{
    if b.len() == 0 {
        false
    } else if a.len() == 0 {
        true
    } else if a[0] != b[0] {
        (a[0] as u32) < (b[0] as u32)
    } else {
        lex_lt(a.skip(1), b.skip(1))
    }
}

/// Two sequences are lexicographically ordered one way or the other, or
/// they are equal.
pub proof fn lemma_lex_trichotomy(a: Seq<char>, b: Seq<char>)
    ensures
        lex_lt(a, b) || lex_lt(b, a) || a == b,
    decreases a.len(),
{
    if a.len() == 0 && b.len() == 0 {
        assert(a =~= b);
    } else if a.len() > 0 && b.len() > 0 && a[0] == b[0] {
        lemma_lex_trichotomy(a.skip(1), b.skip(1));
        if a.skip(1) == b.skip(1) {
            assert(a.skip(1).len() == b.skip(1).len());
            assert(a.len() == b.len());
            assert forall|j: int| 0 <= j < a.len() implies a[j] == b[j] by {
                if j > 0 {
                    assert(a[j] == a.skip(1)[j - 1]);
                    assert(b[j] == b.skip(1)[j - 1]);
                }
            }
            assert(a =~= b);
        }
    } else if a.len() > 0 && b.len() > 0 {
        assert((a[0] as u32) != (b[0] as u32)) by {
            vstd::utf8::char_u32_cast(a[0], a[0] as u32);
            vstd::utf8::char_u32_cast(b[0], b[0] as u32);
        }
    }
}

/// No sequence sorts strictly before itself.
pub proof fn lemma_lex_irreflexive(a: Seq<char>)
    ensures
        !lex_lt(a, a),
    decreases a.len(),
{
    if a.len() > 0 {
        lemma_lex_irreflexive(a.skip(1));
    }
}

/// Lexicographic order is transitive.
pub proof fn lemma_lex_transitive(a: Seq<char>, b: Seq<char>, c: Seq<char>)
    requires
        lex_lt(a, b),
        lex_lt(b, c),
    ensures
        lex_lt(a, c),
    decreases a.len(),
{
    if a.len() > 0 && b.len() > 0 && c.len() > 0 {
        if a[0] == b[0] && b[0] == c[0] {
            lemma_lex_transitive(a.skip(1), b.skip(1), c.skip(1));
        }
    }
}

/// Compares two strings in lexicographic code-point order.
pub fn str_lt(a: &str, b: &str) -> (r: bool)
    ensures
        r == lex_lt(a@, b@),
{
    let na = a.unicode_len();
    let nb = b.unicode_len();
    let mut i: usize = 0;
    proof {
        assert(a@.skip(0) =~= a@);
        assert(b@.skip(0) =~= b@);
    }
    while i < na && i < nb
        invariant
            i <= na,
            i <= nb,
            na as nat == a@.len(),
            nb as nat == b@.len(),
            lex_lt(a@, b@) == lex_lt(a@.skip(i as int), b@.skip(i as int)),
        decreases na - i,
    {
        let ca = a.get_char(i);
        let cb = b.get_char(i);
        if ca != cb {
            return (ca as u32) < (cb as u32);
        }
        proof {
            assert(a@.skip(i as int).skip(1) =~= a@.skip(i as int + 1));
            assert(b@.skip(i as int).skip(1) =~= b@.skip(i as int + 1));
        }
        i = i + 1;
    }
    proof {
        if i >= na {
            assert(a@.skip(i as int) =~= Seq::<char>::empty());
        }
        if i >= nb {
            assert(b@.skip(i as int) =~= Seq::<char>::empty());
        }
    }
    na < nb
}

/// The pieces of `s`, split on the separator `sep` (an empty text is
/// one empty piece).
pub open spec fn split_on(sep: char, s: Seq<char>) -> Seq<Seq<char>>
    decreases s.len(),
{
    if s.len() == 0 {
        seq![Seq::<char>::empty()]
    } else {
        let rest = split_on(sep, s.skip(1));
        if s[0] == sep {
            seq![Seq::<char>::empty()] + rest
        } else {
            seq![seq![s[0]] + rest[0]] + rest.skip(1)
        }
    }
}

pub proof fn lemma_split_on_nonempty(sep: char, s: Seq<char>)
    ensures
        split_on(sep, s).len() >= 1,
    decreases s.len(),
{
    if s.len() > 0 {
        lemma_split_on_nonempty(sep, s.skip(1));
    }
}

/// Appending one character extends the last piece, or opens a new empty
/// piece when the character is the separator.
pub proof fn lemma_split_on_push(sep: char, s: Seq<char>, c: char)
    ensures
        c == sep ==> split_on(sep, s.push(c)) == split_on(sep, s).push(Seq::<char>::empty()),
        c != sep ==> split_on(sep, s.push(c)) == split_on(sep, s).update(
            split_on(sep, s).len() - 1,
            split_on(sep, s).last().push(c),
        ),
    decreases s.len(),
{
    reveal_with_fuel(split_on, 4);
    lemma_split_on_nonempty(sep, s);
    if s.len() == 0 {
        assert(s.push(c).skip(1) =~= Seq::<char>::empty());
        if c == sep {
            assert(split_on(sep, s.push(c)) =~~= split_on(sep, s).push(Seq::<char>::empty()));
        } else {
            assert(split_on(sep, s.push(c)) =~~= split_on(sep, s).update(
                0,
                split_on(sep, s).last().push(c),
            ));
        }
    } else {
        let t = s.skip(1);
        lemma_split_on_nonempty(sep, t);
        lemma_split_on_push(sep, t, c);
        assert(s.push(c).skip(1) =~= t.push(c));
        assert(s.push(c)[0] == s[0]);
        if c == sep {
            assert(split_on(sep, s.push(c)) =~~= split_on(sep, s).push(Seq::<char>::empty()));
        } else {
            assert(split_on(sep, s.push(c)) =~~= split_on(sep, s).update(
                split_on(sep, s).len() - 1,
                split_on(sep, s).last().push(c),
            ));
        }
    }
}

/// Whether no character of `p` equals `c`.
pub open spec fn seq_free_of(p: Seq<char>, c: char) -> bool {
    forall|j: int| 0 <= j < p.len() ==> p[j] != c
}

/// Splitting a text free of `c` yields pieces free of `c`.
pub proof fn lemma_split_on_free_of(sep: char, s: Seq<char>, c: char)
    requires
        seq_free_of(s, c),
    ensures
        forall|i: int|
            0 <= i < split_on(sep, s).len() ==> seq_free_of(#[trigger] split_on(sep, s)[i], c),
    decreases s.len(),
{
    if s.len() > 0 {
        let t = s.skip(1);
        assert(seq_free_of(t, c)) by {
            assert forall|j: int| 0 <= j < t.len() implies t[j] != c by {
                assert(t[j] == s[j + 1]);
            }
        }
        lemma_split_on_free_of(sep, t, c);
        lemma_split_on_nonempty(sep, t);
        let rest = split_on(sep, t);
        if s[0] == sep {
            assert forall|i: int|
                0 <= i < split_on(sep, s).len() implies seq_free_of(
                #[trigger] split_on(sep, s)[i],
                c,
            ) by {
                if i > 0 {
                    assert(split_on(sep, s)[i] == rest[i - 1]);
                }
            }
        } else {
            assert forall|i: int|
                0 <= i < split_on(sep, s).len() implies seq_free_of(
                #[trigger] split_on(sep, s)[i],
                c,
            ) by {
                if i == 0 {
                    let first = seq![s[0]] + rest[0];
                    assert(seq_free_of(rest[0], c));
                    assert forall|j: int| 0 <= j < first.len() implies first[j] != c by {
                        if j > 0 {
                            assert(first[j] == rest[0][j - 1]);
                        }
                    }
                } else {
                    assert(split_on(sep, s)[i] == rest[i]);
                }
            }
        }
    }
}

/// Splits a text on the separator `sep`.
pub fn split_on_char(s: &str, sep: char) -> (r: Vec<String>)
    ensures
        views_of_strings(r@) == split_on(sep, s@),
{
    let n = s.unicode_len();
    let mut out: Vec<String> = Vec::new();
    let mut cur = String::new();
    let mut i: usize = 0;
    proof {
        assert(s@.take(0) =~= Seq::<char>::empty());
        assert(views_of_strings(out@).push(cur@) =~~= split_on(sep, s@.take(0)));
    }
    while i < n
        invariant
            i <= n,
            n as nat == s@.len(),
            views_of_strings(out@).push(cur@) == split_on(sep, s@.take(i as int)),
        decreases n - i,
    {
        let ghost prefix = s@.take(i as int);
        let c = s.get_char(i);
        proof {
            assert(s@.take(i + 1) =~= prefix.push(c));
            lemma_split_on_push(sep, prefix, c);
            lemma_split_on_nonempty(sep, prefix);
        }
        if c == sep {
            out.push(cur);
            cur = String::new();
            proof {
                assert(views_of_strings(out@).push(cur@) =~~= split_on(sep, prefix).push(
                    Seq::<char>::empty(),
                ));
            }
        } else {
            let piece = s.substring_char(i, i + 1);
            proof {
                assert(piece@ =~= seq![c]);
            }
            cur.append(piece);
            proof {
                assert(views_of_strings(out@).push(cur@) =~~= split_on(sep, prefix).update(
                    split_on(sep, prefix).len() - 1,
                    split_on(sep, prefix).last().push(c),
                ));
            }
        }
        i = i + 1;
    }
    proof {
        assert(s@.take(n as int) =~= s@);
    }
    out.push(cur);
    out
}

/// The numeric value of one hexadecimal digit.
pub open spec fn hex_digit_val(c: char) -> Option<u8> {
    let u = c as u32;
    if 48 <= u <= 57 {
        Some((u - 48) as u8)
    } else if 97 <= u <= 102 {
        Some((u - 87) as u8)
    } else if 65 <= u <= 70 {
        Some((u - 55) as u8)
    } else {
        None
    }
}

/// Whether `s` is well-formed hexadecimal text: an even number of
/// characters, each a hex digit.
pub open spec fn is_hex_text(s: Seq<char>) -> bool {
    s.len() % 2 == 0 && forall|i: int| 0 <= i < s.len() ==> hex_digit_val(#[trigger] s[i]) is Some
}

/// The bytes that well-formed hexadecimal text denotes, two digits per
/// byte.
pub open spec fn hex_decoded(s: Seq<char>) -> Seq<u8> {
    Seq::new(
        (s.len() / 2) as nat,
        |i: int|
            ((hex_digit_val(s[2 * i])->Some_0 as int) * 16 + (hex_digit_val(
                s[2 * i + 1],
            )->Some_0 as int)) as u8,
    )
}

/// Reads one hexadecimal digit (either case).
fn hex_digit_value(c: char) -> (r: Option<u8>)
    ensures
        r == hex_digit_val(c),
{
    let u = c as u32;
    if 48 <= u && u <= 57 {
        Some((u - 48) as u8)
    } else if 97 <= u && u <= 102 {
        Some((u - 87) as u8)
    } else if 65 <= u && u <= 70 {
        Some((u - 55) as u8)
    } else {
        None
    }
}

/// Decodes hexadecimal text: succeeds exactly on an even number of hex
/// digits, one byte per digit pair.
pub fn decode_hex(s: &str) -> (r: Option<Vec<u8>>)
    ensures
        r is Some <==> is_hex_text(s@),
        r is Some ==> r->Some_0@ == hex_decoded(s@),
{
    let n = s.unicode_len();
    if n % 2 != 0 {
        return None;
    }
    let mut out: Vec<u8> = Vec::new();
    let mut i: usize = 0;
    while i < n
        invariant
            i <= n,
            i % 2 == 0,
            n % 2 == 0,
            n as nat == s@.len(),
            forall|j: int| 0 <= j < i ==> hex_digit_val(#[trigger] s@[j]) is Some,
            out@.len() == i / 2,
            forall|k: int|
                0 <= k < out@.len() ==> out@[k] == ((hex_digit_val(s@[2 * k])->Some_0 as int) * 16
                    + (hex_digit_val(#[trigger] s@[2 * k + 1])->Some_0 as int)) as u8,
        decreases n - i,
    {
        let hi = match hex_digit_value(s.get_char(i)) {
            Some(v) => v,
            None => {
                return None;
            },
        };
        let lo = match hex_digit_value(s.get_char(i + 1)) {
            Some(v) => v,
            None => {
                return None;
            },
        };
        out.push(hi * 16 + lo);
        i = i + 2;
    }
    proof {
        assert(out@ =~= hex_decoded(s@));
    }
    Some(out)
}

/// The position of the last occurrence of `c` in `s`.
pub open spec fn find_last(s: Seq<char>, c: char) -> Option<int>
    decreases s.len(),
{
    if s.len() == 0 {
        None
    } else if s.last() == c {
        Some(s.len() - 1)
    } else {
        find_last(s.drop_last(), c)
    }
}

/// Scans for the last occurrence of `c` in `s`.
pub fn str_rfind(s: &str, c: char) -> (r: Option<usize>)
    ensures
        match r {
            Some(i) => i < s@.len() && find_last(s@, c) == Some(i as int),
            None => find_last(s@, c) is None,
        },
{
    let n = s.unicode_len();
    let mut i: usize = n;
    proof {
        assert(s@.take(n as int) =~= s@);
    }
    while i > 0
        invariant
            i <= n,
            n as nat == s@.len(),
            find_last(s@, c) == find_last(s@.take(i as int), c),
        decreases i,
    {
        proof {
            assert(s@.take(i as int).last() == s@[i - 1]);
            assert(s@.take(i as int).drop_last() =~= s@.take(i - 1));
        }
        if s.get_char(i - 1) == c {
            return Some(i - 1);
        }
        i = i - 1;
    }
    proof {
        assert(s@.take(0) =~= Seq::<char>::empty());
    }
    None
}

} // verus!
