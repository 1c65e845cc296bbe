//! The textual Datalog source of a token block.
//!
//! A validated token exposes each block's content as printed Datalog
//! source: one fact or check per line, `profile("name");` for a grant
//! and `check if time($time), $time <= <RFC 3339 date>;` for an expiry
//! bound. Merging rebuilds a token from the concatenated sources of two
//! blocks, so this text is the interchange form between tokens; this
//! module gives it an exact grammar. Any other line — a rule, a foreign
//! fact or check, an expiry whose date does not read — is reported as
//! unreadable, and the authorization engine then rejects the token
//! outright rather than authorize past a constraint it could not
//! evaluate.

use vstd::prelude::*;

use crate::strings::{lemma_split_on_nonempty, lemma_split_on_push, split_on,
    split_on_char, str_ends_with, str_starts_with, views_of_strings};

verus! {

/// The lines of `s`, split on `\n` (an empty text is one empty line).
pub open spec fn split_lines(s: Seq<char>) -> Seq<Seq<char>> {
    split_on('\n', s)
}

pub proof fn lemma_split_lines_nonempty(s: Seq<char>)
    ensures
        split_lines(s).len() >= 1,
{
    lemma_split_on_nonempty('\n', s);
}

/// Splits a block source into its lines.
pub fn split_lines_exec(s: &str) -> (r: Vec<String>)
    ensures
        views_of_strings(r@) == split_lines(s@),
{
    split_on_char(s, '\n')
}

/// `line` without one trailing `;`.
pub open spec fn strip_semi(line: Seq<char>) -> Seq<char> {
    if line.len() > 0 && line.last() == ';' {
        line.drop_last()
    } else {
        line
    }
}

/// The profile name granted by `line`, when the line is exactly a
/// `profile("<name>");` fact whose name contains no quote.
pub open spec fn profile_of_line(line: Seq<char>) -> Option<Seq<char>> {
    let core = strip_semi(line);
    let pre = "profile(\""@;
    let post = "\")"@;
    if core.len() >= pre.len() + post.len() && core.take(pre.len() as int) == pre && core.skip(
        core.len() - post.len(),
    ) == post {
        let name = core.subrange(pre.len() as int, core.len() - post.len());
        if (forall|j: int| 0 <= j < name.len() ==> name[j] != '"') {
            Some(name)
        } else {
            None
        }
    } else {
        None
    }
}

/// The date text of `line`, when the line is exactly the expiry check
/// this system mints: `check if time($time), $time <= <date>;`.
pub open spec fn expiry_date_of_line(line: Seq<char>) -> Option<Seq<char>> {
    let core = strip_semi(line);
    let pre = "check if time($time), $time <= "@;
    if core.len() > pre.len() && core.take(pre.len() as int) == pre {
        Some(core.skip(pre.len() as int))
    } else {
        None
    }
}

/// The profile facts of a sequence of lines, in order.
pub open spec fn profiles_of_lines(lines: Seq<Seq<char>>) -> Seq<Seq<char>> {
    lines.filter(|l: Seq<char>| profile_of_line(l) is Some).map_values(
        |l: Seq<char>| profile_of_line(l)->Some_0,
    )
}

/// The profile facts of a block source, in order.
pub open spec fn profiles_of_source(s: Seq<char>) -> Seq<Seq<char>> {
    profiles_of_lines(split_lines(s))
}

/// The seconds-since-epoch bound of one expiry-check line, when both
/// the line shape and its date are readable.
pub open spec fn expiry_secs_of_line(l: Seq<char>) -> Option<i64> {
    match expiry_date_of_line(l) {
        Some(d) => rfc3339_secs(d),
        None => None,
    }
}

/// The expiry bounds of a sequence of lines, in order.
pub open spec fn expiries_of_lines(lines: Seq<Seq<char>>) -> Seq<i64> {
    lines.filter(|l: Seq<char>| expiry_secs_of_line(l) is Some).map_values(
        |l: Seq<char>| expiry_secs_of_line(l)->Some_0,
    )
}

/// The expiry bounds of a block source, in order.
pub open spec fn expiries_of_source(s: Seq<char>) -> Seq<i64> {
    expiries_of_lines(split_lines(s))
}

/// Whether the engine can read this line: an empty line, a profile
/// fact, or an expiry check whose date parses. Every other line — a
/// rule, a foreign fact or check, an expiry with an unreadable date —
/// is a constraint the engine cannot evaluate.
pub open spec fn line_readable(l: Seq<char>) -> bool {
    l.len() == 0 || profile_of_line(l) is Some || expiry_secs_of_line(l) is Some
}

/// Whether some line is one this engine cannot read.
pub open spec fn unreadable_line_in(lines: Seq<Seq<char>>) -> bool {
    exists|i: int| 0 <= i < lines.len() && !line_readable(#[trigger] lines[i])
}

/// Whether a block source carries anything this engine cannot read; a
/// token with such a block must never authorize anything.
pub open spec fn has_unreadable_check(s: Seq<char>) -> bool {
    unreadable_line_in(split_lines(s))
}

/// What the `time` crate reads an RFC 3339 date text as, in whole
/// seconds since the Unix epoch; the result depends on the characters
/// alone.
pub uninterp spec fn rfc3339_secs(s: Seq<char>) -> Option<i64>;

/// Relies on time::OffsetDateTime::parse with the well-known RFC 3339
/// format, followed by OffsetDateTime::unix_timestamp.
#[verifier::external_body]
fn parse_rfc3339(s: &str) -> (r: Option<i64>)
    ensures
        r == rfc3339_secs(s@),
{
    time::OffsetDateTime::parse(s, &time::format_description::well_known::Rfc3339).ok().map(
        |t| t.unix_timestamp(),
    )
}

/// Relies on time::OffsetDateTime::from_unix_timestamp and format with
/// the well-known RFC 3339 format: renders a whole-second UTC timestamp
/// as date text, which the same crate's RFC 3339 parser reads back as
/// that timestamp.
#[verifier::external_body]
pub(crate) fn format_rfc3339(secs: i64) -> (r: Option<String>)
    ensures
        r is Some ==> rfc3339_secs(r->Some_0@) == Some(secs),
{
    let t = time::OffsetDateTime::from_unix_timestamp(secs).ok()?;
    t.format(&time::format_description::well_known::Rfc3339).ok()
}

/// Extracts the profile name of one `profile("<name>");` line.
fn parse_profile_line(line: &str) -> (r: Option<String>)
    ensures
        match r {
            Some(name) => profile_of_line(line@) == Some(name@),
            None => profile_of_line(line@) is None,
        },
{
    proof {
        reveal_strlit("profile(\"");
        reveal_strlit("\")");
        reveal_strlit(";");
    }
    let n = line.unicode_len();
    let core: &str = if n > 0 && line.get_char(n - 1) == ';' {
        line.substring_char(0, n - 1)
    } else {
        line
    };
    proof {
        assert(core@ =~= strip_semi(line@));
    }
    let m = core.unicode_len();
    if m < 11 {
        return None;
    }
    if !str_starts_with(core, "profile(\"") {
        return None;
    }
    if !str_ends_with(core, "\")") {
        return None;
    }
    let name = core.substring_char(9, m - 2);
    proof {
        assert(name@ =~= strip_semi(line@).subrange(9, strip_semi(line@).len() - 2));
    }
    let mut j: usize = 0;
    let name_len = m - 11;
    while j < name_len
        invariant
            j <= name_len,
            name_len as nat == name@.len(),
            name@ == strip_semi(line@).subrange(9, strip_semi(line@).len() - 2),
            strip_semi(line@).len() >= 11,
            strip_semi(line@).take(9) == "profile(\""@,
            strip_semi(line@).skip(strip_semi(line@).len() - 2) == "\")"@,
            "profile(\""@.len() == 9,
            "\")"@.len() == 2,
            forall|k: int| 0 <= k < j ==> name@[k] != '"',
        decreases name_len - j,
    {
        if name.get_char(j) == '"' {
            proof {
                let sname = strip_semi(line@).subrange(9, strip_semi(line@).len() - 2);
                assert(sname[j as int] == '"');
                assert(!(forall|k: int| 0 <= k < sname.len() ==> sname[k] != '"'));
            }
            return None;
        }
        j = j + 1;
    }
    Some(name.to_owned())
}

/// Extracts the date text of one expiry-check line.
fn parse_expiry_line(line: &str) -> (r: Option<String>)
    ensures
        match r {
            Some(d) => expiry_date_of_line(line@) == Some(d@),
            None => expiry_date_of_line(line@) is None,
        },
{
    proof {
        reveal_strlit("check if time($time), $time <= ");
        reveal_strlit(";");
    }
    let n = line.unicode_len();
    let core: &str = if n > 0 && line.get_char(n - 1) == ';' {
        line.substring_char(0, n - 1)
    } else {
        line
    };
    proof {
        assert(core@ =~= strip_semi(line@));
    }
    let pre = "check if time($time), $time <= ";
    let plen = pre.unicode_len();
    let m = core.unicode_len();
    if m <= plen {
        return None;
    }
    if !str_starts_with(core, pre) {
        return None;
    }
    Some(core.substring_char(plen, m).to_owned())
}

/// Splitting distributes over concatenation at an inserted separator:
/// the lines of `a`, then the lines of `b`.
pub proof fn lemma_split_lines_concat(a: Seq<char>, b: Seq<char>)
    ensures
        split_lines(a + seq!['\n'] + b) == split_lines(a) + split_lines(b),
    decreases b.len(),
{
    reveal_with_fuel(split_on, 2);
    lemma_split_lines_nonempty(a);
    if b.len() == 0 {
        assert(a + seq!['\n'] + b =~= a.push('\n'));
        lemma_split_on_push('\n', a, '\n');
        assert(split_lines(a).push(Seq::<char>::empty()) =~~= split_lines(a) + split_lines(b));
    } else {
        let b0 = b.drop_last();
        let c = b.last();
        lemma_split_lines_concat(a, b0);
        lemma_split_on_push('\n', a + seq!['\n'] + b0, c);
        lemma_split_on_push('\n', b0, c);
        lemma_split_lines_nonempty(b0);
        assert(a + seq!['\n'] + b =~= (a + seq!['\n'] + b0).push(c));
        assert(b =~= b0.push(c));
        if c == '\n' {
            assert(split_lines(a + seq!['\n'] + b) =~~= split_lines(a) + split_lines(b));
        } else {
            assert(split_lines(a + seq!['\n'] + b) =~~= split_lines(a) + split_lines(b));
        }
    }
}

proof fn lemma_map_push<A, B>(s: Seq<A>, f: spec_fn(A) -> B, a: A)
    ensures
        s.push(a).map_values(f) == s.map_values(f).push(f(a)),
{
    assert(s.push(a).map_values(f) =~= s.map_values(f).push(f(a)));
}

proof fn lemma_profiles_of_lines_step(lines: Seq<Seq<char>>, i: int)
    requires
        0 <= i < lines.len(),
    ensures
        profile_of_line(lines[i]) is Some ==> profiles_of_lines(lines.take(i + 1))
            == profiles_of_lines(lines.take(i)).push(profile_of_line(lines[i])->Some_0),
        profile_of_line(lines[i]) is None ==> profiles_of_lines(lines.take(i + 1))
            == profiles_of_lines(lines.take(i)),
{
    reveal(Seq::filter);
    assert(lines.take(i + 1).drop_last() =~= lines.take(i));
    assert(lines.take(i + 1).last() == lines[i]);
    let pred = |l: Seq<char>| profile_of_line(l) is Some;
    if profile_of_line(lines[i]) is Some {
        lemma_map_push(
            lines.take(i).filter(pred),
            |l: Seq<char>| profile_of_line(l)->Some_0,
            lines[i],
        );
    }
}

proof fn lemma_expiries_of_lines_step(lines: Seq<Seq<char>>, i: int)
    requires
        0 <= i < lines.len(),
    ensures
        expiry_secs_of_line(lines[i]) is Some ==> expiries_of_lines(lines.take(i + 1))
            == expiries_of_lines(lines.take(i)).push(expiry_secs_of_line(lines[i])->Some_0),
        expiry_secs_of_line(lines[i]) is None ==> expiries_of_lines(lines.take(i + 1))
            == expiries_of_lines(lines.take(i)),
{
    reveal(Seq::filter);
    assert(lines.take(i + 1).drop_last() =~= lines.take(i));
    assert(lines.take(i + 1).last() == lines[i]);
    let pred = |l: Seq<char>| expiry_secs_of_line(l) is Some;
    if expiry_secs_of_line(lines[i]) is Some {
        lemma_map_push(
            lines.take(i).filter(pred),
            |l: Seq<char>| expiry_secs_of_line(l)->Some_0,
            lines[i],
        );
    }
}

proof fn lemma_unreadable_step(lines: Seq<Seq<char>>, i: int)
    requires
        0 <= i < lines.len(),
    ensures
        unreadable_line_in(lines.take(i + 1)) == (unreadable_line_in(lines.take(i))
            || !line_readable(lines[i])),
{
    if unreadable_line_in(lines.take(i + 1)) {
        let k = choose|k: int|
            0 <= k < lines.take(i + 1).len() && !line_readable(#[trigger] lines.take(i + 1)[k]);
        if k < i {
            assert(lines.take(i)[k] == lines[k]);
            assert(unreadable_line_in(lines.take(i)));
        }
    }
    if unreadable_line_in(lines.take(i)) {
        let k = choose|k: int|
            0 <= k < lines.take(i).len() && !line_readable(#[trigger] lines.take(i)[k]);
        assert(!line_readable(lines.take(i + 1)[k]));
        assert(unreadable_line_in(lines.take(i + 1)));
    }
    if !line_readable(lines[i]) {
        assert(!line_readable(lines.take(i + 1)[i]));
        assert(unreadable_line_in(lines.take(i + 1)));
    }
}

/// The enforceable content read out of one block's printed source.
pub struct ParsedBlock {
    pub profiles: Vec<String>,
    pub expiries: Vec<i64>,
    pub unreadable: bool,
}

/// Reads a block's printed Datalog source: the profile facts it
/// grants, the expiry bounds of its checks, and whether it carries any
/// check this engine cannot evaluate.
pub fn parse_block_source(s: &str) -> (r: ParsedBlock)
    ensures
        views_of_strings(r.profiles@) == profiles_of_source(s@),
        r.expiries@ == expiries_of_source(s@),
        r.unreadable == has_unreadable_check(s@),
{
    let lines = split_lines_exec(s);
    let ghost linesv = split_lines(s@);
    let mut profiles: Vec<String> = Vec::new();
    let mut expiries: Vec<i64> = Vec::new();
    let mut unreadable = false;
    let mut i: usize = 0;
    proof {
        assert(linesv.take(0) =~= Seq::<Seq<char>>::empty());
        assert(profiles_of_lines(linesv.take(0)) =~= Seq::<Seq<char>>::empty()) by {
            reveal(Seq::filter);
        }
        assert(expiries_of_lines(linesv.take(0)) =~= Seq::<i64>::empty()) by {
            reveal(Seq::filter);
        }
        assert(views_of_strings(profiles@) =~= Seq::<Seq<char>>::empty());
    }
    while i < lines.len()
        invariant
            i <= lines@.len(),
            views_of_strings(lines@) == linesv,
            linesv == split_lines(s@),
            views_of_strings(profiles@) == profiles_of_lines(linesv.take(i as int)),
            expiries@ == expiries_of_lines(linesv.take(i as int)),
            unreadable == unreadable_line_in(linesv.take(i as int)),
        decreases lines@.len() - i,
    {
        let ghost line_view = linesv[i as int];
        proof {
            assert(lines@[i as int]@ == line_view);
            lemma_profiles_of_lines_step(linesv, i as int);
            lemma_expiries_of_lines_step(linesv, i as int);
            lemma_unreadable_step(linesv, i as int);
        }
        let mut line_ok = lines[i].as_str().unicode_len() == 0;
        match parse_profile_line(lines[i].as_str()) {
            Some(name) => {
                let ghost before = profiles@;
                profiles.push(name);
                line_ok = true;
                proof {
                    assert(views_of_strings(profiles@) =~= views_of_strings(before).push(
                        profile_of_line(line_view)->Some_0,
                    ));
                }
            },
            None => {},
        }
        match parse_expiry_line(lines[i].as_str()) {
            Some(d) => {
                match parse_rfc3339(d.as_str()) {
                    Some(t) => {
                        expiries.push(t);
                        line_ok = true;
                    },
                    None => {},
                }
            },
            None => {},
        }
        proof {
            assert(line_ok == line_readable(line_view));
        }
        if !line_ok {
            unreadable = true;
        }
        i = i + 1;
    }
    proof {
        assert(linesv.take(linesv.len() as int) =~= linesv);
    }
    ParsedBlock { profiles, expiries, unreadable }
}

/// One printed `profile("<name>");` fact.
pub open spec fn profile_fact_line(p: Seq<char>) -> Seq<char> {
    "profile(\""@ + p + "\");"@
}

/// The block source granting exactly the profiles `ps`, one fact per
/// line, each line terminated by a break.
pub open spec fn profile_facts_text(ps: Seq<Seq<char>>) -> Seq<char>
    decreases ps.len(),
{
    if ps.len() == 0 {
        Seq::empty()
    } else {
        profile_fact_line(ps[0]) + seq!['\n'] + profile_facts_text(ps.skip(1))
    }
}

proof fn lemma_profile_facts_text_take(ps: Seq<Seq<char>>, i: int)
    requires
        0 <= i < ps.len(),
    ensures
        profile_facts_text(ps.take(i + 1)) == profile_facts_text(ps.take(i)) + profile_fact_line(
            ps[i],
        ) + seq!['\n'],
    decreases i,
{
    reveal_with_fuel(profile_facts_text, 3);
    if i == 0 {
        assert(ps.take(1)[0] == ps[0]);
        assert(ps.take(1).skip(1) =~= Seq::<Seq<char>>::empty());
        assert(ps.take(0) =~= Seq::<Seq<char>>::empty());
        assert(profile_facts_text(ps.take(1)) =~= profile_facts_text(ps.take(0))
            + profile_fact_line(ps[0]) + seq!['\n']);
    } else {
        let tail = ps.skip(1);
        lemma_profile_facts_text_take(tail, i - 1);
        assert(ps.take(i + 1).skip(1) =~= tail.take(i));
        assert(ps.take(i).skip(1) =~= tail.take(i - 1));
        assert(ps.take(i + 1)[0] == ps[0]);
        assert(ps.take(i)[0] == ps[0]);
        assert(tail[i - 1] == ps[i]);
        assert(profile_fact_line(ps[0]) + seq!['\n'] + (profile_facts_text(tail.take(i - 1))
            + profile_fact_line(ps[i]) + seq!['\n']) =~= (profile_fact_line(ps[0]) + seq!['\n']
            + profile_facts_text(tail.take(i - 1))) + profile_fact_line(ps[i]) + seq!['\n']);
    }
}

/// Prints the block source that grants exactly the profiles `ps`: one
/// `profile("<name>");` fact per line.
pub fn profile_facts_source(ps: &Vec<String>) -> (r: String)
    ensures
        r@ == profile_facts_text(views_of_strings(ps@)),
{
    let ghost views = views_of_strings(ps@);
    let mut r = String::new();
    let mut i: usize = 0;
    proof {
        assert(views.take(0) =~= Seq::<Seq<char>>::empty());
    }
    while i < ps.len()
        invariant
            i <= ps@.len(),
            views == views_of_strings(ps@),
            r@ == profile_facts_text(views.take(i as int)),
        decreases ps@.len() - i,
    {
        proof {
            lemma_profile_facts_text_take(views, i as int);
            reveal_strlit("\n");
        }
        r.append("profile(\"");
        r.append(ps[i].as_str());
        r.append("\");");
        r.append("\n");
        proof {
            assert("\n"@ =~= seq!['\n']);
            assert(r@ =~= profile_facts_text(views.take(i + 1)));
        }
        i = i + 1;
    }
    proof {
        assert(views.take(views.len() as int) =~= views);
    }
    r
}

/// Lines join back with the separator: the profile facts of the text
/// `a`, a line break, then the text `b` are the facts of `a` then the
/// facts of `b`. Rebuilding a merged token from two concatenated block
/// sources therefore grants exactly the union of the two grants.
pub proof fn lemma_profiles_of_source_concat(a: Seq<char>, b: Seq<char>)
    ensures
        profiles_of_source(a + seq!['\n'] + b) == profiles_of_source(a) + profiles_of_source(b),
        expiries_of_source(a + seq!['\n'] + b) == expiries_of_source(a) + expiries_of_source(b),
        has_unreadable_check(a + seq!['\n'] + b) == (has_unreadable_check(a)
            || has_unreadable_check(b)),
{
    lemma_split_lines_concat(a, b);
    let la = split_lines(a);
    let lb = split_lines(b);
    Seq::filter_distributes_over_add(la, lb, |l: Seq<char>| profile_of_line(l) is Some);
    Seq::filter_distributes_over_add(la, lb, |l: Seq<char>| expiry_secs_of_line(l) is Some);
    assert(profiles_of_lines(la + lb) =~= profiles_of_lines(la) + profiles_of_lines(lb));
    assert(expiries_of_lines(la + lb) =~= expiries_of_lines(la) + expiries_of_lines(lb));
    assert(unreadable_line_in(la + lb) == (unreadable_line_in(la) || unreadable_line_in(lb))) by {
        if unreadable_line_in(la + lb) {
            let k = choose|k: int| 0 <= k < (la + lb).len() && !line_readable(#[trigger] (la + lb)[k]);
            if k < la.len() {
                assert(la[k] == (la + lb)[k]);
                assert(unreadable_line_in(la));
            } else {
                assert(lb[k - la.len()] == (la + lb)[k]);
                assert(unreadable_line_in(lb));
            }
        }
        if unreadable_line_in(la) {
            let k = choose|k: int| 0 <= k < la.len() && !line_readable(#[trigger] la[k]);
            assert(!line_readable((la + lb)[k]));
            assert(unreadable_line_in(la + lb));
        }
        if unreadable_line_in(lb) {
            let k = choose|k: int| 0 <= k < lb.len() && !line_readable(#[trigger] lb[k]);
            assert(!line_readable((la + lb)[la.len() + k]));
            assert(unreadable_line_in(la + lb));
        }
    }
}

} // verus!
