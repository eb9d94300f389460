//! Text formats of package lists: the whitespace-separated output of a list
//! command, and the one-name-per-line list files.

use vstd::prelude::*;
use vstd::string::StrSliceExecFns;
use vstd::utf8::{decode_utf8, valid_utf8};

verus! {

/// Whether `c` has the Unicode `White_Space` property.
pub open spec fn is_space(c: char) -> bool {
    let u = c as u32;
    (0x9 <= u && u <= 0xd) || u == 0x20 || u == 0x85 || u == 0xa0 || u == 0x1680 || (0x2000 <= u
        && u <= 0x200a) || u == 0x2028 || u == 0x2029 || u == 0x202f || u == 0x205f || u == 0x3000
}

/// Number of leading characters of `t` before the first one that satisfies `stop`.
pub open spec fn leading_run(t: Seq<char>, stop: spec_fn(char) -> bool) -> nat
    decreases t.len(),
{
    if t.len() == 0 || stop(t[0]) {
        0
    } else {
        1 + leading_run(t.drop_first(), stop)
    }
}

/// `leading_run` counts stop-free characters and ends at a stop or the end.
pub proof fn lemma_leading_run(t: Seq<char>, stop: spec_fn(char) -> bool)
    ensures
        leading_run(t, stop) <= t.len(),
        forall|j: int| 0 <= j < leading_run(t, stop) ==> !stop(#[trigger] t[j]),
        leading_run(t, stop) < t.len() ==> stop(t[leading_run(t, stop) as int]),
    decreases t.len(),
{
    if t.len() > 0 && !stop(t[0]) {
        lemma_leading_run(t.drop_first(), stop);
        assert forall|j: int| 0 <= j < leading_run(t, stop) implies !stop(#[trigger] t[j]) by {
            if j > 0 {
                assert(t[j] == t.drop_first()[j - 1]);
            }
        }
    }
}

/// `leading_run` is the length of a stop-free prefix followed by a stop or the end.
pub proof fn lemma_leading_run_at(t: Seq<char>, stop: spec_fn(char) -> bool, k: int)
    requires
        0 <= k <= t.len(),
        forall|j: int| 0 <= j < k ==> !stop(#[trigger] t[j]),
        k < t.len() ==> stop(t[k]),
    ensures
        leading_run(t, stop) == k,
    decreases k,
{
    if k > 0 {
        assert forall|j: int| 0 <= j < k - 1 implies !stop(#[trigger] t.drop_first()[j]) by {
            assert(t.drop_first()[j] == t[j + 1]);
        }
        lemma_leading_run_at(t.drop_first(), stop, k - 1);
    }
}

/// The characters that separate words: white space.
pub open spec fn space_stop() -> spec_fn(char) -> bool {
    |c: char| is_space(c)
}

/// The character that ends a line.
pub open spec fn break_stop() -> spec_fn(char) -> bool {
    |c: char| c == '\n'
}

/// The words of `t`: its maximal runs of characters that are not white space,
/// in order.
pub open spec fn words(t: Seq<char>) -> Seq<Seq<char>>
    decreases t.len(),
    via words_decreases
{
    if t.len() == 0 {
        seq![]
    } else if is_space(t[0]) {
        words(t.drop_first())
    } else {
        let k = leading_run(t, space_stop()) as int;
        seq![t.subrange(0, k)] + words(t.subrange(k, t.len() as int))
    }
}

#[via_fn]
proof fn words_decreases(t: Seq<char>) {
    if t.len() > 0 && !is_space(t[0]) {
        lemma_leading_run(t, space_stop());
        assert(leading_run(t, space_stop()) > 0);
    }
}

/// The characters of `s`, one by one.
pub fn chars_of(s: &str) -> (r: Vec<char>)
    ensures
        r@ == s@,
{
    let mut r: Vec<char> = Vec::new();
    for c in it: s.chars()
        invariant
            r@ == it.seq().subrange(0, it.index() as int),
    {
        r.push(c);
    }
    r
}

/// The views of a sequence of strings.
pub open spec fn names_of(v: Seq<String>) -> Seq<Seq<char>> {
    v.map_values(|s: String| s@)
}

/// The words from `start` on, where `t[i]` is the first white space there.
proof fn lemma_words_step(t: Seq<char>, start: int, i: int)
    requires
        0 <= start <= i < t.len(),
        forall|j: int| start <= j < i ==> !is_space(#[trigger] t[j]),
        is_space(t[i]),
    ensures
        start < i ==> words(t.subrange(start, t.len() as int)) == seq![t.subrange(start, i)]
            + words(t.subrange(i + 1, t.len() as int)),
        start == i ==> words(t.subrange(start, t.len() as int)) == words(
            t.subrange(i + 1, t.len() as int),
        ),
{
    let u = t.subrange(start, t.len() as int);
    if start < i {
        assert forall|j: int| 0 <= j < i - start implies !space_stop()(#[trigger] u[j]) by {
            assert(u[j] == t[start + j]);
        }
        lemma_leading_run_at(u, space_stop(), i - start);
        assert(u.subrange(0, i - start) == t.subrange(start, i));
        lemma_words_skip(u.subrange(i - start, u.len() as int));
        assert(u.subrange(i - start, u.len() as int).drop_first() == t.subrange(
            i + 1,
            t.len() as int,
        ));
    } else {
        assert(u.drop_first() == t.subrange(i + 1, t.len() as int));
    }
}

/// Leading white space adds no word.
proof fn lemma_words_skip(u: Seq<char>)
    requires
        u.len() > 0,
        is_space(u[0]),
    ensures
        words(u) == words(u.drop_first()),
{
}

/// The words of a tail without white space.
proof fn lemma_words_last(t: Seq<char>, start: int)
    requires
        0 <= start < t.len(),
        forall|j: int| start <= j < t.len() ==> !is_space(#[trigger] t[j]),
    ensures
        words(t.subrange(start, t.len() as int)) == seq![t.subrange(start, t.len() as int)],
{
    let u = t.subrange(start, t.len() as int);
    assert forall|j: int| 0 <= j < u.len() implies !space_stop()(#[trigger] u[j]) by {
        assert(u[j] == t[start + j]);
    }
    lemma_leading_run_at(u, space_stop(), u.len() as int);
    assert(u.subrange(0, u.len() as int) == u);
    assert(!is_space(u[0]));
    assert(words(u.subrange(u.len() as int, u.len() as int)) == Seq::<Seq<char>>::empty());
    assert(words(u) == seq![u] + Seq::<Seq<char>>::empty());
}

/// Splits `s` into its words: the runs of characters between white space.
pub fn split_words(s: &str) -> (r: Vec<String>)
    ensures
        names_of(r@) == words(s@),
{
    let cs = chars_of(s);
    let n = cs.len();
    let mut r: Vec<String> = Vec::new();
    let mut start: usize = 0;
    let mut i: usize = 0;
    assert(s@.subrange(0, n as int) == s@);
    assert(names_of(r@) =~= Seq::<Seq<char>>::empty());
    while i < n
        invariant
            cs@ == s@,
            n == cs.len(),
            start <= i <= n,
            forall|j: int| start <= j < i ==> !is_space(#[trigger] cs@[j]),
            words(s@) == names_of(r@) + words(s@.subrange(start as int, n as int)),
        decreases n - i,
    {
        let c = cs[i];
        if is_space_char(c) {
            proof {
                lemma_words_step(s@, start as int, i as int);
            }
            if start < i {
                let w = String::from_str(s.substring_char(start, i));
                let ghost before = r@;
                r.push(w);
                assert(names_of(r@) =~= names_of(before).push(w@));
            }
            start = i + 1;
        }
        i = i + 1;
    }
    if start < n {
        proof {
            lemma_words_last(s@, start as int);
        }
        let w = String::from_str(s.substring_char(start, n));
        let ghost before = r@;
        r.push(w);
        assert(names_of(r@) =~= names_of(before).push(w@));
    } else {
        assert(s@.subrange(start as int, n as int).len() == 0);
    }
    r
}

/// Whether `c` is white space.
pub fn is_space_char(c: char) -> (r: bool)
    ensures
        r == is_space(c),
{
    let u = c as u32;
    (0x9 <= u && u <= 0xd) || u == 0x20 || u == 0x85 || u == 0xa0 || u == 0x1680 || (0x2000 <= u
        && u <= 0x200a) || u == 0x2028 || u == 0x2029 || u == 0x202f || u == 0x205f || u == 0x3000
}

/// The lines of `t`: the pieces between line breaks. A last piece that is empty
/// (after a final break) is no line.
pub open spec fn lines(t: Seq<char>) -> Seq<Seq<char>>
    decreases t.len(),
    via lines_decreases
{
    if t.len() == 0 {
        seq![]
    } else {
        let k = leading_run(t, break_stop()) as int;
        if k >= t.len() {
            seq![t]
        } else {
            seq![t.subrange(0, k)] + lines(t.subrange(k + 1, t.len() as int))
        }
    }
}

#[via_fn]
proof fn lines_decreases(t: Seq<char>) {
    if t.len() > 0 {
        lemma_leading_run(t, break_stop());
    }
}

/// A line without the carriage return that may end it.
pub open spec fn strip_cr(l: Seq<char>) -> Seq<char> {
    if l.len() > 0 && l.last() == '\r' {
        l.drop_last()
    } else {
        l
    }
}

/// Whether `n` occurs in `ls` as a non-empty entry once a final carriage return
/// is taken off.
pub open spec fn is_listed_in(ls: Seq<Seq<char>>, n: Seq<char>) -> bool {
    n.len() > 0 && exists|i: int| 0 <= i < ls.len() && strip_cr(#[trigger] ls[i]) == n
}

/// The package names that a list file with text `t` holds: one per line, a
/// final carriage return taken off, blank lines left out.
pub open spec fn listed_names(t: Seq<char>) -> Set<Seq<char>> {
    Set::new(|n: Seq<char>| is_listed_in(lines(t), n))
}

/// A package name: not empty, and free of white space.
pub open spec fn is_name(n: Seq<char>) -> bool {
    n.len() > 0 && forall|j: int| 0 <= j < n.len() ==> !is_space(#[trigger] n[j])
}

/// The text of a list file that holds `ns`: each name followed by a line break.
pub open spec fn render(ns: Seq<Seq<char>>) -> Seq<char>
    decreases ns.len(),
{
    if ns.len() == 0 {
        seq![]
    } else {
        ns[0] + seq!['\n'] + render(ns.drop_first())
    }
}

/// The lines from `start` on, where `t[i]` is the first line break there.
proof fn lemma_lines_step(t: Seq<char>, start: int, i: int)
    requires
        0 <= start <= i < t.len(),
        forall|j: int| start <= j < i ==> #[trigger] t[j] != '\n',
        t[i] == '\n',
    ensures
        lines(t.subrange(start, t.len() as int)) == seq![t.subrange(start, i)] + lines(
            t.subrange(i + 1, t.len() as int),
        ),
{
    let u = t.subrange(start, t.len() as int);
    assert forall|j: int| 0 <= j < i - start implies !break_stop()(#[trigger] u[j]) by {
        assert(u[j] == t[start + j]);
    }
    lemma_leading_run_at(u, break_stop(), i - start);
    assert(u.subrange(0, i - start) == t.subrange(start, i));
    assert(u.subrange(i - start + 1, u.len() as int) == t.subrange(i + 1, t.len() as int));
}

/// The lines of a tail without line breaks.
proof fn lemma_lines_last(t: Seq<char>, start: int)
    requires
        0 <= start <= t.len(),
        forall|j: int| start <= j < t.len() ==> #[trigger] t[j] != '\n',
    ensures
        start < t.len() ==> lines(t.subrange(start, t.len() as int)) == seq![
            t.subrange(start, t.len() as int),
        ],
        start == t.len() ==> lines(t.subrange(start, t.len() as int)) == Seq::<
            Seq<char>,
        >::empty(),
{
    let u = t.subrange(start, t.len() as int);
    if start < t.len() {
        assert forall|j: int| 0 <= j < u.len() implies !break_stop()(#[trigger] u[j]) by {
            assert(u[j] == t[start + j]);
        }
        lemma_leading_run_at(u, break_stop(), u.len() as int);
    }
}

/// Pushing a name adds it to the set of names.
pub proof fn lemma_push_to_set(s: Seq<Seq<char>>, x: Seq<char>)
    ensures
        s.push(x).to_set() == s.to_set().insert(x),
{
    assert forall|m: Seq<char>| #[trigger] s.push(x).to_set().contains(m) implies s.to_set().insert(
        x,
    ).contains(m) by {
        let k = choose|k: int| 0 <= k < s.push(x).len() && s.push(x)[k] == m;
        if k < s.len() {
            assert(s[k] == m);
        }
    }
    assert forall|m: Seq<char>| #[trigger] s.to_set().insert(x).contains(m) implies s.push(
        x,
    ).to_set().contains(m) by {
        if m == x {
            assert(s.push(x)[s.len() as int] == m);
        } else {
            let k = choose|k: int| 0 <= k < s.len() && s[k] == m;
            assert(s.push(x)[k] == m);
        }
    }
    assert(s.push(x).to_set() =~= s.to_set().insert(x));
}

/// The names of `ls` that satisfy `keep`, each once, in the order of their
/// first occurrence.
pub open spec fn collect(ls: Seq<Seq<char>>, keep: spec_fn(Seq<char>) -> bool) -> Seq<Seq<char>>
    decreases ls.len(),
{
    if ls.len() == 0 {
        seq![]
    } else {
        let prev = collect(ls.drop_last(), keep);
        let n = ls.last();
        if keep(n) && !prev.contains(n) {
            prev.push(n)
        } else {
            prev
        }
    }
}

/// What `collect` keeps: each kept name once.
pub proof fn lemma_collect(ls: Seq<Seq<char>>, keep: spec_fn(Seq<char>) -> bool)
    ensures
        collect(ls, keep).no_duplicates(),
        forall|m: Seq<char>| #[trigger]
            collect(ls, keep).contains(m) <==> keep(m) && ls.contains(m),
    decreases ls.len(),
{
    if ls.len() > 0 {
        let prev = collect(ls.drop_last(), keep);
        lemma_collect(ls.drop_last(), keep);
        assert forall|m: Seq<char>| ls.contains(m) <==> ls.drop_last().contains(m) || m == ls.last() by {
            if ls.contains(m) {
                let k = choose|k: int| 0 <= k < ls.len() && ls[k] == m;
                if k < ls.len() - 1 {
                    assert(ls.drop_last()[k] == m);
                }
            }
            if ls.drop_last().contains(m) {
                let k = choose|k: int| 0 <= k < ls.len() - 1 && ls.drop_last()[k] == m;
                assert(ls[k] == m);
            }
            if m == ls.last() {
                assert(ls[ls.len() - 1] == m);
            }
        }
        if keep(ls.last()) && !prev.contains(ls.last()) {
            let c = prev.push(ls.last());
            assert forall|m: Seq<char>| c.contains(m) <==> prev.contains(m) || m == ls.last() by {
                if c.contains(m) {
                    let k = choose|k: int| 0 <= k < c.len() && c[k] == m;
                    if k < prev.len() {
                        assert(prev[k] == m);
                    }
                }
                if prev.contains(m) {
                    let k = choose|k: int| 0 <= k < prev.len() && prev[k] == m;
                    assert(c[k] == m);
                }
                if m == ls.last() {
                    assert(c[prev.len() as int] == m);
                }
            }
        }
    }
}

/// The package names of a list file with text `t`, in order, each once.
pub open spec fn listed_sequence(t: Seq<char>) -> Seq<Seq<char>> {
    collect(lines(t).map_values(|l: Seq<char>| strip_cr(l)), |n: Seq<char>| n.len() > 0)
}

/// `listed_sequence` holds each listed name once.
pub proof fn lemma_listed_sequence(t: Seq<char>)
    ensures
        listed_sequence(t).no_duplicates(),
        listed_sequence(t).to_set() == listed_names(t),
{
    let ls = lines(t).map_values(|l: Seq<char>| strip_cr(l));
    lemma_collect(ls, |n: Seq<char>| n.len() > 0);
    assert forall|m: Seq<char>| #[trigger] listed_sequence(t).to_set().contains(m) <==> listed_names(t).contains(m) by {
        if ls.contains(m) {
            let k = choose|k: int| 0 <= k < ls.len() && ls[k] == m;
            assert(strip_cr(lines(t)[k]) == m);
        }
        if listed_names(t).contains(m) {
            let k = choose|k: int| 0 <= k < lines(t).len() && strip_cr(#[trigger] lines(t)[k]) == m;
            assert(ls[k] == m);
        }
    }
    assert(listed_sequence(t).to_set() =~= listed_names(t));
}

/// Adds `l` to the lines read so far, keeping the names found among them.
fn note_line(l: &str, r: &mut Vec<String>, seen: &mut vstd::hash_set::StringHashSet, Ghost(
    done,
): Ghost<Seq<Seq<char>>>)
    requires
        old(seen)@ == names_of(old(r)@).to_set(),
        names_of(old(r)@) == collect(done, |n: Seq<char>| n.len() > 0),
    ensures
        final(seen)@ == names_of(final(r)@).to_set(),
        names_of(final(r)@) == collect(done.push(strip_cr(l@)), |n: Seq<char>| n.len() > 0),
{
    let ghost d2 = done.push(strip_cr(l@));
    let cs = chars_of(l);
    let n = cs.len();
    let name: &str = if n > 0 && cs[n - 1] == '\r' {
        l.substring_char(0, n - 1)
    } else {
        l
    };
    assert(name@ == strip_cr(l@)) by {
        if n > 0 && l@.last() == '\r' {
            assert(l@.drop_last() == l@.subrange(0, n - 1));
        }
    }
    assert(d2.drop_last() == done);
    let ghost before = r@;
    proof {
        assert(names_of(before).to_set().contains(name@) <==> names_of(before).contains(name@));
    }
    if name.unicode_len() > 0 && !seen.contains(name) {
        r.push(String::from_str(name));
        seen.insert(String::from_str(name));
        assert(names_of(r@) =~= names_of(before).push(name@));
        proof {
            lemma_push_to_set(names_of(before), name@);
        }
    }
}

/// Reads the package names of a list file with text `s`: one per line, blank
/// lines left out, each name once, in the order of first occurrence.
pub fn read_names(s: &str) -> (r: Vec<String>)
    ensures
        names_of(r@) == listed_sequence(s@),
        names_of(r@).no_duplicates(),
        names_of(r@).to_set() == listed_names(s@),
{
    let cs = chars_of(s);
    let n = cs.len();
    let mut r: Vec<String> = Vec::new();
    let mut seen = vstd::hash_set::StringHashSet::new();
    let mut start: usize = 0;
    let mut i: usize = 0;
    let ghost mut done: Seq<Seq<char>> = seq![];
    assert(s@.subrange(0, n as int) == s@);
    assert(names_of(r@) =~= Seq::<Seq<char>>::empty());
    assert(names_of(r@).to_set() =~= Set::<Seq<char>>::empty());
    while i < n
        invariant
            cs@ == s@,
            n == cs.len(),
            start <= i <= n,
            forall|j: int| start <= j < i ==> #[trigger] cs@[j] != '\n',
            lines(s@) == done + lines(s@.subrange(start as int, n as int)),
            seen@ == names_of(r@).to_set(),
            names_of(r@) == collect(
                done.map_values(|l: Seq<char>| strip_cr(l)),
                |n: Seq<char>| n.len() > 0,
            ),
        decreases n - i,
    {
        if cs[i] == '\n' {
            proof {
                lemma_lines_step(s@, start as int, i as int);
            }
            let l = s.substring_char(start, i);
            note_line(l, &mut r, &mut seen, Ghost(done.map_values(|l: Seq<char>| strip_cr(l))));
            proof {
                assert(done.push(l@).map_values(|l: Seq<char>| strip_cr(l)) =~= done.map_values(
                    |l: Seq<char>| strip_cr(l),
                ).push(strip_cr(l@)));
                done = done.push(l@);
                assert(lines(s@) =~= done + lines(s@.subrange(i + 1, n as int)));
            }
            start = i + 1;
        }
        i = i + 1;
    }
    proof {
        lemma_lines_last(s@, start as int);
    }
    if start < n {
        let l = s.substring_char(start, n);
        note_line(l, &mut r, &mut seen, Ghost(done.map_values(|l: Seq<char>| strip_cr(l))));
        proof {
            assert(done.push(l@).map_values(|l: Seq<char>| strip_cr(l)) =~= done.map_values(
                |l: Seq<char>| strip_cr(l),
            ).push(strip_cr(l@)));
            done = done.push(l@);
        }
    }
    assert(done =~= lines(s@));
    proof {
        lemma_listed_sequence(s@);
    }
    r
}

/// `render` of one more name appends that name and a line break.
proof fn lemma_render_push(ns: Seq<Seq<char>>, x: Seq<char>)
    ensures
        render(ns.push(x)) == render(ns) + x + seq!['\n'],
    decreases ns.len(),
{
    if ns.len() == 0 {
        assert(ns.push(x).drop_first() =~= Seq::<Seq<char>>::empty());
        assert(render(ns.push(x).drop_first()) == Seq::<char>::empty());
        assert(render(ns) == Seq::<char>::empty());
        assert(ns.push(x)[0] == x);
        assert(render(ns.push(x)) =~= render(ns) + x + seq!['\n']);
    } else {
        assert(ns.push(x).drop_first() =~= ns.drop_first().push(x));
        lemma_render_push(ns.drop_first(), x);
        assert(render(ns.push(x)) =~= render(ns) + x + seq!['\n']);
    }
}

/// Writes the text of a list file that holds `names`, one per line, in order.
pub fn render_names(names: &Vec<String>) -> (r: String)
    ensures
        r@ == render(names_of(names@)),
{
    let mut r = String::new();
    let nl = "\n";
    proof {
        reveal_strlit("\n");
    }
    let mut i: usize = 0;
    assert(names_of(names@).take(0) =~= Seq::<Seq<char>>::empty());
    while i < names.len()
        invariant
            i <= names.len(),
            nl@ == seq!['\n'],
            r@ == render(names_of(names@).take(i as int)),
        decreases names.len() - i,
    {
        r.append(names[i].as_str());
        r.append(nl);
        proof {
            let ns = names_of(names@);
            assert(ns.take(i + 1) =~= ns.take(i as int).push(ns[i as int]));
            lemma_render_push(ns.take(i as int), ns[i as int]);
        }
        i = i + 1;
    }
    assert(names_of(names@).take(i as int) =~= names_of(names@));
    r
}

/// The lines of the text that `render` writes are the names it was given.
pub proof fn lemma_lines_render(ns: Seq<Seq<char>>)
    requires
        forall|i: int, j: int| 0 <= i < ns.len() && 0 <= j < ns[i].len() ==> #[trigger] ns[i][j] != '\n',
    ensures
        lines(render(ns)) == ns,
    decreases ns.len(),
{
    if ns.len() > 0 {
        let t = render(ns);
        let k = ns[0].len() as int;
        assert forall|j: int| 0 <= j < k implies !break_stop()(#[trigger] t[j]) by {
            assert(t[j] == ns[0][j]);
        }
        lemma_leading_run_at(t, break_stop(), k);
        assert(t.subrange(0, k) =~= ns[0]);
        assert(t.subrange(k + 1, t.len() as int) =~= render(ns.drop_first()));
        lemma_lines_render(ns.drop_first());
        assert(lines(t) =~= ns);
    }
}

/// Writing package names to a list file and reading the file back gives the
/// same set of names.
pub proof fn law_list_file_round_trip(ns: Seq<Seq<char>>)
    requires
        forall|i: int| 0 <= i < ns.len() ==> is_name(#[trigger] ns[i]),
    ensures
        listed_names(render(ns)) == ns.to_set(),
{
    assert forall|i: int, j: int| 0 <= i < ns.len() && 0 <= j < ns[i].len() implies #[trigger] ns[i][j]
        != '\n' by {
        assert(is_name(ns[i]));
        assert(!is_space(ns[i][j]));
    }
    lemma_lines_render(ns);
    assert forall|i: int| 0 <= i < ns.len() implies strip_cr(#[trigger] ns[i]) == ns[i] by {
        assert(is_name(ns[i]));
        assert(!is_space(ns[i][ns[i].len() - 1]));
    }
    assert forall|m: Seq<char>| #[trigger] listed_names(render(ns)).contains(m) implies ns.to_set().contains(m) by {
        let i = choose|i: int| 0 <= i < ns.len() && strip_cr(#[trigger] ns[i]) == m;
        assert(ns[i] == m);
    }
    assert forall|m: Seq<char>| #[trigger] ns.to_set().contains(m) implies listed_names(render(ns)).contains(m) by {
        let i = choose|i: int| 0 <= i < ns.len() && ns[i] == m;
        assert(strip_cr(ns[i]) == m);
        assert(is_name(ns[i]));
    }
    assert(listed_names(render(ns)) =~= ns.to_set());
}

/// The words of any text are package names.
pub proof fn lemma_words_are_names(t: Seq<char>)
    ensures
        forall|i: int| 0 <= i < words(t).len() ==> is_name(#[trigger] words(t)[i]),
    decreases t.len(),
{
    if t.len() > 0 {
        if is_space(t[0]) {
            lemma_words_are_names(t.drop_first());
            assert(words(t) == words(t.drop_first()));
        } else {
            let k = leading_run(t, space_stop()) as int;
            lemma_leading_run(t, space_stop());
            lemma_words_are_names(t.subrange(k, t.len() as int));
            let w = t.subrange(0, k);
            assert forall|j: int| 0 <= j < w.len() implies !is_space(#[trigger] w[j]) by {
                assert(w[j] == t[j]);
                assert(!space_stop()(t[j]));
            }
            assert(is_name(w));
            let ws = words(t);
            assert(ws == seq![w] + words(t.subrange(k, t.len() as int)));
            assert forall|i: int| 0 <= i < ws.len() implies is_name(#[trigger] ws[i]) by {
                if i > 0 {
                    assert(ws[i] == words(t.subrange(k, t.len() as int))[i - 1]);
                }
            }
        }
    }
}

/// The names of `ws` that are not in `excluded`, each once, in order.
pub open spec fn names_without(ws: Seq<Seq<char>>, excluded: Set<Seq<char>>) -> Seq<Seq<char>> {
    collect(ws, |w: Seq<char>| !excluded.contains(w))
}

/// Relies on `String::from_utf8`: it succeeds exactly on valid UTF-8, and then
/// holds the characters the bytes encode.
#[verifier::external_body]
pub(crate) fn decode_text(bytes: Vec<u8>) -> (r: Option<String>)
    ensures
        r is Some <==> valid_utf8(bytes@),
        r matches Some(s) ==> s@ == decode_utf8(bytes@),
{
    String::from_utf8(bytes).ok()
}

/// The set of the strings of `v`.
pub fn string_set(v: &Vec<String>) -> (r: vstd::hash_set::StringHashSet)
    ensures
        r@ == names_of(v@).to_set(),
{
    let mut r = vstd::hash_set::StringHashSet::new();
    let mut i: usize = 0;
    while i < v.len()
        invariant
            i <= v.len(),
            r@ == names_of(v@).take(i as int).to_set(),
        decreases v.len() - i,
    {
        r.insert(String::from_str(v[i].as_str()));
        proof {
            let ns = names_of(v@);
            assert(ns.take(i + 1) =~= ns.take(i as int).push(ns[i as int]));
            lemma_push_to_set(ns.take(i as int), ns[i as int]);
        }
        i = i + 1;
    }
    assert(names_of(v@).take(i as int) =~= names_of(v@));
    r
}

/// The strings of `installed` that are not in `excluded`, each once, in order.
pub fn without(installed: &Vec<String>, excluded: &vstd::hash_set::StringHashSet) -> (r: Vec<
    String,
>)
    ensures
        names_of(r@) == names_without(names_of(installed@), excluded@),
{
    let ghost ws = names_of(installed@);
    let ghost keep = |w: Seq<char>| !excluded@.contains(w);
    let mut r: Vec<String> = Vec::new();
    let mut seen = vstd::hash_set::StringHashSet::new();
    let mut i: usize = 0;
    assert(ws.take(0) =~= Seq::<Seq<char>>::empty());
    assert(names_of(r@) =~= Seq::<Seq<char>>::empty());
    assert(seen@ =~= names_of(r@).to_set());
    while i < installed.len()
        invariant
            i <= installed.len(),
            ws == names_of(installed@),
            keep == (|w: Seq<char>| !excluded@.contains(w)),
            seen@ == names_of(r@).to_set(),
            names_of(r@) == collect(ws.take(i as int), keep),
        decreases installed.len() - i,
    {
        let w = installed[i].as_str();
        assert(ws.take(i + 1).drop_last() =~= ws.take(i as int));
        assert(ws.take(i + 1).last() == w@);
        assert(names_of(r@).to_set().contains(w@) <==> names_of(r@).contains(w@));
        if !excluded.contains(w) && !seen.contains(w) {
            let ghost before = r@;
            r.push(String::from_str(w));
            seen.insert(String::from_str(w));
            assert(names_of(r@) =~= names_of(before).push(w@));
            proof {
                lemma_push_to_set(names_of(before), w@);
            }
        }
        i = i + 1;
    }
    assert(ws.take(i as int) =~= ws);
    r
}

} // verus!
