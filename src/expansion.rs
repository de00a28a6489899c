//! Membership lists of aliases and mailing lists.
//!
//! A list is stored as text: members separated by commas, each member trimmed
//! of surrounding whitespace when the text is read back.

use vstd::prelude::*;

verus! {

/// The characters that `str::trim` strips: Unicode `White_Space`.
pub open spec fn is_space(c: char) -> bool {
    ||| c == '\t' || c == '\n' || c == '\u{0B}' || c == '\u{0C}' || c == '\r' || c == ' '
    ||| c == '\u{85}' || c == '\u{A0}' || c == '\u{1680}'
    ||| '\u{2000}' <= c <= '\u{200A}'
    ||| c == '\u{2028}' || c == '\u{2029}' || c == '\u{202F}' || c == '\u{205F}'
    ||| c == '\u{3000}'
}

/// `s` without its leading whitespace.
pub open spec fn trim_start(s: Seq<char>) -> Seq<char>
    decreases s.len(),
{
    if s.len() > 0 && is_space(s[0]) {
        trim_start(s.drop_first())
    } else {
        s
    }
}

/// `s` without its trailing whitespace.
pub open spec fn trim_end(s: Seq<char>) -> Seq<char>
    decreases s.len(),
{
    if s.len() > 0 && is_space(s.last()) {
        trim_end(s.drop_last())
    } else {
        s
    }
}

/// `s` without surrounding whitespace.
pub open spec fn trim(s: Seq<char>) -> Seq<char> {
    trim_end(trim_start(s))
}

/// The comma-separated pieces of `s`, untrimmed; text without a comma is one
/// piece, so there is always at least one.
pub open spec fn split_commas(s: Seq<char>) -> Seq<Seq<char>>
    decreases s.len(),
{
    if s.len() == 0 {
        seq![Seq::empty()]
    } else {
        let init = split_commas(s.drop_last());
        if s.last() == ',' {
            init.push(Seq::empty())
        } else {
            init.update(init.len() - 1, init.last().push(s.last()))
        }
    }
}

/// The members of a stored list, in order: its pieces, trimmed.
pub open spec fn members(s: Seq<char>) -> Seq<Seq<char>> {
    split_commas(s).map_values(|p: Seq<char>| trim(p))
}

/// The views of a vector of strings.
pub open spec fn views(v: Seq<String>) -> Seq<Seq<char>> {
    v.map_values(|m: String| m@)
}

/// Members written back as text, separated by `", "`.
pub open spec fn join(ps: Seq<Seq<char>>) -> Seq<char>
    decreases ps.len(),
{
    if ps.len() == 0 {
        Seq::empty()
    } else if ps.len() == 1 {
        ps[0]
    } else {
        join(ps.drop_last()) + seq![',', ' '] + ps.last()
    }
}

/// Why a member could not be removed from a list.
#[derive(Debug, Clone, Copy, PartialEq, Eq, Structural)]
pub enum ListEditError {
    /// The list would be left without any member.
    WouldBecomeEmpty,
    /// No member of the list equals the one to remove.
    ComponentNotFound,
}

/// Adding `m` to the list stored as `l`: the list as it was where `m` is
/// already a member, else every member followed by `m`.
pub open spec fn added(l: Seq<char>, m: Seq<char>) -> Seq<char> {
    if members(l).contains(m) {
        l
    } else {
        join(members(l).push(m))
    }
}

/// Whether a member differs from `m`.
pub open spec fn other_than(m: Seq<char>) -> spec_fn(Seq<char>) -> bool {
    |e: Seq<char>| e != m
}

/// The members of `l` other than `m`.
pub open spec fn kept(l: Seq<char>, m: Seq<char>) -> Seq<Seq<char>> {
    members(l).filter(other_than(m))
}

/// Removing `m` from the list stored as `l`.
pub open spec fn removed(l: Seq<char>, m: Seq<char>) -> Result<Seq<char>, ListEditError> {
    if kept(l, m).len() == 0 {
        Err(ListEditError::WouldBecomeEmpty)
    } else if kept(l, m) == members(l) {
        Err(ListEditError::ComponentNotFound)
    } else {
        Ok(join(kept(l, m)))
    }
}

/// The text of a successful edit.
pub open spec fn text_result<E>(r: Result<String, E>) -> Result<Seq<char>, E> {
    match r {
        Ok(t) => Ok(t@),
        Err(e) => Err(e),
    }
}

pub proof fn lemma_split_nonempty(s: Seq<char>)
    ensures
        split_commas(s).len() >= 1,
    decreases s.len(),
{
    if s.len() > 0 {
        lemma_split_nonempty(s.drop_last());
    }
}

/// A member as a list holds it once read back: trimmed, without a comma.
pub open spec fn is_clean(m: Seq<char>) -> bool {
    trim(m) == m && !m.contains(',')
}

proof fn lemma_split_plain(x: Seq<char>, y: Seq<char>)
    requires
        !y.contains(','),
    ensures
        split_commas(x + y) == split_commas(x).update(
            split_commas(x).len() - 1,
            split_commas(x).last() + y,
        ),
    decreases y.len(),
{
    let sx = split_commas(x);
    lemma_split_nonempty(x);
    if y.len() == 0 {
        assert(x + y =~= x);
        assert(sx.update(sx.len() - 1, sx.last() + y) =~= sx);
    } else {
        let y0 = y.drop_last();
        let c = y.last();
        assert(!y0.contains(',')) by {
            if y0.contains(',') {
                let k = choose|k: int| 0 <= k < y0.len() && y0[k] == ',';
                assert(y[k] == ',');
            }
        }
        assert(c != ',') by {
            assert(y[y.len() - 1] == c);
        }
        lemma_split_plain(x, y0);
        assert((x + y).drop_last() =~= x + y0);
        assert((sx.last() + y0).push(c) =~= sx.last() + y);
        let s0 = split_commas(x + y0);
        assert(s0.update(s0.len() - 1, s0.last().push(c)) =~= sx.update(
            sx.len() - 1,
            sx.last() + y,
        ));
    }
}

proof fn lemma_split_comma(x: Seq<char>)
    ensures
        split_commas(x.push(',')) == split_commas(x).push(Seq::empty()),
{
    assert(x.push(',').drop_last() =~= x);
}

proof fn lemma_split_no_comma(s: Seq<char>, k: int)
    requires
        0 <= k < split_commas(s).len(),
    ensures
        !split_commas(s)[k].contains(','),
    decreases s.len(),
{
    if s.len() > 0 {
        let init = split_commas(s.drop_last());
        lemma_split_nonempty(s.drop_last());
        if s.last() == ',' {
            if k < init.len() {
                lemma_split_no_comma(s.drop_last(), k);
            }
        } else if k < init.len() - 1 {
            lemma_split_no_comma(s.drop_last(), k);
        } else {
            lemma_split_no_comma(s.drop_last(), k);
            let p = init.last().push(s.last());
            if p.contains(',') {
                let j = choose|j: int| 0 <= j < p.len() && p[j] == ',';
                if j < init.last().len() {
                    assert(init.last()[j] == ',');
                }
            }
        }
    }
}

proof fn lemma_trim_start_shape(s: Seq<char>)
    ensures
        trim_start(s).len() <= s.len(),
        trim_start(s) == s.subrange(s.len() - trim_start(s).len(), s.len() as int),
        trim_start(s).len() > 0 ==> !is_space(trim_start(s)[0]),
    decreases s.len(),
{
    if s.len() > 0 && is_space(s[0]) {
        lemma_trim_start_shape(s.drop_first());
        let t = trim_start(s.drop_first());
        assert(s.drop_first().subrange(s.drop_first().len() - t.len(), s.drop_first().len() as int)
            =~= s.subrange(s.len() - t.len(), s.len() as int));
    } else {
        assert(s.subrange(0, s.len() as int) =~= s);
    }
}

proof fn lemma_trim_end_shape(s: Seq<char>)
    ensures
        trim_end(s).len() <= s.len(),
        trim_end(s) == s.subrange(0, trim_end(s).len() as int),
        trim_end(s).len() > 0 ==> !is_space(trim_end(s).last()),
        s.len() > 0 && !is_space(s[0]) ==> trim_end(s).len() > 0 && trim_end(s)[0] == s[0],
    decreases s.len(),
{
    if s.len() > 0 && is_space(s.last()) {
        lemma_trim_end_shape(s.drop_last());
        let t = trim_end(s.drop_last());
        assert(s.drop_last().subrange(0, t.len() as int) =~= s.subrange(0, t.len() as int));
        if s.len() > 0 && !is_space(s[0]) {
            assert(s.len() > 1);
            assert(s.drop_last()[0] == s[0]);
        }
    } else {
        assert(s.subrange(0, s.len() as int) =~= s);
    }
}

proof fn lemma_trim_clean(p: Seq<char>)
    requires
        !p.contains(','),
    ensures
        is_clean(trim(p)),
{
    let a = trim_start(p);
    let t = trim_end(a);
    lemma_trim_start_shape(p);
    lemma_trim_end_shape(a);
    // `t` starts and ends with a non-space, so trimming it again keeps it
    lemma_trim_end_shape(t);
    assert(trim_start(t) == t);
    if t.len() > 0 {
        assert(!is_space(t.last()));
    }
    assert(trim_end(t) == t);
    assert(trim(t) == t);
    if t.contains(',') {
        let j = choose|j: int| 0 <= j < t.len() && t[j] == ',';
        assert(a[j] == t[j]);
        assert(p[p.len() - a.len() + j] == a[j]);
    }
}

proof fn lemma_trim_after_space(c: char, b: Seq<char>)
    requires
        is_space(c),
    ensures
        trim(seq![c] + b) == trim(b),
{
    assert((seq![c] + b).drop_first() =~= b);
}

proof fn lemma_members_clean(s: Seq<char>)
    ensures
        members(s).len() >= 1,
        forall|k: int| 0 <= k < members(s).len() ==> is_clean(#[trigger] members(s)[k]),
{
    lemma_split_nonempty(s);
    assert forall|k: int| 0 <= k < members(s).len() implies is_clean(#[trigger] members(s)[k]) by {
        lemma_split_no_comma(s, k);
        lemma_trim_clean(split_commas(s)[k]);
    }
}

/// Reading back the text of a list of clean members gives those members.
pub proof fn lemma_members_of_join(ps: Seq<Seq<char>>)
    requires
        ps.len() >= 1,
        forall|k: int| 0 <= k < ps.len() ==> is_clean(#[trigger] ps[k]),
    ensures
        members(join(ps)) == ps,
    decreases ps.len(),
{
    let b = ps.last();
    assert(is_clean(ps[ps.len() - 1]));
    if ps.len() == 1 {
        lemma_split_plain(Seq::empty(), b);
        assert(Seq::<char>::empty() + b =~= b);
        assert(members(join(ps)) =~= ps);
    } else {
        let init = ps.drop_last();
        assert forall|k: int| 0 <= k < init.len() implies is_clean(#[trigger] init[k]) by {
            assert(init[k] == ps[k]);
        }
        lemma_members_of_join(init);
        let j = join(init);
        let tail = seq![' '] + b;
        assert(join(ps) =~= j.push(',') + tail);
        assert(!tail.contains(',')) by {
            if tail.contains(',') {
                let i = choose|i: int| 0 <= i < tail.len() && tail[i] == ',';
                assert(b[i - 1] == ',');
            }
        }
        lemma_split_comma(j);
        lemma_split_plain(j.push(','), tail);
        lemma_split_nonempty(j);
        assert(Seq::<char>::empty() + tail =~= tail);
        assert(split_commas(join(ps)) =~= split_commas(j).push(tail));
        lemma_trim_after_space(' ', b);
        assert(members(join(ps)) =~= members(j).push(b));
    }
}

proof fn lemma_filter_keeps_all(s: Seq<Seq<char>>, m: Seq<char>)
    requires
        !s.contains(m),
    ensures
        s.filter(other_than(m)) == s,
    decreases s.len(),
{
    reveal(Seq::filter);
    if s.len() > 0 {
        let init = s.drop_last();
        if init.contains(m) {
            let k = choose|k: int| 0 <= k < init.len() && init[k] == m;
            assert(s[k] == m);
        }
        lemma_filter_keeps_all(init, m);
        assert(s.last() == s[s.len() - 1]);
        assert(init.push(s.last()) =~= s);
    }
}

/// Adding a member twice is adding it once.
pub proof fn law_add_idempotent(l: Seq<char>, m: Seq<char>)
    requires
        is_clean(m),
    ensures
        added(added(l, m), m) == added(l, m),
{
    if !members(l).contains(m) {
        lemma_members_clean(l);
        let ps = members(l).push(m);
        assert forall|k: int| 0 <= k < ps.len() implies is_clean(#[trigger] ps[k]) by {
            if k < members(l).len() {
                assert(ps[k] == members(l)[k]);
            }
        }
        lemma_members_of_join(ps);
        assert(members(added(l, m))[members(l).len() as int] == m);
    }
}

/// Removing the only member of a list fails: a list never becomes empty.
pub proof fn law_remove_last_member(l: Seq<char>, m: Seq<char>)
    requires
        members(l) == seq![m],
    ensures
        removed(l, m) == Err::<Seq<char>, ListEditError>(ListEditError::WouldBecomeEmpty),
{
    reveal(Seq::filter);
    let none = Seq::<Seq<char>>::empty();
    assert(none.push(m) =~= seq![m]);
    none.lemma_filter_push(m, other_than(m));
    assert(none.filter(other_than(m)) =~= none);
}

/// Removing what is not a member fails, and reports the member.
pub proof fn law_remove_absent_member(l: Seq<char>, m: Seq<char>)
    requires
        !members(l).contains(m),
    ensures
        removed(l, m) == Err::<Seq<char>, ListEditError>(ListEditError::ComponentNotFound),
{
    lemma_members_clean(l);
    lemma_filter_keeps_all(members(l), m);
}

/// Adding `m`, removing it and adding it again ends with the members of the
/// first addition; from there the same round trip changes nothing.
pub proof fn law_add_remove_round_trip(l: Seq<char>, m: Seq<char>)
    requires
        is_clean(m),
        removed(added(l, m), m) is Ok,
    ensures
        ({
            let a = added(l, m);
            let b = added(removed(a, m)->Ok_0, m);
            &&& members(b).to_set() == members(a).to_set()
            &&& removed(b, m) == Ok::<Seq<char>, ListEditError>(removed(a, m)->Ok_0)
            &&& added(removed(b, m)->Ok_0, m) == b
        }),
{
    broadcast use vstd::seq_lib::group_filter_ensures;

    let a = added(l, m);
    let k = kept(a, m);
    let r = removed(a, m)->Ok_0;
    lemma_members_clean(l);
    lemma_members_clean(a);
    // `m` is a member of `a`
    if !members(l).contains(m) {
        let ps = members(l).push(m);
        assert forall|i: int| 0 <= i < ps.len() implies is_clean(#[trigger] ps[i]) by {
            if i < members(l).len() {
                assert(ps[i] == members(l)[i]);
            }
        }
        lemma_members_of_join(ps);
        assert(members(a)[members(l).len() as int] == m);
    }
    assert(members(a).contains(m));
    // the members kept are clean, and `m` is not among them
    assert forall|i: int| 0 <= i < k.len() implies is_clean(#[trigger] k[i]) by {
        assert(k.contains(k[i]));
        members(a).lemma_filter_contains_rev(other_than(m), k[i]);
        let j = choose|j: int| 0 <= j < members(a).len() && members(a)[j] == k[i];
        assert(is_clean(members(a)[j]));
    }
    assert(!k.contains(m)) by {
        if k.contains(m) {
            let j = choose|j: int| 0 <= j < k.len() && k[j] == m;
            assert(k[j] != m);
        }
    }
    lemma_members_of_join(k);
    assert(members(r) == k);
    let kb = k.push(m);
    assert forall|i: int| 0 <= i < kb.len() implies is_clean(#[trigger] kb[i]) by {
        if i < k.len() {
            assert(kb[i] == k[i]);
        }
    }
    let b = added(r, m);
    assert(b == join(kb));
    lemma_members_of_join(kb);
    assert(members(b) == kb);
    // the same members, as sets
    assert forall|e: Seq<char>| members(b).contains(e) <==> members(a).contains(e) by {
        if members(b).contains(e) {
            let i = choose|i: int| 0 <= i < kb.len() && kb[i] == e;
            if i < k.len() {
                assert(k[i] == kb[i]);
                assert(k.contains(k[i]));
                members(a).lemma_filter_contains_rev(other_than(m), k[i]);
            }
        }
        if members(a).contains(e) && e != m {
            let i = choose|i: int| 0 <= i < members(a).len() && members(a)[i] == e;
            members(a).lemma_filter_contains(other_than(m), i);
            let j = choose|j: int| 0 <= j < k.len() && k[j] == e;
            assert(kb[j] == e);
        }
        if e == m {
            assert(kb[k.len() as int] == m);
        }
    }
    assert(members(b).to_set() =~= members(a).to_set());
    // removing `m` from `b` leaves `k` again
    k.lemma_filter_push(m, other_than(m));
    lemma_filter_keeps_all(k, m);
    assert(kept(b, m) == k);
    assert(kept(b, m).len() != members(b).len());
}

fn space(c: char) -> (r: bool)
    ensures
        r == is_space(c),
{
    c == '\t' || c == '\n' || c == '\u{0B}' || c == '\u{0C}' || c == '\r' || c == ' ' || c
        == '\u{85}' || c == '\u{A0}' || c == '\u{1680}' || ('\u{2000}' <= c && c <= '\u{200A}')
        || c == '\u{2028}' || c == '\u{2029}' || c == '\u{202F}' || c == '\u{205F}' || c
        == '\u{3000}'
}

/// The bounds `(a, b)` of the trimmed part of `chars[from..to]`.
fn trimmed_bounds(chars: &Vec<char>, from: usize, to: usize) -> (r: (usize, usize))
    requires
        from <= to <= chars.len(),
    ensures
        from <= r.0 <= r.1 <= to,
        chars@.subrange(r.0 as int, r.1 as int) == trim(chars@.subrange(from as int, to as int)),
{
    let mut a = from;
    while a < to && space(chars[a])
        invariant
            from <= a <= to <= chars.len(),
            trim_start(chars@.subrange(from as int, to as int)) == trim_start(
                chars@.subrange(a as int, to as int),
            ),
        decreases to - a,
    {
        assert(chars@.subrange(a as int, to as int).drop_first() =~= chars@.subrange(
            a + 1,
            to as int,
        ));
        a = a + 1;
    }
    let mut b = to;
    while b > a && space(chars[b - 1])
        invariant
            from <= a <= b <= to <= chars.len(),
            trim_end(chars@.subrange(a as int, to as int)) == trim_end(
                chars@.subrange(a as int, b as int),
            ),
        decreases b - a,
    {
        assert(chars@.subrange(a as int, b as int).drop_last() =~= chars@.subrange(
            a as int,
            b - 1,
        ));
        b = b - 1;
    }
    (a, b)
}

/// The list stored as `s` names at least one member that is not empty.
pub open spec fn has_real_member(s: Seq<char>) -> bool {
    exists|i: int| 0 <= i < members(s).len() && #[trigger] members(s)[i].len() > 0
}

/// Whether the list stored as `s` names at least one member that is not
/// empty.
pub fn names_a_member(s: &str) -> (r: bool)
    ensures
        r == has_real_member(s@),
{
    let ms = parse_members(s);
    let mut i: usize = 0;
    while i < ms.len()
        invariant
            i <= ms.len(),
            views(ms@) == members(s@),
            forall|k: int| 0 <= k < i ==> (#[trigger] ms@[k])@.len() == 0,
        decreases ms.len() - i,
    {
        if ms[i].as_str().unicode_len() > 0 {
            assert(members(s@)[i as int] == ms@[i as int]@);
            return true;
        }
        i = i + 1;
    }
    proof {
        if has_real_member(s@) {
            let k = choose|k: int| 0 <= k < members(s@).len() && #[trigger] members(s@)[k].len() > 0;
            assert(members(s@)[k] == ms@[k]@);
        }
    }
    false
}

/// The members of the list stored as `s`.
pub fn parse_members(s: &str) -> (r: Vec<String>)
    ensures
        views(r@) == members(s@),
{
    let chars = chars_of(s);
    let n = chars.len();
    let mut out: Vec<String> = Vec::new();
    let mut start: usize = 0;
    let mut i: usize = 0;
    proof {
        assert(s@.take(0) =~= Seq::<char>::empty());
    }
    while i < n
        invariant
            chars@ == s@,
            n == chars.len(),
            start <= i <= n,
            split_commas(s@.take(i as int)).len() == out.len() + 1,
            forall|k: int|
                0 <= k < out.len() ==> #[trigger] out@[k]@ == trim(
                    split_commas(s@.take(i as int))[k],
                ),
            split_commas(s@.take(i as int)).last() == s@.subrange(start as int, i as int),
        decreases n - i,
    {
        let ghost before = split_commas(s@.take(i as int));
        proof {
            lemma_split_nonempty(s@.take(i as int));
            assert(s@.take(i + 1).drop_last() =~= s@.take(i as int));
        }
        if chars[i] == ',' {
            let (a, b) = trimmed_bounds(&chars, start, i);
            out.push(String::from_str(s.substring_char(a, b)));
            start = i + 1;
            proof {
                assert(split_commas(s@.take(i + 1)) == before.push(Seq::empty()));
            }
        } else {
            proof {
                assert(s@.subrange(start as int, i + 1) =~= s@.subrange(start as int, i as int).push(
                    s@[i as int],
                ));
            }
        }
        i = i + 1;
    }
    let (a, b) = trimmed_bounds(&chars, start, n);
    out.push(String::from_str(s.substring_char(a, b)));
    proof {
        assert(s@.take(n as int) =~= s@);
        assert(views(out@) =~= members(s@));
    }
    out
}

/// The text of a list with the given members.
pub fn join_members(parts: &Vec<String>) -> (r: String)
    ensures
        r@ == join(views(parts@)),
{
    let mut out = String::new();
    let n = parts.len();
    let mut i: usize = 0;
    proof {
        reveal_strlit(", ");
        assert(views(parts@).take(0) =~= Seq::<Seq<char>>::empty());
    }
    while i < n
        invariant
            n == parts.len(),
            i <= n,
            out@ == join(views(parts@).take(i as int)),
            ", "@ == seq![',', ' '],
        decreases n - i,
    {
        assert(views(parts@).take(i + 1).drop_last() =~= views(parts@).take(i as int));
        if i > 0 {
            out.append(", ");
        }
        out.append(parts[i].as_str());
        i = i + 1;
    }
    assert(views(parts@).take(n as int) =~= views(parts@));
    out
}

/// Whether `m` is a member of `ms`.
fn has_member(ms: &Vec<String>, m: &str) -> (r: bool)
    ensures
        r == views(ms@).contains(m@),
{
    let target = String::from_str(m);
    let mut i: usize = 0;
    while i < ms.len()
        invariant
            i <= ms.len(),
            target@ == m@,
            forall|k: int| 0 <= k < i ==> ms@[k]@ != m@,
        decreases ms.len() - i,
    {
        if ms[i] == target {
            assert(views(ms@)[i as int] == m@);
            return true;
        }
        i = i + 1;
    }
    proof {
        if views(ms@).contains(m@) {
            let k = choose|k: int| 0 <= k < views(ms@).len() && views(ms@)[k] == m@;
            assert(ms@[k]@ == m@);
        }
    }
    false
}

/// The list stored as `current` with `member` added: `current` itself where
/// `member` is already one of its members, else every member, then `member`,
/// separated by `", "`.
pub fn add_member(current: &str, member: &str) -> (r: String)
    ensures
        r@ == added(current@, member@),
{
    let mut ms = parse_members(current);
    if has_member(&ms, member) {
        String::from_str(current)
    } else {
        ms.push(String::from_str(member));
        proof {
            assert(views(ms@) =~= members(current@).push(member@));
        }
        join_members(&ms)
    }
}

/// The list stored as `current` without `member`. It fails where nothing
/// would be left, and where `member` is none of its members.
pub fn remove_member(current: &str, member: &str) -> (r: Result<String, ListEditError>)
    ensures
        text_result(r) == removed(current@, member@),
{
    let ms = parse_members(current);
    let ghost all = members(current@);
    let ghost keep = other_than(member@);
    let target = String::from_str(member);
    let mut rest: Vec<String> = Vec::new();
    let mut i: usize = 0;
    proof {
        reveal(Seq::filter);
        assert(all.take(0) =~= Seq::<Seq<char>>::empty());
    }
    while i < ms.len()
        invariant
            i <= ms.len(),
            views(ms@) == all,
            target@ == member@,
            views(rest@) == all.take(i as int).filter(keep),
            rest.len() <= i,
            rest.len() == i ==> views(rest@) == all.take(i as int),
            keep == other_than(member@),
        decreases ms.len() - i,
    {
        proof {
            assert(all.take(i + 1) =~= all.take(i as int).push(all[i as int]));
            all.take(i as int).lemma_filter_push(all[i as int], keep);
        }
        if ms[i] != target {
            let ghost was = views(rest@);
            rest.push(ms[i].clone());
            assert(views(rest@) =~= was.push(all[i as int]));
        }
        i = i + 1;
    }
    proof {
        assert(all.take(ms.len() as int) =~= all);
        assert(views(rest@) == kept(current@, member@));
    }
    if rest.len() == 0 {
        Err(ListEditError::WouldBecomeEmpty)
    } else if rest.len() == ms.len() {
        Err(ListEditError::ComponentNotFound)
    } else {
        assert(views(rest@).len() != all.len());
        Ok(join_members(&rest))
    }
}

/// The characters of `s`, in order.
pub fn chars_of(s: &str) -> (r: Vec<char>)
    ensures
        r@ == s@,
{
    broadcast use vstd::string::group_string_axioms;

    let mut r: Vec<char> = Vec::new();
    for c in it: s.chars()
        invariant
            r@ == it.seq().take(it.index() as int),
    {
        r.push(c);
    }
    assert(r@ =~= s@);
    r
}

} // verus!
