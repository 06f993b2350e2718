//! The NPC roster of the dashboard: the seeds of the world's non-player
//! characters, listed by name with their dialogue topics and flags in order.
use vstd::prelude::*;
use crate::text::string_views;
use crate::order::lemma_move_back_keeps_class;

verus! {

broadcast use vstd::seq_lib::group_to_multiset_ensures;

/// One NPC as the dashboard lists it.
#[derive(Debug, Clone)]
pub struct NpcSummary {
    pub id: String,
    pub name: String,
    pub title: Option<String>,
    pub location: String,
    pub dialogue_topics: Vec<String>,
    pub flags: Vec<String>,
}

/// The NPCs of a seed file.
#[derive(Debug, Clone)]
pub struct ListNpcsResponse {
    pub npcs: Vec<NpcSummary>,
    pub total: usize,
    pub source_path: String,
}

/// An NPC as its seed describes it; `dialogue_topics` are the keys of its
/// dialogues, each once.
#[derive(Debug, Clone)]
pub struct NpcSeed {
    pub id: String,
    pub name: String,
    pub title: Option<String>,
    pub location: String,
    pub dialogue_topics: Vec<String>,
    pub flags: Vec<String>,
}

/// Whether `a` comes strictly before `b`: lexicographic order of the code
/// points, which is the order of `String`'s `Ord` (UTF-8 keeps it).
pub open spec fn text_lt(a: Seq<char>, b: Seq<char>) -> bool
    decreases a.len(),
{
    if a.len() == 0 {
        b.len() > 0
    } else if b.len() == 0 {
        false
    } else if a[0] != b[0] {
        (a[0] as u32) < (b[0] as u32)
    } else {
        text_lt(a.drop_first(), b.drop_first())
    }
}

/// Whether `a` comes before `b` or equals it.
pub open spec fn text_le(a: Seq<char>, b: Seq<char>) -> bool {
    a == b || text_lt(a, b)
}

/// Whether the texts are in order.
pub open spec fn texts_sorted(s: Seq<Seq<char>>) -> bool {
    forall|i: int, j: int| 0 <= i < j < s.len() ==> text_le(s[i], s[j])
}

/// Whether the NPCs are in order of their names.
pub open spec fn by_name(s: Seq<NpcSummary>) -> bool {
    forall|i: int, j: int| 0 <= i < j < s.len() ==> text_le(s[i].name@, s[j].name@)
}

pub(crate) proof fn lemma_lt_trans(a: Seq<char>, b: Seq<char>, c: Seq<char>)
    requires
        text_lt(a, b),
        text_lt(b, c),
    ensures
        text_lt(a, c),
    decreases a.len(),
{
    if a.len() > 0 && b.len() > 0 && c.len() > 0 && a[0] == b[0] && b[0] == c[0] {
        lemma_lt_trans(a.drop_first(), b.drop_first(), c.drop_first());
    }
}

proof fn lemma_lt_total(a: Seq<char>, b: Seq<char>)
    ensures
        a == b || text_lt(a, b) || text_lt(b, a),
    decreases a.len(),
{
    if a.len() == 0 && b.len() == 0 {
        assert(a =~= b);
    } else if a.len() > 0 && b.len() > 0 && a[0] == b[0] {
        lemma_lt_total(a.drop_first(), b.drop_first());
        if a.drop_first() == b.drop_first() {
            assert(a =~= seq![a[0]] + a.drop_first());
            assert(b =~= seq![b[0]] + b.drop_first());
        }
    } else if a.len() > 0 && b.len() > 0 {
        lemma_cast_injective(a[0], b[0]);
    }
}

proof fn lemma_cast_injective(x: char, y: char)
    ensures
        x != y ==> (x as u32) != (y as u32),
{
    if (x as u32) == (y as u32) {
        vstd::utf8::char_u32_cast(x, x as u32);
        vstd::utf8::char_u32_cast(y, y as u32);
    }
}

/// No text comes before itself.
pub(crate) proof fn lemma_lt_irreflexive(a: Seq<char>)
    ensures
        !text_lt(a, a),
    decreases a.len(),
{
    if a.len() > 0 {
        lemma_lt_irreflexive(a.drop_first());
    }
}

/// `text_le` orders texts: transitively, and any two either way.
pub proof fn lemma_text_order(a: Seq<char>, b: Seq<char>, c: Seq<char>)
    ensures
        text_le(a, b) && text_le(b, c) ==> text_le(a, c),
        !text_lt(a, b) ==> text_le(b, a),
{
    if text_lt(a, b) && text_lt(b, c) {
        lemma_lt_trans(a, b, c);
    }
    lemma_lt_total(a, b);
}

/// Whether `a` comes strictly before `b` (see [`text_lt`]).
pub fn text_less(a: &str, b: &str) -> (r: bool)
    ensures
        r == text_lt(a@, b@),
{
    let n = a.unicode_len();
    let m = b.unicode_len();
    let mut i: usize = 0;
    assert(a@.skip(0) =~= a@);
    assert(b@.skip(0) =~= b@);
    while i < n && i < m
        invariant
            i <= n,
            i <= m,
            n == a@.len(),
            m == b@.len(),
            text_lt(a@, b@) == text_lt(a@.skip(i as int), b@.skip(i as int)),
        decreases n - i,
    {
        let x = a.get_char(i);
        let y = b.get_char(i);
        assert(a@.skip(i as int)[0] == x);
        assert(b@.skip(i as int)[0] == y);
        if x != y {
            proof {
                lemma_cast_injective(x, y);
            }
            return (x as u32) < (y as u32);
        }
        assert(a@.skip(i as int).drop_first() =~= a@.skip(i + 1));
        assert(b@.skip(i as int).drop_first() =~= b@.skip(i + 1));
        i = i + 1;
    }
    assert(a@.skip(i as int).len() == n - i);
    assert(b@.skip(i as int).len() == m - i);
    i == n && i < m
}

/// The strings whose text is `t`.
pub open spec fn spelled(t: Seq<char>) -> spec_fn(String) -> bool {
    |s: String| s@ == t
}

/// The NPCs named `n`.
pub open spec fn named(n: Seq<char>) -> spec_fn(NpcSummary) -> bool {
    |x: NpcSummary| x.name@ == n
}

/// Sorts texts into order (see [`text_lt`]), keeping equal ones in place.
pub fn sort_texts(v: &mut Vec<String>)
    ensures
        texts_sorted(string_views(final(v)@)),
        final(v)@.to_multiset() == old(v)@.to_multiset(),
        forall|t: Seq<char>| #[trigger] final(v)@.filter(spelled(t)) == old(v)@.filter(spelled(t)),
{
    let n = v.len();
    if n == 0 {
        return;
    }
    let mut i: usize = 1;
    while i < n
        invariant
            1 <= i <= n,
            n == v@.len(),
            v@.to_multiset() == old(v)@.to_multiset(),
            forall|t: Seq<char>| #[trigger] v@.filter(spelled(t)) == old(v)@.filter(spelled(t)),
            forall|a: int, b: int| 0 <= a < b < i ==> text_le(v@[a]@, v@[b]@),
        decreases n - i,
    {
        let ghost before = v@;
        let x = v.remove(i);
        let ghost mid = v@;
        let mut j: usize = i;
        while j > 0 && text_less(x.as_str(), v[j - 1].as_str())
            invariant
                j <= i,
                i < n,
                v@ == mid,
                mid.len() == n - 1,
                forall|a: int, b: int| 0 <= a < b < i ==> text_le(mid[a]@, mid[b]@),
                forall|k: int| j <= k < i ==> text_lt(x@, mid[k]@),
            decreases j,
        {
            j = j - 1;
        }
        let ghost xv = x@;
        proof {
            if j > 0 {
                lemma_text_order(xv, mid[j - 1]@, xv);
            }
        }
        v.insert(j, x);
        proof {
            assert(mid == before.remove(i as int));
            let s = v@;
            assert(s == mid.insert(j as int, s[j as int]));
            assert(before =~= mid.insert(i as int, s[j as int]));
            assert forall|t: Seq<char>| #[trigger] s.filter(spelled(t)) == before.filter(spelled(t)) by {
                lemma_lt_irreflexive(xv);
                lemma_move_back_keeps_class(mid, s[j as int], i as int, j as int, spelled(t));
            }
            assert forall|a: int, b: int| 0 <= a < b < i + 1 implies text_le(s[a]@, s[b]@) by {
                if b < j {
                    assert(s[a] == mid[a] && s[b] == mid[b]);
                } else if b == j {
                    assert(s[a] == mid[a]);
                    assert(s[b]@ == xv);
                    if a < j - 1 {
                        lemma_text_order(mid[a]@, mid[j - 1]@, xv);
                    }
                } else if a < j {
                    assert(s[a] == mid[a] && s[b] == mid[b - 1]);
                } else if a == j {
                    assert(s[b] == mid[b - 1]);
                    assert(s[a]@ == xv);
                } else {
                    assert(s[a] == mid[a - 1] && s[b] == mid[b - 1]);
                }
            }
        }
        i = i + 1;
    }
}

/// Sorts NPCs by name (see [`text_lt`]), keeping those of equal names in place.
pub fn sort_by_name(v: &mut Vec<NpcSummary>)
    ensures
        by_name(final(v)@),
        final(v)@.to_multiset() == old(v)@.to_multiset(),
        forall|n: Seq<char>| #[trigger] final(v)@.filter(named(n)) == old(v)@.filter(named(n)),
{
    let n = v.len();
    if n == 0 {
        return;
    }
    let mut i: usize = 1;
    while i < n
        invariant
            1 <= i <= n,
            n == v@.len(),
            v@.to_multiset() == old(v)@.to_multiset(),
            forall|n: Seq<char>| #[trigger] v@.filter(named(n)) == old(v)@.filter(named(n)),
            forall|a: int, b: int| 0 <= a < b < i ==> text_le(v@[a].name@, v@[b].name@),
        decreases n - i,
    {
        let ghost before = v@;
        let x = v.remove(i);
        let ghost mid = v@;
        let mut j: usize = i;
        while j > 0 && text_less(x.name.as_str(), v[j - 1].name.as_str())
            invariant
                j <= i,
                i < n,
                v@ == mid,
                mid.len() == n - 1,
                forall|a: int, b: int| 0 <= a < b < i ==> text_le(mid[a].name@, mid[b].name@),
                forall|k: int| j <= k < i ==> text_lt(x.name@, mid[k].name@),
            decreases j,
        {
            j = j - 1;
        }
        let ghost xv = x.name@;
        proof {
            if j > 0 {
                lemma_text_order(xv, mid[j - 1].name@, xv);
            }
        }
        v.insert(j, x);
        proof {
            assert(mid == before.remove(i as int));
            let s = v@;
            assert(s == mid.insert(j as int, s[j as int]));
            assert(before =~= mid.insert(i as int, s[j as int]));
            assert forall|n: Seq<char>| #[trigger] s.filter(named(n)) == before.filter(named(n)) by {
                lemma_lt_irreflexive(xv);
                lemma_move_back_keeps_class(mid, s[j as int], i as int, j as int, named(n));
            }
            assert forall|a: int, b: int| 0 <= a < b < i + 1 implies text_le(s[a].name@, s[b].name@) by {
                if b < j {
                    assert(s[a] == mid[a] && s[b] == mid[b]);
                } else if b == j {
                    assert(s[a] == mid[a]);
                    assert(s[b].name@ == xv);
                    if a < j - 1 {
                        lemma_text_order(mid[a].name@, mid[j - 1].name@, xv);
                    }
                } else if a < j {
                    assert(s[a] == mid[a] && s[b] == mid[b - 1]);
                } else if a == j {
                    assert(s[b] == mid[b - 1]);
                    assert(s[a].name@ == xv);
                } else {
                    assert(s[a] == mid[a - 1] && s[b] == mid[b - 1]);
                }
            }
        }
        i = i + 1;
    }
}


/// Whether `t` holds the texts of `s`, each as often, in order.
pub open spec fn sorted_copy(s: Seq<String>, t: Seq<String>) -> bool {
    texts_sorted(string_views(t)) && t.to_multiset() == s.to_multiset()
}

/// Whether `x` summarises `seed`: the same fields, its dialogue topics and
/// its flags put in order.
pub open spec fn summary_of(seed: NpcSeed, x: NpcSummary) -> bool {
    &&& x.id == seed.id
    &&& x.name == seed.name
    &&& x.title == seed.title
    &&& x.location == seed.location
    &&& sorted_copy(seed.dialogue_topics@, x.dialogue_topics@)
    &&& sorted_copy(seed.flags@, x.flags@)
}

/// Whether `xs` summarises `seeds` one by one.
pub open spec fn summaries_of(seeds: Seq<NpcSeed>, xs: Seq<NpcSummary>) -> bool {
    xs.len() == seeds.len() && forall|i: int| 0 <= i < seeds.len() ==> summary_of(seeds[i], #[trigger] xs[i])
}

/// The summary of one seed.
pub fn summarize(seed: NpcSeed) -> (x: NpcSummary)
    ensures
        summary_of(seed, x),
{
    let mut topics = seed.dialogue_topics;
    sort_texts(&mut topics);
    let mut flags = seed.flags;
    sort_texts(&mut flags);
    NpcSummary { id: seed.id, name: seed.name, title: seed.title, location: seed.location, dialogue_topics: topics, flags }
}

/// The roster of a seed file: one summary per seed (see [`summary_of`]), in
/// order of their names. Dialogue topics are the keys of a seed's dialogues,
/// so none occurs twice.
pub fn transform_npcs(seeds: Vec<NpcSeed>) -> (r: Vec<NpcSummary>)
    requires
        forall|i: int| 0 <= i < seeds@.len() ==> string_views((#[trigger] seeds@[i]).dialogue_topics@).no_duplicates(),
    ensures
        by_name(r@),
        exists|xs: Seq<NpcSummary>| #[trigger] summaries_of(seeds@, xs) && r@.to_multiset() == xs.to_multiset()
            && (forall|n: Seq<char>| #[trigger] r@.filter(named(n)) == xs.filter(named(n))),
{
    let ghost orig = seeds@;
    let mut out: Vec<NpcSummary> = Vec::new();
    let mut rest = seeds;
    let n = rest.len();
    let mut i: usize = 0;
    while rest.len() > 0
        invariant
            i + rest@.len() == n,
            n == orig.len(),
            rest@ == orig.skip(i as int),
            out@.len() == i,
            forall|k: int| 0 <= k < i ==> summary_of(orig[k], #[trigger] out@[k]),
        decreases rest@.len(),
    {
        let seed = rest.remove(0);
        proof {
            assert(seed == orig[i as int]);
            assert(rest@ =~= orig.skip(i + 1));
        }
        out.push(summarize(seed));
        i = i + 1;
    }
    let ghost xs = out@;
    sort_by_name(&mut out);
    proof {
        assert(summaries_of(orig, xs));
    }
    out
}

/// The roster as the dashboard receives it.
pub fn npc_list(seeds: Vec<NpcSeed>, source_path: String) -> (r: ListNpcsResponse)
    requires
        forall|i: int| 0 <= i < seeds@.len() ==> string_views((#[trigger] seeds@[i]).dialogue_topics@).no_duplicates(),
    ensures
        by_name(r.npcs@),
        exists|xs: Seq<NpcSummary>| #[trigger] summaries_of(seeds@, xs) && r.npcs@.to_multiset() == xs.to_multiset()
            && (forall|n: Seq<char>| #[trigger] r.npcs@.filter(named(n)) == xs.filter(named(n))),
        r.total == r.npcs@.len(),
        r.source_path == source_path,
{
    let npcs = transform_npcs(seeds);
    let total = npcs.len();
    ListNpcsResponse { npcs, total, source_path }
}

} // verus!
