//! Rendering helpers for compact replies that fit a single radio frame.
use vstd::prelude::*;
use crate::text::{
    char_utf8_width, lemma_utf8_len_take_monotone, lemma_utf8_len_take_step, push_char, push_str,
    utf8_len, is_byte_boundary, lemma_char_width_bounds, string_views,
};

verus! {

/// Number of leading characters of `s` whose UTF-8 encoding fits in `max` bytes.
pub open spec fn utf8_fit_count(s: Seq<char>, max: nat) -> nat
    decreases s.len(),
{
    if utf8_len(s) <= max || s.len() == 0 {
        s.len()
    } else {
        utf8_fit_count(s.drop_last(), max)
    }
}

/// Result of [`utf8_truncate`]: `s` itself when it fits in `max` bytes, else its
/// longest prefix that fits, followed by `…` when that prefix is not empty.
pub open spec fn utf8_truncate_spec(s: Seq<char>, max: nat) -> Seq<char> {
    if utf8_len(s) <= max {
        s
    } else {
        let p = s.take(utf8_fit_count(s, max) as int);
        if p.len() > 0 {
            p.push('…')
        } else {
            p
        }
    }
}

/// The fit count of a prefix is the first index whose next character overflows.
proof fn lemma_fit_count(s: Seq<char>, max: nat, k: int, j: int)
    requires
        0 <= k <= j <= s.len(),
        utf8_len(s.take(k)) <= max,
        k < s.len() ==> utf8_len(s.take(k + 1)) > max,
    ensures
        utf8_fit_count(s.take(j), max) == k,
    decreases j - k,
{
    if j == k {
        assert(s.take(k).len() == k);
    } else {
        lemma_utf8_len_take_monotone(s, k + 1, j);
        assert(s.take(j).drop_last() =~= s.take(j - 1));
        lemma_fit_count(s, max, k, j - 1);
    }
}

/// Truncates `s` to at most `max_bytes` bytes without splitting a character,
/// appending `…` when something was cut off.
pub fn utf8_truncate(s: &str, max_bytes: usize) -> (r: String)
    ensures
        r@ == utf8_truncate_spec(s@, max_bytes as nat),
{
    let n = s.unicode_len();
    let mut out = String::new();
    let mut used: usize = 0;
    let mut i: usize = 0;
    while i < n
        invariant
            i <= n,
            n == s@.len(),
            used == utf8_len(s@.take(i as int)),
            used <= max_bytes,
            out@ == s@.take(i as int),
        ensures
            i <= n,
            used == utf8_len(s@.take(i as int)),
            used <= max_bytes,
            out@ == s@.take(i as int),
            i < n ==> utf8_len(s@.take(i + 1)) > max_bytes,
        decreases n - i,
    {
        let c = s.get_char(i);
        let w = char_utf8_width(c);
        proof {
            lemma_utf8_len_take_step(s@, i as int);
        }
        if w > max_bytes - used {
            break;
        }
        push_char(&mut out, c);
        used = used + w;
        assert(out@ =~= s@.take(i + 1));
        i = i + 1;
    }
    proof {
        assert(s@.take(n as int) =~= s@);
        if i == n {
            assert(utf8_len(s@) <= max_bytes);
        }
        lemma_fit_count(s@, max_bytes as nat, i as int, n as int);
    }
    if i < n && i > 0 {
        push_char(&mut out, '…');
    }
    out
}

/// When the first `n` bytes of `s` end on a character boundary, the longest
/// prefix that fits in `n` bytes is exactly those bytes.
pub proof fn lemma_fit_at_boundary(s: Seq<char>, n: nat)
    requires
        is_byte_boundary(s, n),
    ensures
        utf8_len(s.take(utf8_fit_count(s, n) as int)) == n,
{
    let k = choose|k: int| 0 <= k <= s.len() && #[trigger] utf8_len(s.take(k)) == n;
    if k < s.len() {
        lemma_utf8_len_take_step(s, k);
        lemma_char_width_bounds(s[k]);
    }
    lemma_fit_count(s, n, k, s.len() as int);
    assert(s.take(s.len() as int) =~= s);
}

/// The longest prefix of `s` whose UTF-8 encoding fits in `max_bytes` bytes.
pub fn utf8_prefix(s: &str, max_bytes: usize) -> (r: String)
    ensures
        r@ == s@.take(utf8_fit_count(s@, max_bytes as nat) as int),
        utf8_len(r@) <= max_bytes,
{
    let n = s.unicode_len();
    let mut out = String::new();
    let mut used: usize = 0;
    let mut i: usize = 0;
    while i < n
        invariant
            i <= n,
            n == s@.len(),
            used == utf8_len(s@.take(i as int)),
            used <= max_bytes,
            out@ == s@.take(i as int),
        ensures
            i <= n,
            used == utf8_len(s@.take(i as int)),
            used <= max_bytes,
            out@ == s@.take(i as int),
            i < n ==> utf8_len(s@.take(i + 1)) > max_bytes,
        decreases n - i,
    {
        let c = s.get_char(i);
        let w = char_utf8_width(c);
        proof {
            lemma_utf8_len_take_step(s@, i as int);
        }
        if w > max_bytes - used {
            break;
        }
        push_char(&mut out, c);
        used = used + w;
        assert(out@ =~= s@.take(i + 1));
        i = i + 1;
    }
    proof {
        assert(s@.take(n as int) =~= s@);
        lemma_fit_count(s@, max_bytes as nat, i as int, n as int);
    }
    out
}

/// Characters of `items` joined with `sep` between consecutive items.
pub open spec fn join_spec(items: Seq<Seq<char>>, sep: Seq<char>) -> Seq<char>
    decreases items.len(),
{
    if items.len() == 0 {
        Seq::empty()
    } else if items.len() == 1 {
        items[0]
    } else {
        join_spec(items.drop_last(), sep) + sep + items.last()
    }
}

/// Result of [`list_1_to_5`]: at most the first five items, two spaces apart.
pub open spec fn list_1_to_5_spec(items: Seq<String>) -> Seq<char> {
    join_spec(string_views(items.take(if items.len() < 5 { items.len() as int } else { 5 })), "  "@)
}

/// Joins at most the first five items into one row, separated by two spaces.
pub fn list_1_to_5(items: &[String]) -> (line: String)
    ensures
        line@ == list_1_to_5_spec(items@),
{
    let count = if items.len() < 5 {
        items.len()
    } else {
        5
    };
    let ghost taken = string_views(items@.take(count as int));
    let mut line = String::new();
    let mut i: usize = 0;
    while i < count
        invariant
            i <= count <= items@.len(),
            count == (if items@.len() < 5 { items@.len() as int } else { 5 }),
            taken == string_views(items@.take(count as int)),
            line@ == join_spec(taken.take(i as int), "  "@),
        decreases count - i,
    {
        proof {
            assert(taken.take(i + 1).drop_last() =~= taken.take(i as int));
            assert(taken[i as int] == items@[i as int]@);
        }
        if i > 0 {
            push_str(&mut line, "  ");
        }
        push_str(&mut line, items[i].as_str());
        proof {
            if i == 0 {
                assert(line@ =~= join_spec(taken.take(1), "  "@));
            } else {
                assert(line@ =~= join_spec(taken.take(i + 1), "  "@));
            }
        }
        i = i + 1;
    }
    assert(taken.take(count as int) =~= taken);
    line
}

/// Result of [`topics_page`]: a header naming the board, the item row and the footer.
pub open spec fn topics_page_spec(bbs_name: Seq<char>, items: Seq<String>, footer: Seq<char>) -> Seq<char> {
    "["@ + bbs_name + "] Topics\n"@ + list_1_to_5_spec(items) + "\n"@ + footer + "\n"@
}

/// Builds a compact topics page: header, one row of up to five items, footer.
pub fn topics_page(bbs_name: &str, items: &[String], footer: &str) -> (page: String)
    ensures
        page@ == topics_page_spec(bbs_name@, items@, footer@),
{
    let mut page = String::new();
    push_str(&mut page, "[");
    push_str(&mut page, bbs_name);
    push_str(&mut page, "] Topics\n");
    let list = list_1_to_5(items);
    push_str(&mut page, list.as_str());
    push_str(&mut page, "\n");
    push_str(&mut page, footer);
    push_str(&mut page, "\n");
    assert(page@ =~= topics_page_spec(bbs_name@, items@, footer@));
    page
}

} // verus!
