//! Full-text search: what is asked of the index, and in which order the answers come.

use vstd::prelude::*;
use crate::storage::error::StorageError;
use crate::storage::models::SearchFilter;
use crate::text::{char_views, chars_of, owned, split_words, words, Separator};

verus! {

/// Whether `char::is_alphanumeric` of std holds of a character.
pub uninterp spec fn alphanumeric(c: char) -> bool;

/// `char::is_alphanumeric` of std: whether the character has the Unicode property
/// `Alphabetic` or is a number. Of the ASCII characters, letters and digits do.
pub assume_specification[ char::is_alphanumeric ](c: char) -> (r: bool)
    ensures
        r == alphanumeric(c),
        c <= '\u{7f}' ==> r == ('0' <= c <= '9' || 'A' <= c <= 'Z' || 'a' <= c <= 'z'),
;

/// Whether a text holds anything that can be searched for.
pub open spec fn searchable(query: Seq<char>) -> bool {
    exists|i: int| 0 <= i < query.len() && alphanumeric(#[trigger] query[i])
}

/// The text with each double quote doubled.
pub open spec fn doubled(s: Seq<char>) -> Seq<char>
    decreases s.len(),
{
    if s.len() == 0 {
        Seq::empty()
    } else if s[0] == '"' {
        seq!['"', '"'] + doubled(s.skip(1))
    } else {
        seq![s[0]] + doubled(s.skip(1))
    }
}

/// A token as a quoted phrase with a prefix wildcard: `tok` becomes `"tok"*`.
pub open spec fn quoted(token: Seq<char>) -> Seq<char> {
    seq!['"'] + doubled(token) + seq!['"', '*']
}

/// The quoted tokens, with spaces between them.
pub open spec fn match_expression(tokens: Seq<Seq<char>>) -> Seq<char>
    decreases tokens.len(),
{
    if tokens.len() == 0 {
        Seq::empty()
    } else if tokens.len() == 1 {
        quoted(tokens[0])
    } else {
        match_expression(tokens.drop_last()) + seq![' '] + quoted(tokens.last())
    }
}

fn push_quoted(out: &mut String, token: &[char])
    ensures
        final(out)@ == old(out)@ + quoted(token@),
{
    out.push('"');
    let ghost start = out@;
    let mut i: usize = 0;
    proof {
        assert(token@.skip(0) =~= token@);
    }
    while i < token.len()
        invariant
            i <= token.len(),
            start + doubled(token@) == out@ + doubled(token@.skip(i as int)),
        decreases token.len() - i,
    {
        let ghost before = out@;
        let ghost rest = token@.skip(i as int);
        proof {
            assert(rest.skip(1) =~= token@.skip(i + 1));
        }
        if token[i] == '"' {
            out.push('"');
        }
        out.push(token[i]);
        i += 1;
        proof {
            assert(before + doubled(rest) =~= out@ + doubled(token@.skip(i as int)));
        }
    }
    proof {
        assert(token@.skip(i as int) =~= Seq::<char>::empty());
        assert(out@ =~= start + doubled(token@));
    }
    out.push('"');
    out.push('*');
    proof {
        assert(out@ =~= old(out)@ + quoted(token@));
    }
}

/// Convert raw user input into a safe FTS5 MATCH expression.
///
/// Each whitespace-delimited token is wrapped as a quoted literal phrase with a trailing
/// prefix wildcard. Quoting makes FTS5-significant punctuation literal so arbitrary input
/// cannot produce a syntax error; space-joining preserves the default AND semantics across
/// tokens; and the wildcard enables prefix matching.
pub fn sanitize_fts5_query(query: &str) -> (r: String)
    ensures
        r@ == match_expression(words(query@, Separator::WhiteSpace)),
{
    let tokens = split_words(query, Separator::WhiteSpace);
    let ghost texts = words(query@, Separator::WhiteSpace);
    let mut out = String::new();
    let mut i: usize = 0;
    proof {
        assert(texts.take(0) =~= Seq::<Seq<char>>::empty());
    }
    while i < tokens.len()
        invariant
            i <= tokens@.len(),
            char_views(tokens@) == texts,
            out@ == match_expression(texts.take(i as int)),
        decreases tokens@.len() - i,
    {
        let ghost before = out@;
        if i > 0 {
            out.push(' ');
        }
        push_quoted(&mut out, tokens[i].as_slice());
        proof {
            let next = texts.take(i + 1);
            assert(texts[i as int] == tokens@[i as int]@);
            assert(next.drop_last() =~= texts.take(i as int));
            assert(next.last() == tokens@[i as int]@);
            if i == 0 {
                assert(out@ =~= quoted(next[0]));
            } else {
                assert(out@ =~= before + seq![' '] + quoted(next.last()));
            }
        }
        i += 1;
    }
    proof {
        assert(texts.take(texts.len() as int) =~= texts);
    }
    out
}

/// Whether every double quote in the text is one of a pair.
pub open spec fn quotes_are_paired(s: Seq<char>) -> bool
    decreases s.len(),
{
    if s.len() == 0 {
        true
    } else if s[0] == '"' {
        s.len() >= 2 && s[1] == '"' && quotes_are_paired(s.skip(2))
    } else {
        quotes_are_paired(s.skip(1))
    }
}

/// No token ends its own phrase: every quote inside the phrase is one of a pair.
pub proof fn a_token_cannot_end_its_phrase(token: Seq<char>)
    ensures
        quotes_are_paired(doubled(token)),
    decreases token.len(),
{
    if token.len() > 0 {
        a_token_cannot_end_its_phrase(token.skip(1));
        if token[0] == '"' {
            assert(doubled(token).skip(2) =~= doubled(token.skip(1)));
        } else {
            assert(doubled(token).skip(1) =~= doubled(token.skip(1)));
        }
    }
}

/// Quoting loses nothing: two tokens with the same phrase are the same.
pub proof fn quoting_is_injective(a: Seq<char>, b: Seq<char>)
    requires
        doubled(a) == doubled(b),
    ensures
        a == b,
    decreases a.len(),
{
    if a.len() == 0 {
        if b.len() > 0 {
            assert(doubled(b).len() > 0);
        }
        assert(a =~= b);
    } else if b.len() == 0 {
        assert(doubled(a).len() > 0);
    } else {
        assert(doubled(a)[0] == a[0]);
        assert(doubled(b)[0] == b[0]);
        if a[0] == '"' {
            assert(doubled(a).skip(2) =~= doubled(a.skip(1)));
            assert(doubled(b).skip(2) =~= doubled(b.skip(1)));
        } else {
            assert(doubled(a).skip(1) =~= doubled(a.skip(1)));
            assert(doubled(b).skip(1) =~= doubled(b.skip(1)));
        }
        quoting_is_injective(a.skip(1), b.skip(1));
        assert(a =~= seq![a[0]] + a.skip(1));
        assert(b =~= seq![b[0]] + b.skip(1));
    }
}

/// What is asked of the index.
#[derive(Debug, Clone, PartialEq, Eq)]
pub struct SearchPlan {
    /// The MATCH expression.
    pub match_query: String,
    /// The LIMIT of each query: enough rows from each source to fill the page whatever the
    /// other one gives.
    pub sub_limit: i64,
    /// Whether screenshots are searched.
    pub screens: bool,
    /// Whether audio segments are searched.
    pub audio: bool,
}

/// A count as a 64-bit LIMIT: one that is too large for it wraps around to a negative number,
/// which limits nothing.
pub open spec fn as_limit(n: int) -> int {
    if n <= i64::MAX {
        n
    } else {
        n - 0x1_0000_0000_0000_0000
    }
}

/// The LIMIT of each query.
pub open spec fn row_limit(limit: usize, offset: usize) -> int {
    as_limit(limit + offset)
}

/// Whether screenshots are searched under this filter.
pub open spec fn asks_screens(filter: SearchFilter) -> bool {
    filter == SearchFilter::All || filter == SearchFilter::ScreenOnly
}

/// Whether audio segments are searched under this filter.
pub open spec fn asks_audio(filter: SearchFilter) -> bool {
    filter == SearchFilter::All || filter == SearchFilter::AudioOnly
}

/// Plan a search. Nothing is asked if the query holds nothing that can be searched for.
pub fn plan_search(query: &str, filter: SearchFilter, limit: usize, offset: usize) -> (r: Option<
    SearchPlan,
>)
    requires
        limit + offset <= usize::MAX,
    ensures
        r is Some <==> searchable(query@),
        r is Some ==> {
            &&& r->0.match_query@ == match_expression(words(query@, Separator::WhiteSpace))
            &&& r->0.sub_limit == row_limit(limit, offset)
            &&& r->0.screens == asks_screens(filter)
            &&& r->0.audio == asks_audio(filter)
        },
{
    if !is_searchable(query) {
        return None;
    }
    let wanted: i128 = (limit + offset) as i128;
    let sub_limit: i64 = if wanted <= i64::MAX as i128 {
        wanted as i64
    } else {
        (wanted - 0x1_0000_0000_0000_0000) as i64
    };
    Some(
        SearchPlan {
            match_query: sanitize_fts5_query(query),
            sub_limit,
            screens: filter == SearchFilter::All || filter == SearchFilter::ScreenOnly,
            audio: filter == SearchFilter::All || filter == SearchFilter::AudioOnly,
        },
    )
}

/// Whether the query holds anything that can be searched for.
pub fn is_searchable(query: &str) -> (r: bool)
    ensures
        r == searchable(query@),
{
    let chars = chars_of(query);
    let mut i: usize = 0;
    while i < chars.len()
        invariant
            i <= chars@.len(),
            chars@ == query@,
            forall|k: int| 0 <= k < i ==> !alphanumeric(#[trigger] query@[k]),
        decreases chars@.len() - i,
    {
        if chars[i].is_alphanumeric() {
            assert(alphanumeric(query@[i as int]));
            return true;
        }
        i += 1;
    }
    false
}

/// Whether result `a` comes before result `b`: it has the lower rank, or the same and came in
/// first.
pub open spec fn comes_before(ranks: Seq<i64>, a: usize, b: usize) -> bool {
    ranks[a as int] < ranks[b as int] || ranks[a as int] == ranks[b as int] && a < b
}

/// Whether `order` lists the results from `start` up to `end`, each once, in their order.
pub open spec fn ordered(ranks: Seq<i64>, start: int, end: int, order: Seq<usize>) -> bool {
    &&& order.len() == end - start
    &&& forall|i: int| 0 <= i < order.len() ==> start <= #[trigger] order[i] < end
    &&& forall|i: int, j: int|
        0 <= i < j < order.len() ==> comes_before(ranks, #[trigger] order[i], #[trigger] order[j])
    &&& forall|k: int| start <= k < end ==> order.contains(#[trigger] index(k))
}

/// A position as an index.
pub open spec fn index(k: int) -> usize {
    k as usize
}

fn merge(ranks: &[i64], start: usize, middle: usize, end: usize, a: Vec<usize>, b: Vec<usize>) -> (r:
    Vec<usize>)
    requires
        start <= middle <= end <= ranks@.len(),
        ordered(ranks@, start as int, middle as int, a@),
        ordered(ranks@, middle as int, end as int, b@),
    ensures
        ordered(ranks@, start as int, end as int, r@),
{
    let mut out: Vec<usize> = Vec::new();
    let mut i: usize = 0;
    let mut j: usize = 0;
    while i < a.len() || j < b.len()
        invariant
            start <= middle <= end <= ranks@.len(),
            ordered(ranks@, start as int, middle as int, a@),
            ordered(ranks@, middle as int, end as int, b@),
            i <= a@.len(),
            j <= b@.len(),
            out@.len() == i + j,
            forall|k: int| 0 <= k < out@.len() ==> start <= #[trigger] out@[k] < end,
            forall|k: int, l: int|
                0 <= k < l < out@.len() ==> comes_before(
                    ranks@,
                    #[trigger] out@[k],
                    #[trigger] out@[l],
                ),
            forall|k: int, l: int|
                0 <= k < out@.len() && i <= l < a@.len() ==> comes_before(
                    ranks@,
                    #[trigger] out@[k],
                    #[trigger] a@[l],
                ),
            forall|k: int, l: int|
                0 <= k < out@.len() && j <= l < b@.len() ==> comes_before(
                    ranks@,
                    #[trigger] out@[k],
                    #[trigger] b@[l],
                ),
            forall|k: int| 0 <= k < i ==> out@.contains(#[trigger] a@[k]),
            forall|k: int| 0 <= k < j ==> out@.contains(#[trigger] b@[k]),
        decreases a@.len() - i + b@.len() - j,
    {
        let from_a = if i == a.len() {
            false
        } else if j == b.len() {
            true
        } else {
            ranks[a[i]] <= ranks[b[j]]
        };
        let ghost before = out@;
        if from_a {
            let x: usize = a[i];
            proof {
                if j < b@.len() {
                    assert(comes_before(ranks@, x, b@[j as int]));
                }
                assert forall|l: int| j <= l < b@.len() implies comes_before(
                    ranks@,
                    x,
                    #[trigger] b@[l],
                ) by {
                    if l > j {
                        assert(comes_before(ranks@, b@[j as int], b@[l]));
                    }
                }
            }
            out.push(x);
            i += 1;
            proof {
                assert(out@[out@.len() - 1] == x);
                assert forall|k: int| 0 <= k < i implies out@.contains(#[trigger] a@[k]) by {
                    if k < i - 1 {
                        let w = choose|w: int| 0 <= w < before.len() && before[w] == a@[k];
                        assert(out@[w] == a@[k]);
                    }
                }
                assert forall|k: int| 0 <= k < j implies out@.contains(#[trigger] b@[k]) by {
                    let w = choose|w: int| 0 <= w < before.len() && before[w] == b@[k];
                    assert(out@[w] == b@[k]);
                }
            }
        } else {
            let x: usize = b[j];
            proof {
                if i < a@.len() {
                    assert(comes_before(ranks@, x, a@[i as int]));
                }
                assert forall|l: int| i <= l < a@.len() implies comes_before(
                    ranks@,
                    x,
                    #[trigger] a@[l],
                ) by {
                    if l > i {
                        assert(comes_before(ranks@, a@[i as int], a@[l]));
                    }
                }
            }
            out.push(x);
            j += 1;
            proof {
                assert(out@[out@.len() - 1] == x);
                assert forall|k: int| 0 <= k < i implies out@.contains(#[trigger] a@[k]) by {
                    let w = choose|w: int| 0 <= w < before.len() && before[w] == a@[k];
                    assert(out@[w] == a@[k]);
                }
                assert forall|k: int| 0 <= k < j implies out@.contains(#[trigger] b@[k]) by {
                    if k < j - 1 {
                        let w = choose|w: int| 0 <= w < before.len() && before[w] == b@[k];
                        assert(out@[w] == b@[k]);
                    }
                }
            }
        }
    }
    proof {
        assert forall|k: int| start <= k < end implies out@.contains(#[trigger] index(k)) by {
            if k < middle {
                assert(a@.contains(index(k)));
                let w = choose|w: int| 0 <= w < a@.len() && a@[w] == index(k);
                assert(out@.contains(a@[w]));
            } else {
                assert(b@.contains(index(k)));
                let w = choose|w: int| 0 <= w < b@.len() && b@[w] == index(k);
                assert(out@.contains(b@[w]));
            }
        }
    }
    out
}

fn sort_range(ranks: &[i64], start: usize, end: usize) -> (r: Vec<usize>)
    requires
        start <= end <= ranks@.len(),
    ensures
        ordered(ranks@, start as int, end as int, r@),
    decreases end - start,
{
    if end - start <= 1 {
        let mut out: Vec<usize> = Vec::new();
        if start < end {
            out.push(start);
            assert(out@[0] == index(start as int));
        }
        return out;
    }
    let middle: usize = start + (end - start) / 2;
    let a = sort_range(ranks, start, middle);
    let b = sort_range(ranks, middle, end);
    merge(ranks, start, middle, end, a, b)
}

/// The order of the results: by rank, lower first, and those of one rank as they came in.
pub fn rank_order(ranks: &[i64]) -> (r: Vec<usize>)
    ensures
        ordered(ranks@, 0, ranks@.len() as int, r@),
{
    sort_range(ranks, 0, ranks.len())
}

/// The page of an order: what is left after `offset`, up to `limit`.
pub open spec fn page<T>(all: Seq<T>, offset: nat, limit: nat) -> Seq<T> {
    if offset >= all.len() {
        Seq::empty()
    } else if offset + limit >= all.len() {
        all.skip(offset as int)
    } else {
        all.subrange(offset as int, (offset + limit) as int)
    }
}

/// The results of one page, by their positions among all that came in: screenshots first,
/// then audio segments. `ranks` keeps the order of the relevance scores.
pub fn merge_results(ranks: &[i64], limit: usize, offset: usize) -> (r: Vec<usize>)
    ensures
        exists|order: Seq<usize>|
            #[trigger] ordered(ranks@, 0, ranks@.len() as int, order) && r@ == page(
                order,
                offset as nat,
                limit as nat,
            ),
{
    let order = rank_order(ranks);
    let start: usize = if offset < order.len() {
        offset
    } else {
        order.len()
    };
    let rest: usize = order.len() - start;
    let end: usize = if limit < rest {
        start + limit
    } else {
        order.len()
    };
    let r = crate::text::slice_range(order.as_slice(), start, end);
    proof {
        assert(r@ =~= page(order@, offset as nat, limit as nat));
    }
    r
}

/// The order of the results is settled: there is only one.
pub proof fn the_order_is_settled(ranks: Seq<i64>, a: Seq<usize>, b: Seq<usize>)
    requires
        ordered(ranks, 0, ranks.len() as int, a),
        ordered(ranks, 0, ranks.len() as int, b),
        ranks.len() <= usize::MAX,
    ensures
        a == b,
{
    assert(a.len() == b.len());
    assert forall|n: int| 0 <= n <= a.len() implies #[trigger] a.take(n) =~= b.take(n) by {
        lemma_same_start(ranks, a, b, n);
    }
    assert(a.take(a.len() as int) =~= b.take(a.len() as int));
    assert(a.take(a.len() as int) =~= a);
    assert(b.take(a.len() as int) =~= b);
}

proof fn lemma_same_start(ranks: Seq<i64>, a: Seq<usize>, b: Seq<usize>, n: int)
    requires
        ordered(ranks, 0, ranks.len() as int, a),
        ordered(ranks, 0, ranks.len() as int, b),
        ranks.len() <= usize::MAX,
        0 <= n <= a.len(),
    ensures
        a.take(n) =~= b.take(n),
    decreases n,
{
    if n > 0 {
        lemma_same_start(ranks, a, b, n - 1);
        let x = a[n - 1];
        let y = b[n - 1];
        assert(index(x as int) == x);
        assert(index(y as int) == y);
        assert(b.contains(x));
        assert(a.contains(y));
        let i = choose|i: int| 0 <= i < b.len() && b[i] == x;
        let j = choose|j: int| 0 <= j < a.len() && a[j] == y;
        if i < n - 1 {
            assert(a.take(n - 1)[i] == b.take(n - 1)[i]);
            assert(comes_before(ranks, a[i], a[n - 1]));
        } else if j < n - 1 {
            assert(a.take(n - 1)[j] == b.take(n - 1)[j]);
            assert(comes_before(ranks, b[j], b[n - 1]));
        } else if i > n - 1 && j > n - 1 {
            assert(comes_before(ranks, b[n - 1], b[i]));
            assert(comes_before(ranks, a[n - 1], a[j]));
        }
        assert(x == y);
        assert forall|k: int| 0 <= k < n implies a.take(n)[k] == b.take(n)[k] by {
            if k < n - 1 {
                assert(a.take(n - 1)[k] == b.take(n - 1)[k]);
            }
        }
    }
}

/// The first `n` of them, or all if there are not so many.
pub open spec fn at_most(ranks: Seq<i64>, n: int) -> Seq<i64> {
    if n < ranks.len() {
        ranks.take(n)
    } else {
        ranks
    }
}

/// Whether the ranks rise, as those of one source do.
pub open spec fn rising(ranks: Seq<i64>) -> bool {
    forall|i: int, j: int| 0 <= i < j < ranks.len() ==> #[trigger] ranks[i] <= #[trigger] ranks[j]
}

/// The position among all results of the one at this position among those that were fetched.
pub open spec fn among_all(i: usize, fetched_screens: nat, all_screens: nat) -> int {
    if i < fetched_screens {
        i as int
    } else {
        i - fetched_screens + all_screens
    }
}

/// Nothing that holds `count` positions from `start` on is shorter than that.
proof fn lemma_holds_as_many(s: Seq<usize>, start: int, count: int)
    requires
        0 <= start,
        0 <= count,
        start + count <= usize::MAX,
        forall|k: int| start <= k < start + count ==> s.contains(#[trigger] index(k)),
    ensures
        s.len() >= count,
{
    let positions = s.map(|i: int, x: usize| x as int);
    vstd::set_lib::lemma_int_range(start, start + count);
    assert forall|k: int| start <= k < start + count implies positions.contains(k) by {
        assert(s.contains(index(k)));
        let w = choose|w: int| 0 <= w < s.len() && s[w] == index(k);
        assert(positions[w] == k);
    }
    assert(vstd::set_lib::set_int_range(start, start + count).subset_of(positions.to_set()));
    vstd::seq_lib::seq_to_set_is_finite(positions);
    vstd::set_lib::lemma_len_subset(
        vstd::set_lib::set_int_range(start, start + count),
        positions.to_set(),
    );
    positions.lemma_cardinality_of_set();
}

/// A result that is not among those that were fetched is not among the first `wanted`: so many
/// of its source come before it.
proof fn lemma_the_first_are_fetched(
    ranks: Seq<i64>,
    order: Seq<usize>,
    start: int,
    end: int,
    wanted: int,
    n: int,
)
    requires
        ordered(ranks, 0, ranks.len() as int, order),
        ranks.len() <= usize::MAX,
        0 <= start <= end <= ranks.len(),
        rising(ranks.subrange(start, end)),
        0 <= n < wanted,
        n < order.len(),
        start <= order[n] < end,
    ensures
        order[n] < start + wanted,
{
    let x = order[n];
    if x >= start + wanted {
        let before = order.take(n);
        assert forall|k: int| start <= k < start + wanted implies before.contains(
            #[trigger] index(k),
        ) by {
            assert(order.contains(index(k)));
            let w = choose|w: int| 0 <= w < order.len() && order[w] == index(k);
            assert(ranks.subrange(start, end)[k - start] <= ranks.subrange(start, end)[x - start]);
            assert(comes_before(ranks, index(k), x));
            if w > n {
                assert(comes_before(ranks, order[n], order[w]));
            }
            assert(w < n);
            assert(before[w] == index(k));
        }
        lemma_holds_as_many(before, start, wanted);
    }
}

proof fn lemma_same_first(
    screens: Seq<i64>,
    audio: Seq<i64>,
    wanted: int,
    order: Seq<usize>,
    fetched_order: Seq<usize>,
    n: int,
)
    requires
        rising(screens),
        rising(audio),
        screens.len() + audio.len() <= usize::MAX,
        0 <= n <= wanted,
        n <= order.len(),
        ordered(screens + audio, 0, (screens + audio).len() as int, order),
        ordered(
            at_most(screens, wanted) + at_most(audio, wanted),
            0,
            (at_most(screens, wanted) + at_most(audio, wanted)).len() as int,
            fetched_order,
        ),
    ensures
        n <= fetched_order.len(),
        forall|i: int|
            0 <= i < n ==> #[trigger] order[i] == among_all(
                fetched_order[i],
                at_most(screens, wanted).len(),
                screens.len(),
            ),
    decreases n,
{
    let ranks = screens + audio;
    let s = at_most(screens, wanted);
    let a = at_most(audio, wanted);
    let fetched = s + a;
    if n > 0 {
        lemma_same_first(screens, audio, wanted, order, fetched_order, n - 1);
        let p = n - 1;
        let x = order[p];
        // The next result is among those that were fetched.
        if x < screens.len() {
            assert(ranks.subrange(0, screens.len() as int) =~= screens);
            lemma_the_first_are_fetched(ranks, order, 0, screens.len() as int, wanted, p);
        } else {
            assert(ranks.subrange(screens.len() as int, ranks.len() as int) =~= audio);
            lemma_the_first_are_fetched(
                ranks,
                order,
                screens.len() as int,
                ranks.len() as int,
                wanted,
                p,
            );
        }
        let fx: int = if x < screens.len() {
            x as int
        } else {
            x - screens.len() + s.len()
        };
        assert(0 <= fx < fetched.len());
        assert(among_all(index(fx), s.len(), screens.len()) == x);
        assert(fetched_order.contains(index(fx)));
        let w = choose|w: int| 0 <= w < fetched_order.len() && fetched_order[w] == index(fx);
        // It does not come earlier among them, for what does is taken.
        if w < p {
            assert(order[w] == x);
            assert(comes_before(ranks, order[w], order[p]));
        }
        let y = fetched_order[p];
        let ay = index(among_all(y, s.len(), screens.len()));
        assert(fetched[y as int] == ranks[ay as int]);
        assert(fetched[fx] == ranks[x as int]);
        // Nor later, for what would come before it there would come before it here.
        if w > p {
            assert(comes_before(fetched, fetched_order[p], fetched_order[w]));
            assert(comes_before(ranks, ay, x));
            assert(order.contains(ay));
            let v = choose|v: int| 0 <= v < order.len() && order[v] == ay;
            if v > p {
                assert(comes_before(ranks, order[p], order[v]));
            }
            assert(v < p);
            assert(order[v] == among_all(fetched_order[v], s.len(), screens.len()));
            assert(fetched_order[v] == y);
            assert(comes_before(fetched, fetched_order[v], fetched_order[p]));
        }
        assert(w == p);
    }
}

/// A page needs no more rows than each query asks for: with the best `limit + offset` rows of
/// each source, it holds the same results as with all of them.
pub proof fn a_page_needs_no_more_rows(
    screens: Seq<i64>,
    audio: Seq<i64>,
    limit: nat,
    offset: nat,
    order: Seq<usize>,
    fetched_order: Seq<usize>,
)
    requires
        rising(screens),
        rising(audio),
        screens.len() + audio.len() <= usize::MAX,
        ordered(screens + audio, 0, (screens + audio).len() as int, order),
        ordered(
            at_most(screens, (limit + offset) as int) + at_most(audio, (limit + offset) as int),
            0,
            (at_most(screens, (limit + offset) as int) + at_most(audio, (limit + offset) as int)).len()
                as int,
            fetched_order,
        ),
    ensures
        page(order, offset, limit).len() == page(fetched_order, offset, limit).len(),
        forall|i: int|
            0 <= i < page(order, offset, limit).len() ==> #[trigger] page(order, offset, limit)[i]
                == among_all(
                page(fetched_order, offset, limit)[i],
                at_most(screens, (limit + offset) as int).len(),
                screens.len(),
            ),
{
    let wanted = (limit + offset) as int;
    let n = if wanted < order.len() {
        wanted
    } else {
        order.len() as int
    };
    lemma_same_first(screens, audio, wanted, order, fetched_order, n);
    assert(fetched_order.len() <= order.len());
    let p = page(order, offset, limit);
    let q = page(fetched_order, offset, limit);
    assert(p.len() == q.len());
    assert forall|i: int| 0 <= i < p.len() implies #[trigger] p[i] == among_all(
        q[i],
        at_most(screens, wanted).len(),
        screens.len(),
    ) by {
        assert(p[i] == order[offset + i]);
        assert(q[i] == fetched_order[offset + i]);
    }
}

/// Why a query of the index failed.
#[derive(Debug, Clone, PartialEq, Eq)]
pub enum QueryFailure {
    /// It could not be prepared, or a row of its answer could not be read.
    Database(String),
    /// It could not be run; `generic` says whether with SQLite's generic error code.
    Match { generic: bool, words: String },
}

impl QueryFailure {
    /// Whether the failure is reported as this error.
    pub open spec fn reported_as(self, error: StorageError) -> bool {
        match self {
            QueryFailure::Database(words) => error == StorageError::Database(words),
            QueryFailure::Match { generic, words } => if generic {
                error.is_other("invalid search query syntax"@)
            } else {
                error == StorageError::Database(words)
            },
        }
    }

    /// The error that the failure is reported as.
    pub fn report(self) -> (r: StorageError)
        ensures
            self.reported_as(r),
    {
        match self {
            QueryFailure::Database(words) => StorageError::Database(words),
            QueryFailure::Match { generic, words } => map_fts5_error(generic, words),
        }
    }
}

/// A row of an answer, with the key that orders it as its relevance score does.
#[derive(Debug, Clone, Copy, PartialEq, Eq)]
pub struct Hit<R> {
    pub rank: i64,
    pub row: R,
}

/// The keys of the hits.
pub open spec fn ranks_of<R>(hits: Seq<Hit<R>>) -> Seq<i64> {
    hits.map(|i: int, hit: Hit<R>| hit.rank)
}

/// The rows at these positions.
pub open spec fn rows_at<R>(hits: Seq<Hit<R>>, positions: Seq<usize>) -> Seq<R> {
    positions.map(|i: int, position: usize| hits[position as int].row)
}

/// Whether a source can give this answer, and lead from one state of the index to the other by
/// it. One that is not asked gives nothing and leaves the index alone.
pub open spec fn answered<R, W, F: Fn(W, &str, i64) -> (W, Result<Vec<Hit<R>>, QueryFailure>)>(
    source: F,
    asked: bool,
    query: Seq<char>,
    sub_limit: int,
    before: W,
    after: W,
    answer: Result<Vec<Hit<R>>, QueryFailure>,
) -> bool {
    if asked {
        exists|expression: &str, limit: i64|
            {
                &&& expression@ == match_expression(words(query, Separator::WhiteSpace))
                &&& limit == sub_limit
                &&& #[trigger] call_ensures(source, (before, expression, limit), (after, answer))
            }
    } else {
        after == before && answer is Ok && answer->Ok_0@.len() == 0
    }
}

/// Whether `r` is the page of these hits.
pub open spec fn is_page_of<R>(r: Seq<R>, hits: Seq<Hit<R>>, limit: nat, offset: nat) -> bool {
    exists|order: Seq<usize>|
        {
            &&& #[trigger] ordered(ranks_of(hits), 0, hits.len() as int, order)
            &&& r == rows_at(hits, page(order, offset, limit))
        }
}

/// Whether `r` is what comes of the answers of the two sources.
pub open spec fn search_outcome<R>(
    screens: Result<Vec<Hit<R>>, QueryFailure>,
    audio: Result<Vec<Hit<R>>, QueryFailure>,
    limit: nat,
    offset: nat,
    r: Result<Vec<R>, StorageError>,
) -> bool {
    if screens is Err {
        r is Err && screens->Err_0.reported_as(r->Err_0)
    } else if audio is Err {
        r is Err && audio->Err_0.reported_as(r->Err_0)
    } else {
        r is Ok && is_page_of(r->Ok_0@, screens->Ok_0@ + audio->Ok_0@, limit, offset)
    }
}

/// The page of these hits, taken out of them.
pub fn take_page<R>(hits: Vec<Hit<R>>, limit: usize, offset: usize) -> (r: Vec<R>)
    ensures
        is_page_of(r@, hits@, limit as nat, offset as nat),
{
    let ghost all = hits@;
    let mut ranks: Vec<i64> = Vec::new();
    let mut rows: Vec<Option<R>> = Vec::new();
    for hit in iter: hits
        invariant
            iter.seq() == all,
            ranks@ =~= ranks_of(all).take(iter.index() as int),
            rows@.len() == iter.index(),
            forall|k: int| 0 <= k < rows@.len() ==> #[trigger] rows@[k] == Some(all[k].row),
    {
        ranks.push(hit.rank);
        rows.push(Some(hit.row));
    }
    assert(ranks@ =~= ranks_of(all));
    let positions = merge_results(ranks.as_slice(), limit, offset);
    let ghost order = choose|order: Seq<usize>| #[trigger]
        ordered(ranks@, 0, ranks@.len() as int, order) && positions@ == page(
            order,
            offset as nat,
            limit as nat,
        );
    let mut out: Vec<R> = Vec::new();
    let mut i: usize = 0;
    while i < positions.len()
        invariant
            i <= positions@.len(),
            out@.len() == i,
            rows@.len() == all.len(),
            forall|k: int| 0 <= k < positions@.len() ==> #[trigger] positions@[k] < all.len(),
            forall|k: int, l: int|
                0 <= k < l < positions@.len() ==> #[trigger] positions@[k]
                    != #[trigger] positions@[l],
            forall|k: int|
                i <= k < positions@.len() ==> rows@[#[trigger] positions@[k] as int] == Some(
                    all[positions@[k] as int].row,
                ),
            forall|k: int|
                0 <= k < i ==> #[trigger] out@[k] == all[positions@[k] as int].row,
        decreases positions@.len() - i,
    {
        let ghost before = rows@;
        let position: usize = positions[i];
        let mut slot: Option<R> = None;
        std::mem::swap(&mut rows[position], &mut slot);
        assert(rows@ =~= before.update(position as int, None));
        if let Some(row) = slot {
            out.push(row);
        }
        i += 1;
    }
    assert(out@ =~= rows_at(all, positions@));
    out
}

/// Run a full-text search.
///
/// `screens` and `audio` run the query on their index, in this order: they are handed the MATCH
/// expression and the largest number of rows that is of use. Each takes the state of the index
/// and gives back what it has left, and the last one comes with the result. The first failure
/// ends the search. Nothing is asked if the query holds nothing that can be searched for.
pub fn search<
    R,
    W,
    S: Fn(W, &str, i64) -> (W, Result<Vec<Hit<R>>, QueryFailure>),
    A: Fn(W, &str, i64) -> (W, Result<Vec<Hit<R>>, QueryFailure>),
>(
    query: &str,
    filter: SearchFilter,
    limit: usize,
    offset: usize,
    index: W,
    screens: S,
    audio: A,
) -> (r: (W, Result<Vec<R>, StorageError>))
    requires
        limit + offset <= usize::MAX,
        forall|index: W, expression: &str, n: i64|
            call_requires(screens, (index, expression, n)),
        forall|index: W, expression: &str, n: i64| call_requires(audio, (index, expression, n)),
    ensures
        !searchable(query@) ==> r.0 == index && r.1 is Ok && r.1->Ok_0@.len() == 0,
        searchable(query@) ==> exists|
            between: W,
            found: Result<Vec<Hit<R>>, QueryFailure>,
            heard: Result<Vec<Hit<R>>, QueryFailure>,
        |
            {
                &&& #[trigger] answered(
                    screens,
                    asks_screens(filter),
                    query@,
                    row_limit(limit, offset),
                    index,
                    between,
                    found,
                )
                &&& if found is Ok {
                    answered(
                        audio,
                        asks_audio(filter),
                        query@,
                        row_limit(limit, offset),
                        between,
                        r.0,
                        heard,
                    )
                } else {
                    r.0 == between
                }
                &&& #[trigger] search_outcome(found, heard, limit as nat, offset as nat, r.1)
            },
{
    let plan = match plan_search(query, filter, limit, offset) {
        Some(plan) => plan,
        None => {
            return (index, Ok(Vec::new()));
        },
    };
    let ghost before = index;
    let (between, found) = if plan.screens {
        screens(index, plan.match_query.as_str(), plan.sub_limit)
    } else {
        (index, Ok(Vec::new()))
    };
    assert(answered(
        screens,
        asks_screens(filter),
        query@,
        row_limit(limit, offset),
        before,
        between,
        found,
    ));
    let ghost first = found;
    let mut hits = match found {
        Ok(hits) => hits,
        Err(failure) => {
            let error = failure.report();
            assert(search_outcome(first, first, limit as nat, offset as nat, Err(error)));
            return (between, Err(error));
        },
    };
    let ghost middle = between;
    let (after, heard) = if plan.audio {
        audio(between, plan.match_query.as_str(), plan.sub_limit)
    } else {
        (between, Ok(Vec::new()))
    };
    assert(answered(
        audio,
        asks_audio(filter),
        query@,
        row_limit(limit, offset),
        middle,
        after,
        heard,
    ));
    let ghost second = heard;
    let r = match heard {
        Err(failure) => Err(failure.report()),
        Ok(segments) => {
            let mut segments = segments;
            hits.append(&mut segments);
            Ok(take_page(hits, limit, offset))
        },
    };
    assert(search_outcome(first, second, limit as nat, offset as nat, r));
    (after, r)
}

/// Map a failed MATCH query to an error that cannot leak what was searched for.
///
/// FTS5 MATCH parse failures all surface as SQLite's generic error code, and their messages
/// can echo the user's query. Any such error is replaced by a fixed message. Genuine
/// infrastructure failures have other codes and pass through.
pub fn map_fts5_error(generic: bool, words: String) -> (r: StorageError)
    ensures
        generic ==> r.is_other("invalid search query syntax"@),
        !generic ==> r == StorageError::Database(words),
{
    if generic {
        StorageError::Other(owned("invalid search query syntax"))
    } else {
        StorageError::Database(words)
    }
}

/// Quotes are doubled one by one, and every other character stays.
pub proof fn only_quotes_are_doubled(a: Seq<char>, b: Seq<char>, c: char)
    ensures
        doubled(a + b) == doubled(a) + doubled(b),
        doubled(Seq::empty()).len() == 0,
        c == '"' ==> doubled(seq![c]) == seq!['"', '"'],
        c != '"' ==> doubled(seq![c]) == seq![c],
    decreases a.len(),
{
    let empty = Seq::<char>::empty();
    assert(seq![c].skip(1) =~= empty);
    assert(doubled(empty) =~= empty);
    assert(seq!['"', '"'] + empty =~= seq!['"', '"']);
    assert(seq![c] + empty =~= seq![c]);
    if a.len() == 0 {
        assert(a + b =~= b);
        assert(doubled(a) + doubled(b) =~= doubled(b));
    } else {
        only_quotes_are_doubled(a.skip(1), b, c);
        assert((a + b).skip(1) =~= a.skip(1) + b);
        assert(doubled(a + b) =~= doubled(a) + doubled(b));
    }
}

/// Every token is required: between any two phrases stands one space, which is the AND of FTS5,
/// however many there are. A phrase is a token in quotes, with the star of a prefix behind it.
pub proof fn every_token_is_required(a: Seq<Seq<char>>, b: Seq<Seq<char>>, token: Seq<char>)
    ensures
        match_expression(Seq::empty()).len() == 0,
        match_expression(seq![token]) == seq!['"'] + doubled(token) + seq!['"'] + seq!['*'],
        a.len() > 0 && b.len() > 0 ==> match_expression(a + b) == match_expression(a) + seq![' ']
            + match_expression(b),
    decreases b.len(),
{
    assert(seq!['"'] + doubled(token) + seq!['"'] + seq!['*'] =~= quoted(token));
    if a.len() > 0 && b.len() > 0 {
        if b.len() == 1 {
            assert((a + b).drop_last() =~= a);
            assert((a + b).last() == b[0]);
        } else {
            every_token_is_required(a, b.drop_last(), token);
            assert((a + b).drop_last() =~= a + b.drop_last());
            let x = match_expression(a);
            let y = match_expression(b.drop_last());
            let z = quoted(b.last());
            assert((x + seq![' '] + y) + seq![' '] + z =~= x + seq![' '] + (y + seq![' '] + z));
        }
    }
}

/// A query asks for all its words: one of two parts that white space separates asks for what the
/// first asks for and for what the second does.
pub proof fn a_query_asks_for_all_its_words(
    a: &str,
    c: char,
    b: &str,
    all: &str,
    first: String,
    second: String,
    whole: String,
)
    requires
        crate::text::white_space(c),
        all@ == a@ + seq![c] + b@,
        call_ensures(sanitize_fts5_query, (a,), first),
        call_ensures(sanitize_fts5_query, (b,), second),
        call_ensures(sanitize_fts5_query, (all,), whole),
    ensures
        words(a@, Separator::WhiteSpace).len() > 0 && words(b@, Separator::WhiteSpace).len() > 0
            ==> whole@ == first@ + seq![' '] + second@,
        words(a@, Separator::WhiteSpace).len() == 0 ==> whole@ == second@,
        words(b@, Separator::WhiteSpace).len() == 0 ==> whole@ == first@,
{
    crate::text::white_space_is_that_of_unicode(c);
    crate::text::separators_part_the_words(a@, c, b@, Separator::WhiteSpace);
    let x = words(a@, Separator::WhiteSpace);
    let y = words(b@, Separator::WhiteSpace);
    every_token_is_required(x, y, Seq::empty());
    assert(x.len() == 0 ==> x + y =~= y);
    assert(y.len() == 0 ==> x + y =~= x);
}

/// A query of one word asks for that word as a prefix, in quotes.
pub proof fn a_word_is_asked_for_as_a_prefix(word: &str, r: String)
    requires
        word@.len() > 0,
        forall|i: int|
            0 <= i < word@.len() ==> !crate::text::white_space(#[trigger] word@[i]),
        call_ensures(sanitize_fts5_query, (word,), r),
    ensures
        r@ == seq!['"'] + doubled(word@) + seq!['"'] + seq!['*'],
{
    crate::text::separators_part_the_words(word@, ' ', word@, Separator::WhiteSpace);
    assert forall|i: int| 0 <= i < word@.len() implies !Separator::WhiteSpace.separates(
        #[trigger] word@[i],
    ) by {
        crate::text::white_space_is_that_of_unicode(word@[i]);
    }
    every_token_is_required(Seq::empty(), Seq::empty(), word@);
}

/// A search is planned if and only if the query holds a letter or a number. It asks each source
/// that the filter does not leave out, for as many rows as the page and what comes before it.
pub proof fn a_search_asks_the_sources_of_its_filter(
    query: &str,
    filter: SearchFilter,
    limit: usize,
    offset: usize,
    found: bool,
    r: Option<SearchPlan>,
)
    requires
        limit + offset <= usize::MAX,
        call_ensures(is_searchable, (query,), found),
        call_ensures(plan_search, (query, filter, limit, offset), r),
    ensures
        found <==> exists|i: int| 0 <= i < query@.len() && alphanumeric(#[trigger] query@[i]),
        r is Some <==> found,
        r is Some ==> {
            &&& r->0.screens <==> filter is All || filter is ScreenOnly
            &&& r->0.audio <==> filter is All || filter is AudioOnly
            &&& limit + offset <= 0x7fff_ffff_ffff_ffff ==> r->0.sub_limit == limit + offset
            &&& limit + offset > 0x7fff_ffff_ffff_ffff ==> r->0.sub_limit < 0
            &&& r->0.match_query@ == match_expression(words(query@, Separator::WhiteSpace))
        },
{
}

/// A page holds what follows the offset, up to the limit, in its order.
pub proof fn a_page_follows_its_offset<T>(all: Seq<T>, offset: nat, limit: nat)
    ensures
        offset >= all.len() ==> page(all, offset, limit).len() == 0,
        offset < all.len() && all.len() - offset <= limit ==> page(all, offset, limit).len()
            == all.len() - offset,
        offset < all.len() && all.len() - offset > limit ==> page(all, offset, limit).len()
            == limit,
        forall|i: int|
            0 <= i < page(all, offset, limit).len() ==> #[trigger] page(all, offset, limit)[i]
                == all[offset + i],
{
}

/// The order of results has every one of them once, a lower rank before a higher one, and those
/// of one rank as they came in.
pub proof fn the_best_rank_comes_first(ranks: &[i64], order: Vec<usize>)
    requires
        call_ensures(rank_order, (ranks,), order),
    ensures
        order@.len() == ranks@.len(),
        forall|i: int| 0 <= i < order@.len() ==> #[trigger] order@[i] < ranks@.len(),
        forall|k: usize| k < ranks@.len() ==> #[trigger] order@.contains(k),
        forall|i: int, j: int|
            0 <= i < j < order@.len() ==> {
                let a = #[trigger] order@[i];
                let b = #[trigger] order@[j];
                ranks@[a as int] < ranks@[b as int] || (ranks@[a as int] == ranks@[b as int] && a
                    < b)
            },
{
    assert forall|k: usize| k < ranks@.len() implies #[trigger] order@.contains(k) by {
        assert(index(k as int) == k);
        assert(order@.contains(index(k as int)));
    }
    assert forall|i: int, j: int| 0 <= i < j < order@.len() implies ({
        let a = #[trigger] order@[i];
        let b = #[trigger] order@[j];
        ranks@[a as int] < ranks@[b as int] || (ranks@[a as int] == ranks@[b as int] && a < b)
    }) by {
        assert(comes_before(ranks@, order@[i], order@[j]));
    }
}

/// The merged results are that order from the offset on, up to the limit.
pub proof fn merged_results_are_a_page_of_the_order(
    ranks: &[i64],
    limit: usize,
    offset: usize,
    order: Vec<usize>,
    r: Vec<usize>,
)
    requires
        call_ensures(rank_order, (ranks,), order),
        call_ensures(merge_results, (ranks, limit, offset), r),
        ranks@.len() <= usize::MAX,
    ensures
        offset >= order@.len() ==> r@.len() == 0,
        offset < order@.len() && order@.len() - offset <= limit ==> r@.len() == order@.len()
            - offset,
        offset < order@.len() && order@.len() - offset > limit ==> r@.len() == limit,
        forall|i: int| 0 <= i < r@.len() ==> #[trigger] r@[i] == order@[offset + i],
{
    let own = choose|own: Seq<usize>| #[trigger]
        ordered(ranks@, 0, ranks@.len() as int, own) && r@ == page(
            own,
            offset as nat,
            limit as nat,
        );
    the_order_is_settled(ranks@, own, order@);
    a_page_follows_its_offset(order@, offset as nat, limit as nat);
}

/// The rows of a page are those of the hits that the order has there.
pub proof fn a_page_has_the_rows_of_its_hits<R>(
    hits: Vec<Hit<R>>,
    limit: usize,
    offset: usize,
    ranks: &[i64],
    order: Vec<usize>,
    r: Vec<R>,
)
    requires
        ranks@.len() == hits@.len(),
        forall|i: int| 0 <= i < hits@.len() ==> #[trigger] ranks@[i] == hits@[i].rank,
        call_ensures(rank_order, (ranks,), order),
        call_ensures(take_page::<R>, (hits, limit, offset), r),
        ranks@.len() <= usize::MAX,
    ensures
        offset >= hits@.len() ==> r@.len() == 0,
        offset < hits@.len() && hits@.len() - offset <= limit ==> r@.len() == hits@.len() - offset,
        offset < hits@.len() && hits@.len() - offset > limit ==> r@.len() == limit,
        forall|i: int|
            0 <= i < r@.len() ==> #[trigger] r@[i] == hits@[order@[offset + i] as int].row,
{
    assert(ranks_of(hits@) =~= ranks@);
    let own = choose|own: Seq<usize>|
        {
            &&& #[trigger] ordered(ranks_of(hits@), 0, hits@.len() as int, own)
            &&& r@ == rows_at(hits@, page(own, offset as nat, limit as nat))
        };
    the_order_is_settled(ranks@, own, order@);
    a_page_follows_its_offset(order@, offset as nat, limit as nat);
}

/// A failure of the index is reported in the words of the database, unless the query itself was
/// at fault: that is reported in fixed words.
pub proof fn a_failed_query_is_reported(failure: QueryFailure, error: StorageError)
    requires
        failure.reported_as(error),
    ensures
        failure matches QueryFailure::Database(words) ==> error == StorageError::Database(words),
        failure matches QueryFailure::Match { generic, words } ==> {
            &&& !generic ==> error == StorageError::Database(words)
            &&& generic ==> error is Other && error->Other_0@ == "invalid search query syntax"@
        },
{
}

/// A search comes out as its answers do: the first failure, or the page of the hits of both
/// sources, screenshots first.
pub proof fn a_search_comes_out_as_its_answers<R>(
    screens: Result<Vec<Hit<R>>, QueryFailure>,
    audio: Result<Vec<Hit<R>>, QueryFailure>,
    limit: nat,
    offset: nat,
    r: Result<Vec<R>, StorageError>,
)
    requires
        search_outcome(screens, audio, limit, offset, r),
    ensures
        screens is Err ==> r is Err && screens->Err_0.reported_as(r->Err_0),
        screens is Ok && audio is Err ==> r is Err && audio->Err_0.reported_as(r->Err_0),
        screens is Ok && audio is Ok ==> r is Ok && is_page_of(
            r->Ok_0@,
            screens->Ok_0@ + audio->Ok_0@,
            limit,
            offset,
        ),
{
}

/// A source that is asked is asked once, with the phrases of the query; one that is not asked
/// gives nothing.
pub proof fn a_source_is_asked_with_the_phrases<
    R,
    W,
    F: Fn(W, &str, i64) -> (W, Result<Vec<Hit<R>>, QueryFailure>),
>(
    source: F,
    asked: bool,
    query: Seq<char>,
    sub_limit: int,
    before: W,
    after: W,
    answer: Result<Vec<Hit<R>>, QueryFailure>,
)
    requires
        answered(source, asked, query, sub_limit, before, after, answer),
    ensures
        !asked ==> after == before && answer is Ok && answer->Ok_0@.len() == 0,
        asked ==> exists|expression: &str, limit: i64|
            {
                &&& expression@ == match_expression(words(query, Separator::WhiteSpace))
                &&& limit == sub_limit
                &&& #[trigger] call_ensures(source, (before, expression, limit), (after, answer))
            },
{
}

/// Both sources are asked for as many rows as the page and what comes before it.
pub proof fn a_source_is_asked_for_enough_rows(limit: usize, offset: usize, filter: SearchFilter)
    ensures
        limit + offset <= 0x7fff_ffff_ffff_ffff ==> row_limit(limit, offset) == limit + offset,
        limit + offset > 0x7fff_ffff_ffff_ffff && limit + offset <= usize::MAX ==> row_limit(
            limit,
            offset,
        ) < 0,
        asks_screens(filter) <==> filter is All || filter is ScreenOnly,
        asks_audio(filter) <==> filter is All || filter is AudioOnly,
{
}

/// A search asks the screenshots first, then the audio segments, and comes out as their answers do;
/// a query without anything to search for asks neither.
pub proof fn a_search_asks_screens_and_then_audio<
    R,
    W,
    S: Fn(W, &str, i64) -> (W, Result<Vec<Hit<R>>, QueryFailure>),
    A: Fn(W, &str, i64) -> (W, Result<Vec<Hit<R>>, QueryFailure>),
>(
    query: &str,
    filter: SearchFilter,
    limit: usize,
    offset: usize,
    index: W,
    screens: S,
    audio: A,
    r: (W, Result<Vec<R>, StorageError>),
)
    requires
        call_ensures(
            search::<R, W, S, A>,
            (query, filter, limit, offset, index, screens, audio),
            r,
        ),
    ensures
        (forall|i: int| 0 <= i < query@.len() ==> !alphanumeric(#[trigger] query@[i])) ==> r.0
            == index && r.1 is Ok && r.1->Ok_0@.len() == 0,
        (exists|i: int| 0 <= i < query@.len() && alphanumeric(#[trigger] query@[i])) ==> exists|
            between: W,
            found: Result<Vec<Hit<R>>, QueryFailure>,
            heard: Result<Vec<Hit<R>>, QueryFailure>,
        |
            {
                &&& #[trigger] answered(
                    screens,
                    asks_screens(filter),
                    query@,
                    row_limit(limit, offset),
                    index,
                    between,
                    found,
                )
                &&& found is Err ==> r.0 == between
                &&& found is Ok ==> answered(
                    audio,
                    asks_audio(filter),
                    query@,
                    row_limit(limit, offset),
                    between,
                    r.0,
                    heard,
                )
                &&& #[trigger] search_outcome(found, heard, limit as nat, offset as nat, r.1)
            },
{
}

/// A failed query never shows what was searched for, and any other failure is passed on.
pub proof fn a_failed_match_is_not_quoted(
    generic: bool,
    words: String,
    r: StorageError,
    failure: QueryFailure,
    reported: StorageError,
)
    requires
        call_ensures(map_fts5_error, (generic, words), r),
        call_ensures(QueryFailure::report, (failure,), reported),
    ensures
        generic ==> r is Other && r->Other_0@ == "invalid search query syntax"@,
        !generic ==> r == StorageError::Database(words),
        failure.reported_as(reported),
{
}

} // verus!
