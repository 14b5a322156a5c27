use vstd::prelude::*;
use shingles::AsShingles;
use crate::lang::{Lang, LANG_COUNT};
use crate::model::{Grams, Model};
use crate::table::{grams_ok, pairs_ok, PENALTY};

verus! {

/// Highest gram order scanned when a word is not found whole.
pub const MAX_NGRAM: usize = 6;

/// A bound that per-language scratch sums stay under.
pub const SUM_CAP: u128 = 0x10_0000_0000_0000_0000_0000_0000;

/// Whether language `i` appears in a list of pairs.
pub open spec fn listed(e: Seq<(Lang, u64)>, i: nat) -> bool
    decreases e.len(),
{
    if e.len() == 0 {
        false
    } else {
        listed(e.drop_last(), i) || e.last().0.id() == i
    }
}

/// Sum of the scores a list of pairs gives language `i`.
pub open spec fn entry_sum(e: Seq<(Lang, u64)>, i: nat) -> nat
    decreases e.len(),
{
    if e.len() == 0 {
        0
    } else {
        entry_sum(e.drop_last(), i) + if e.last().0.id() == i {
            e.last().1 as nat
        } else {
            0
        }
    }
}

/// What one gram found in a table adds to language `i`: its listed score, or
/// the penalty when the gram does not list the language.
pub open spec fn gram_points(e: Seq<(Lang, u64)>, i: nat) -> nat {
    entry_sum(e, i) + if listed(e, i) {
        0
    } else {
        PENALTY as nat
    }
}

/// A word with one space on each side.
pub open spec fn padded(w: Seq<char>) -> Seq<char> {
    seq![' '] + w + seq![' ']
}

/// Number of windows of `t` characters in a text of `n` characters.
pub open spec fn window_count(n: nat, t: nat) -> nat {
    if n >= t {
        (n - t + 1) as nat
    } else {
        0
    }
}

/// The window of `t` characters starting at `j`.
pub open spec fn window(p: Seq<char>, t: nat, j: nat) -> Seq<char> {
    p.subrange(j as int, (j + t) as int)
}

/// Sum over the first `j` windows of order `t` that the table lists of what
/// each adds to language `i`.
pub open spec fn hit_sum(m: Grams, p: Seq<char>, t: nat, j: nat, i: nat) -> nat
    decreases j,
{
    if j == 0 {
        0
    } else {
        let g = window(p, t, (j - 1) as nat);
        hit_sum(m, p, t, (j - 1) as nat, i) + if m.contains_key(g) {
            gram_points(m[g], i)
        } else {
            0
        }
    }
}

/// Number of the first `j` windows of order `t` that the table lists.
pub open spec fn hit_count(m: Grams, p: Seq<char>, t: nat, j: nat) -> nat
    decreases j,
{
    if j == 0 {
        0
    } else {
        hit_count(m, p, t, (j - 1) as nat) + if m.contains_key(window(p, t, (j - 1) as nat)) {
            1nat
        } else {
            0nat
        }
    }
}

/// Score of language `i` for a padded word from orders `t` down to 1: the
/// first order with any window in its table gives the mean over those windows.
/// Zero when no order has one.
pub open spec fn order_points(tables: Seq<Grams>, p: Seq<char>, t: nat, i: nat) -> nat
    decreases t,
{
    if t == 0 {
        0
    } else {
        let n = window_count(p.len(), t);
        let c = hit_count(tables[t as int], p, t, n);
        if c > 0 {
            hit_sum(tables[t as int], p, t, n, i) / c
        } else {
            order_points(tables, p, (t - 1) as nat, i)
        }
    }
}

/// Score of language `i` for one word: from the word table when it lists the
/// word, else from its character grams.
pub open spec fn word_points(tables: Seq<Grams>, w: Seq<char>, i: nat) -> nat {
    if tables[0].contains_key(w) {
        gram_points(tables[0][w], i)
    } else {
        order_points(tables, padded(w), MAX_NGRAM as nat, i)
    }
}

/// Sum of the scores of language `i` over the first `n` words.
pub open spec fn total_points(tables: Seq<Grams>, ws: Seq<Seq<char>>, n: nat, i: nat) -> nat
    decreases n,
{
    if n == 0 {
        0
    } else {
        total_points(tables, ws, (n - 1) as nat, i) + word_points(tables, ws[n - 1], i)
    }
}

/// `listed` holds exactly when some pair names the language.
pub proof fn lemma_listed(e: Seq<(Lang, u64)>, i: nat)
    ensures
        listed(e, i) <==> exists|j: int| 0 <= j < e.len() && (#[trigger] e[j]).0.id() == i,
    decreases e.len(),
{
    if e.len() > 0 {
        lemma_listed(e.drop_last(), i);
        if listed(e.drop_last(), i) {
            let j = choose|j: int| 0 <= j < e.drop_last().len() && (#[trigger] e.drop_last()[j]).0.id() == i;
            assert(e[j] == e.drop_last()[j]);
        }
        if exists|j: int| 0 <= j < e.len() && (#[trigger] e[j]).0.id() == i {
            let j = choose|j: int| 0 <= j < e.len() && (#[trigger] e[j]).0.id() == i;
            if j < e.len() - 1 {
                assert(e.drop_last()[j] == e[j]);
            }
        }
    }
}

proof fn lemma_entry_sum_absent(e: Seq<(Lang, u64)>, i: nat)
    requires
        !listed(e, i),
    ensures
        entry_sum(e, i) == 0,
    decreases e.len(),
{
    if e.len() > 0 {
        lemma_entry_sum_absent(e.drop_last(), i);
    }
}

/// With distinct languages and bounded scores, a gram adds at most the
/// penalty to any language.
pub proof fn lemma_gram_points_bound(e: Seq<(Lang, u64)>, i: nat)
    requires
        pairs_ok(e),
    ensures
        entry_sum(e, i) <= PENALTY,
        gram_points(e, i) <= PENALTY,
    decreases e.len(),
{
    if e.len() > 0 {
        let d = e.drop_last();
        assert(pairs_ok(d)) by {
            assert forall|j: int, k: int| 0 <= j < k < d.len() implies d[j].0 != d[k].0 by {
                assert(d[j] == e[j] && d[k] == e[k]);
            }
            assert forall|j: int| 0 <= j < d.len() implies d[j].1 <= PENALTY by {
                assert(d[j] == e[j]);
            }
        }
        if e.last().0.id() == i {
            lemma_listed(d, i);
            if listed(d, i) {
                let j = choose|j: int| 0 <= j < d.len() && (#[trigger] d[j]).0.id() == i;
                assert(d[j] == e[j]);
                e[j].0.lemma_id();
                e.last().0.lemma_id();
                assert(e[j].0 == e[e.len() - 1].0);
            }
            lemma_entry_sum_absent(d, i);
        } else {
            lemma_gram_points_bound(d, i);
        }
    }
    if !listed(e, i) {
        lemma_entry_sum_absent(e, i);
    }
}

proof fn lemma_hit_sum_bound(m: Grams, p: Seq<char>, t: nat, j: nat, i: nat)
    requires
        grams_ok(m),
    ensures
        hit_sum(m, p, t, j, i) <= hit_count(m, p, t, j) * PENALTY,
    decreases j,
{
    if j > 0 {
        lemma_hit_sum_bound(m, p, t, (j - 1) as nat, i);
        let g = window(p, t, (j - 1) as nat);
        if m.contains_key(g) {
            lemma_gram_points_bound(m[g], i);
        }
        let c = hit_count(m, p, t, (j - 1) as nat);
        assert((c + 1) * PENALTY == c * PENALTY + PENALTY) by (nonlinear_arith);
    }
}

proof fn lemma_hit_count_le(m: Grams, p: Seq<char>, t: nat, j: nat)
    ensures
        hit_count(m, p, t, j) <= j,
    decreases j,
{
    if j > 0 {
        lemma_hit_count_le(m, p, t, (j - 1) as nat);
    }
}

pub proof fn lemma_mean_bound(x: nat, c: nat)
    requires
        c > 0,
        x <= c * PENALTY,
    ensures
        x / c <= PENALTY,
{
    assert(x / c <= PENALTY) by (nonlinear_arith)
        requires
            c > 0,
            x <= c * PENALTY,
    ;
}

proof fn lemma_order_points_bound(tables: Seq<Grams>, p: Seq<char>, t: nat, i: nat)
    requires
        t < tables.len(),
        forall|o: int| 0 <= o < tables.len() ==> grams_ok(#[trigger] tables[o]),
    ensures
        order_points(tables, p, t, i) <= PENALTY,
    decreases t,
{
    if t > 0 {
        let n = window_count(p.len(), t);
        let c = hit_count(tables[t as int], p, t, n);
        if c > 0 {
            lemma_hit_sum_bound(tables[t as int], p, t, n, i);
            lemma_mean_bound(hit_sum(tables[t as int], p, t, n, i), c);
        } else {
            lemma_order_points_bound(tables, p, (t - 1) as nat, i);
        }
    }
}

/// A word adds at most the penalty to any language.
pub proof fn lemma_word_points_bound(tables: Seq<Grams>, w: Seq<char>, i: nat)
    requires
        tables.len() > MAX_NGRAM,
        forall|o: int| 0 <= o < tables.len() ==> grams_ok(#[trigger] tables[o]),
    ensures
        word_points(tables, w, i) <= PENALTY,
{
    if tables[0].contains_key(w) {
        assert(grams_ok(tables[0]));
        lemma_gram_points_bound(tables[0][w], i);
    } else {
        lemma_order_points_bound(tables, padded(w), MAX_NGRAM as nat, i);
    }
}

/// The sum over `n` words is at most `n` penalties.
pub proof fn lemma_total_points_bound(tables: Seq<Grams>, ws: Seq<Seq<char>>, n: nat, i: nat)
    requires
        tables.len() > MAX_NGRAM,
        forall|o: int| 0 <= o < tables.len() ==> grams_ok(#[trigger] tables[o]),
    ensures
        total_points(tables, ws, n, i) <= n * PENALTY,
    decreases n,
{
    if n > 0 {
        lemma_total_points_bound(tables, ws, (n - 1) as nat, i);
        lemma_word_points_bound(tables, ws[n - 1], i);
        assert(n * PENALTY == (n - 1) * PENALTY + PENALTY) by (nonlinear_arith)
            requires
                n > 0,
        ;
    }
}

/// Relies on shingles's `as_shingles` on a slice: every window of `t`
/// consecutive items, from the first position to the last.
#[verifier::external_body]
fn shingles_of(s: &Vec<char>, t: usize) -> (r: Vec<Vec<char>>)
    requires
        t >= 1,
    ensures
        r@.len() == window_count(s@.len(), t as nat),
        forall|j: int| 0 <= j < r@.len() ==> (#[trigger] r@[j])@ == s@.subrange(j, j + t),
{
    s[..].as_shingles(t).map(|w| w.to_vec()).collect()
}

/// Adds to each language what the gram with pairs `e` gives it: its score
/// where listed, else the penalty. `scored` is scratch.
pub fn score_entry(e: &Vec<(Lang, u64)>, ws: &mut Vec<u128>, scored: &mut Vec<bool>)
    requires
        old(ws).len() == LANG_COUNT,
        old(scored).len() == LANG_COUNT,
        pairs_ok(e@),
        forall|i: int| 0 <= i < LANG_COUNT ==> old(ws)[i] <= SUM_CAP,
    ensures
        final(ws).len() == LANG_COUNT,
        final(scored).len() == LANG_COUNT,
        forall|i: int|
            0 <= i < LANG_COUNT ==> final(ws)[i] == old(ws)[i] + gram_points(e@, i as nat),
        forall|i: int| 0 <= i < LANG_COUNT ==> final(scored)[i] == listed(e@, i as nat),
{
    let mut i: usize = 0;
    while i < LANG_COUNT
        invariant
            i <= LANG_COUNT,
            scored.len() == LANG_COUNT,
            forall|k: int| 0 <= k < i ==> !scored[k],
        decreases LANG_COUNT - i,
    {
        scored.set(i, false);
        i = i + 1;
    }
    let mut j: usize = 0;
    while j < e.len()
        invariant
            j <= e.len(),
            ws.len() == LANG_COUNT,
            scored.len() == LANG_COUNT,
            pairs_ok(e@),
            forall|k: int| 0 <= k < LANG_COUNT ==> old(ws)[k] <= SUM_CAP,
            forall|k: int|
                0 <= k < LANG_COUNT ==> ws[k] == old(ws)[k] + entry_sum(e@.take(j as int), k as nat),
            forall|k: int| 0 <= k < LANG_COUNT ==> scored[k] == listed(e@.take(j as int), k as nat),
        decreases e.len() - j,
    {
        let (lang, p) = e[j];
        let li = lang.index();
        proof {
            lang.lemma_id();
            assert(e@.take(j + 1).drop_last() =~= e@.take(j as int));
            assert(e@.take(j + 1).last() == e@[j as int]);
            let pre = e@.take(j + 1);
            assert(pairs_ok(pre)) by {
                assert forall|a: int, b: int| 0 <= a < b < pre.len() implies #[trigger] pre[a].0
                    != #[trigger] pre[b].0 by {
                    assert(pre[a] == e@[a] && pre[b] == e@[b]);
                }
                assert forall|a: int| 0 <= a < pre.len() implies #[trigger] pre[a].1 <= PENALTY by {
                    assert(pre[a] == e@[a]);
                }
            }
            lemma_gram_points_bound(e@.take(j + 1), li as nat);
        }
        let cur = ws[li];
        ws.set(li, cur + p as u128);
        scored.set(li, true);
        j = j + 1;
    }
    assert(e@.take(e.len() as int) =~= e@);
    let mut i: usize = 0;
    while i < LANG_COUNT
        invariant
            i <= LANG_COUNT,
            ws.len() == LANG_COUNT,
            scored.len() == LANG_COUNT,
            pairs_ok(e@),
            forall|k: int| 0 <= k < LANG_COUNT ==> old(ws)[k] <= SUM_CAP,
            forall|k: int|
                0 <= k < i ==> ws[k] == old(ws)[k] + gram_points(e@, k as nat),
            forall|k: int|
                i <= k < LANG_COUNT ==> ws[k] == old(ws)[k] + entry_sum(e@, k as nat),
            forall|k: int| 0 <= k < LANG_COUNT ==> scored[k] == listed(e@, k as nat),
        decreases LANG_COUNT - i,
    {
        proof {
            lemma_gram_points_bound(e@, i as nat);
        }
        let miss: u128 = if scored[i] { 0 } else { 1 };
        let cur = ws[i];
        ws.set(i, cur + PENALTY as u128 * miss);
        i = i + 1;
    }
}

proof fn lemma_sum_cap(c: nat, j: nat)
    requires
        c <= j,
        j <= usize::MAX,
    ensures
        c * PENALTY <= SUM_CAP,
{
    assert(c * PENALTY <= SUM_CAP) by (nonlinear_arith)
        requires
            c <= j,
            j <= usize::MAX,
    ;
}

/// Puts into `ws` the score of every language for one word, as `word_points`
/// gives it. `scored` is scratch.
pub fn score_word(model: &Model, word: &Vec<char>, ws: &mut Vec<u128>, scored: &mut Vec<bool>)
    requires
        model.wf(),
        old(ws).len() == LANG_COUNT,
        old(scored).len() == LANG_COUNT,
    ensures
        final(ws).len() == LANG_COUNT,
        final(scored).len() == LANG_COUNT,
        forall|i: int|
            0 <= i < LANG_COUNT ==> final(ws)[i] == word_points(model.tables(), word@, i as nat),
{
    let ghost tables = model.tables();
    let mut i: usize = 0;
    while i < LANG_COUNT
        invariant
            i <= LANG_COUNT,
            ws.len() == LANG_COUNT,
            forall|k: int| 0 <= k < i ==> ws[k] == 0,
        decreases LANG_COUNT - i,
    {
        ws.set(i, 0);
        i = i + 1;
    }
    assert(model.inner[0].wf());
    match model.inner[0].lookup(word) {
        Some(e) => {
            assert(tables[0] == model.inner[0].grams());
            score_entry(e, ws, scored);
            return;
        },
        None => {},
    }
    let mut p: Vec<char> = Vec::new();
    p.push(' ');
    let mut k: usize = 0;
    while k < word.len()
        invariant
            k <= word.len(),
            p@ == seq![' '] + word@.take(k as int),
        decreases word.len() - k,
    {
        p.push(word[k]);
        k = k + 1;
        assert(p@ =~= seq![' '] + word@.take(k as int));
    }
    p.push(' ');
    assert(word@.take(word.len() as int) =~= word@);
    assert(p@ =~= padded(word@));
    let mut t: usize = MAX_NGRAM;
    while t > 0
        invariant
            t <= MAX_NGRAM,
            model.wf(),
            tables == model.tables(),
            tables.len() == 7,
            ws.len() == LANG_COUNT,
            scored.len() == LANG_COUNT,
            p@ == padded(word@),
            !tables[0].contains_key(word@),
            forall|k: int| 0 <= k < LANG_COUNT ==> ws[k] == 0,
            forall|k: int|
                0 <= k < LANG_COUNT ==> #[trigger] order_points(tables, p@, MAX_NGRAM as nat, k as nat)
                    == order_points(tables, p@, t as nat, k as nat),
        decreases t,
    {
        let grams = shingles_of(&p, t);
        let table = &model.inner[t];
        assert(table.wf());
        assert(tables[t as int] == table.grams());
        let mut c: usize = 0;
        let mut j: usize = 0;
        while j < grams.len()
            invariant
                j <= grams.len(),
                c <= j,
                0 < t <= MAX_NGRAM,
                tables.len() == 7,
                ws.len() == LANG_COUNT,
                scored.len() == LANG_COUNT,
                table.wf(),
                tables[t as int] == table.grams(),
                grams@.len() == window_count(p@.len(), t as nat),
                forall|a: int| 0 <= a < grams@.len() ==> (#[trigger] grams@[a])@ == p@.subrange(a, a + t),
                forall|k: int|
                    0 <= k < LANG_COUNT ==> ws[k] == hit_sum(tables[t as int], p@, t as nat, j as nat, k as nat),
                c == hit_count(tables[t as int], p@, t as nat, j as nat),
            decreases grams.len() - j,
        {
            assert forall|k: int| 0 <= k < LANG_COUNT implies ws[k] <= SUM_CAP by {
                lemma_hit_sum_bound(tables[t as int], p@, t as nat, j as nat, k as nat);
                lemma_hit_count_le(tables[t as int], p@, t as nat, j as nat);
                lemma_sum_cap(c as nat, j as nat);
            }
            assert(grams@[j as int]@ == window(p@, t as nat, j as nat));
            match table.lookup(&grams[j]) {
                Some(e) => {
                    score_entry(e, ws, scored);
                    c = c + 1;
                },
                None => {},
            }
            j = j + 1;
        }
        if c > 0 {
            let ghost n = window_count(p@.len(), t as nat);
            let mut i: usize = 0;
            while i < LANG_COUNT
                invariant
                    i <= LANG_COUNT,
                    c > 0,
                    0 < t <= MAX_NGRAM,
                    tables.len() == 7,
                    n == window_count(p@.len(), t as nat),
                    ws.len() == LANG_COUNT,
                    c == hit_count(tables[t as int], p@, t as nat, n),
                    forall|k: int|
                        0 <= k < i ==> ws[k] == order_points(tables, p@, t as nat, k as nat),
                    forall|k: int|
                        i <= k < LANG_COUNT ==> ws[k] == hit_sum(tables[t as int], p@, t as nat, n, k as nat),
                decreases LANG_COUNT - i,
            {
                assert(order_points(tables, p@, t as nat, i as nat) == hit_sum(
                    tables[t as int],
                    p@,
                    t as nat,
                    n,
                    i as nat,
                ) / (c as nat));
                let cur = ws[i];
                ws.set(i, cur / c as u128);
                i = i + 1;
            }
            return;
        }
        assert forall|k: int| 0 <= k < LANG_COUNT implies ws[k] == 0 by {
            lemma_hit_sum_bound(
                tables[t as int],
                p@,
                t as nat,
                window_count(p@.len(), t as nat),
                k as nat,
            );
        }
        t = t - 1;
    }
}

} // verus!
