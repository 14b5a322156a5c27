use std::sync::Arc;
use vstd::prelude::*;
use crate::lang::{lang_at, Lang, LANG_COUNT};
use crate::model::{Grams, Model};
use crate::score::{
    lemma_mean_bound, lemma_total_points_bound, lemma_word_points_bound, score_word, total_points,
    word_points,
};
use crate::table::{grams_ok, PENALTY};
use crate::text::{classify, cjk_flags, prepare, prepared, space_cjk, spaced, split_words, words};

verus! {

/// Per-language scores for a text split into words: the mean word score of
/// each language, except that when more than half of the non-space characters
/// are CJK every non-CJK language gets the penalty plus one.
pub open spec fn points_of_words(tables: Seq<Grams>, ws: Seq<Seq<char>>, cjk: nat, len: nat) -> Seq<u64> {
    Seq::new(
        LANG_COUNT as nat,
        |i: int|
            if 2 * cjk > len && !lang_at(i).cjk() {
                (PENALTY + 1) as u64
            } else {
                (total_points(tables, ws, ws.len(), i as nat) / ws.len()) as u64
            },
    )
}

/// Per-language scores of a text, lower is better; `None` when the text has
/// no word or holds a character outside every Unicode block.
pub open spec fn text_points(tables: Seq<Grams>, t: Seq<char>) -> Option<Seq<u64>> {
    let s = prepared(t);
    match cjk_flags(s) {
        Ok(f) => {
            let sp = spaced(s, f);
            let ws = words(sp.0);
            if ws.len() == 0 {
                None
            } else {
                Some(points_of_words(tables, ws, sp.1, sp.2))
            }
        },
        Err(_) => None,
    }
}

/// More than half of the text's non-space characters are CJK.
pub open spec fn cjk_majority(t: Seq<char>) -> bool {
    match cjk_flags(prepared(t)) {
        Ok(f) => {
            let sp = spaced(prepared(t), f);
            2 * sp.1 > sp.2
        },
        Err(_) => false,
    }
}

/// Lowest score over the first `n` languages, with the language that has it;
/// on ties the earlier language wins, as in language order. With no language,
/// the penalty plus one and `und`.
pub open spec fn min_scan(p: Seq<u64>, n: nat) -> (u64, Lang)
    decreases n,
{
    if n == 0 {
        ((PENALTY + 1) as u64, Lang::und)
    } else if n == 1 {
        (p[0], lang_at(0))
    } else {
        let (s, l) = min_scan(p, (n - 1) as nat);
        if p[n - 1] < s {
            (p[n - 1], lang_at(n - 1))
        } else {
            (s, l)
        }
    }
}

/// Lowest score, starting from the penalty plus one, over the first `n`
/// languages that do not collapse to `w`.
pub open spec fn second_scan(p: Seq<u64>, w: Lang, n: nat) -> u64
    decreases n,
{
    if n == 0 {
        (PENALTY + 1) as u64
    } else {
        let s = second_scan(p, w, (n - 1) as nat);
        if lang_at(n - 1).macro_of() != w && p[n - 1] <= s {
            p[n - 1]
        } else {
            s
        }
    }
}

/// The winner for per-language scores `p`: the collapsed lowest-scoring
/// language. Without confidence, with its score. With confidence, with the
/// gap to the best language of another macrolanguage, and `und` in its place
/// when its threshold exceeds that gap.
pub open spec fn winner(p: Seq<u64>, conf: Seq<u64>, ignore_confidence: bool) -> (Lang, u64) {
    let (s, l) = min_scan(p, LANG_COUNT as nat);
    let w = l.macro_of();
    if ignore_confidence {
        (w, s)
    } else {
        let gap = (second_scan(p, w, LANG_COUNT as nat) - s) as u64;
        if conf[w.macro_of().id() as int] > gap {
            (Lang::und, gap)
        } else {
            (w, gap)
        }
    }
}

/// Among the first `n` languages not in `taken`, the one with the lowest
/// score; on ties the earlier one.
pub open spec fn best_upto(p: Seq<u64>, taken: Seq<nat>, n: nat) -> Option<nat>
    decreases n,
{
    if n == 0 {
        None
    } else {
        let b = best_upto(p, taken, (n - 1) as nat);
        let k = (n - 1) as nat;
        if taken.contains(k) {
            b
        } else {
            match b {
                None => Some(k),
                Some(j) => if p[k as int] < p[j as int] {
                    Some(k)
                } else {
                    Some(j)
                },
            }
        }
    }
}

/// Indices of the `k` best languages, best first: each step takes the best
/// language not taken yet, until none is left.
pub open spec fn rank_idx(p: Seq<u64>, k: nat) -> Seq<nat>
    decreases k,
{
    if k == 0 {
        Seq::empty()
    } else {
        let prev = rank_idx(p, (k - 1) as nat);
        match best_upto(p, prev, p.len()) {
            None => prev,
            Some(j) => prev.push(j),
        }
    }
}

/// The `k` best languages with their scores, by ascending score, ties in
/// language order.
pub open spec fn ranking(p: Seq<u64>, k: nat) -> Seq<(Lang, u64)> {
    rank_idx(p, k).map(|_j: int, i: nat| (lang_at(i as int), p[i as int]))
}

/// What `identify` returns for text `t`.
pub open spec fn identify_spec(tables: Seq<Grams>, conf: Seq<u64>, t: Seq<char>, ignore_confidence: bool) -> (Lang, u64) {
    match text_points(tables, t) {
        Some(p) => winner(p, conf, ignore_confidence),
        None => (Lang::und, PENALTY),
    }
}

/// What `identify_topk` returns for text `t`.
pub open spec fn topk_spec(tables: Seq<Grams>, t: Seq<char>, k: nat) -> Seq<(Lang, u64)> {
    match text_points(tables, t) {
        Some(p) => ranking(p, k),
        None => seq![(Lang::und, PENALTY)],
    }
}

proof fn lemma_min_scan_le(p: Seq<u64>, n: nat)
    requires
        n <= p.len(),
        forall|k: int| 0 <= k < n ==> #[trigger] p[k] <= PENALTY + 1,
    ensures
        min_scan(p, n).0 <= PENALTY + 1,
        forall|k: int| 0 <= k < n ==> min_scan(p, n).0 <= p[k],
    decreases n,
{
    if n > 0 {
        lemma_min_scan_le(p, (n - 1) as nat);
    }
}

proof fn lemma_second_scan_ge(p: Seq<u64>, w: Lang, n: nat, s: u64)
    requires
        n <= p.len(),
        s <= PENALTY + 1,
        forall|k: int| 0 <= k < n ==> s <= p[k],
    ensures
        second_scan(p, w, n) >= s,
    decreases n,
{
    if n > 0 {
        lemma_second_scan_ge(p, w, (n - 1) as nat, s);
    }
}

/// The reported gap is never negative: the runner-up scores no lower than
/// the winner.
pub proof fn lemma_gap_nonnegative(p: Seq<u64>, w: Lang)
    requires
        p.len() == LANG_COUNT,
        forall|k: int| 0 <= k < LANG_COUNT ==> #[trigger] p[k] <= PENALTY + 1,
    ensures
        second_scan(p, w, LANG_COUNT as nat) >= min_scan(p, LANG_COUNT as nat).0,
{
    lemma_min_scan_le(p, LANG_COUNT as nat);
    lemma_second_scan_ge(p, w, LANG_COUNT as nat, min_scan(p, LANG_COUNT as nat).0);
}

/// Once no language is left to take, the ranking stops growing.
proof fn lemma_rank_stable(p: Seq<u64>, s: nat, k: nat)
    requires
        s <= k,
        best_upto(p, rank_idx(p, s), p.len()) is None,
    ensures
        rank_idx(p, k) == rank_idx(p, s),
    decreases k,
{
    if k > s {
        lemma_rank_stable(p, s, (k - 1) as nat);
    }
}

/// A scoring engine: a shared model and per-text scratch.
pub struct Identifier {
    model: Arc<Model>,
    lang_scored: Vec<bool>,
    lang_points: Vec<u64>,
    word_scores: Vec<u128>,
    pub ignore_confidence: bool,
}

impl Identifier {
    /// The model is well formed and the scratch has one slot per language.
    pub closed spec fn wf(&self) -> bool {
        &&& self.model.wf()
        &&& self.lang_scored.len() == LANG_COUNT
        &&& self.lang_points.len() == LANG_COUNT
        &&& self.word_scores.len() == LANG_COUNT
        &&& forall|i: int| 0 <= i < LANG_COUNT ==> #[trigger] self.lang_points@[i] <= PENALTY + 1
    }

    /// Contents of the model's tables.
    pub closed spec fn tables(&self) -> Seq<Grams> {
        self.model.tables()
    }

    /// The per-language scores of the last scored text.
    pub closed spec fn points(&self) -> Seq<u64> {
        self.lang_points@
    }

    /// Whether thresholds are ignored.
    pub closed spec fn ignores_confidence(&self) -> bool {
        self.ignore_confidence
    }

    /// The model's confidence thresholds.
    pub closed spec fn thresholds(&self) -> Seq<u64> {
        self.model.thresholds()
    }

    /// An engine on `model`, confidence thresholds used unless
    /// `ignore_confidence`.
    pub fn new(model: Arc<Model>, ignore_confidence: bool) -> (r: Identifier)
        requires
            model.wf(),
        ensures
            r.wf(),
            r.tables() == model.tables(),
            r.thresholds() == model.thresholds(),
            r.ignores_confidence() == ignore_confidence,
    {
        let mut lang_scored: Vec<bool> = Vec::new();
        let mut lang_points: Vec<u64> = Vec::new();
        let mut word_scores: Vec<u128> = Vec::new();
        let mut i: usize = 0;
        while i < LANG_COUNT
            invariant
                i <= LANG_COUNT,
                lang_scored.len() == i,
                lang_points.len() == i,
                word_scores.len() == i,
                forall|k: int| 0 <= k < i ==> lang_points@[k] == 0,
            decreases LANG_COUNT - i,
        {
            lang_scored.push(false);
            lang_points.push(0);
            word_scores.push(0);
            i = i + 1;
        }
        Identifier { model, lang_scored, lang_points, word_scores, ignore_confidence }
    }

    /// Stops using confidence thresholds.
    pub fn disable_confidence(&mut self)
        requires
            old(self).wf(),
        ensures
            final(self).wf(),
            final(self).tables() == old(self).tables(),
            final(self).thresholds() == old(self).thresholds(),
            final(self).ignores_confidence(),
    {
        self.ignore_confidence = true;
    }

    /// The winner for the current scores, as `winner` gives it.
    pub fn pick_winner(&self) -> (r: (Lang, u64))
        requires
            self.wf(),
        ensures
            r == winner(self.points(), self.thresholds(), self.ignores_confidence()),
    {
        let ghost p = self.lang_points@;
        proof {
            Lang::lemma_from_id(0);
        }
        let mut score: u64 = self.lang_points[0];
        let mut winner_lang = match Lang::from_index(0) {
            Some(l) => l,
            None => Lang::und,
        };
        let mut i: usize = 1;
        while i < LANG_COUNT
            invariant
                1 <= i <= LANG_COUNT,
                self.wf(),
                p == self.lang_points@,
                (score, winner_lang) == min_scan(p, i as nat),
            decreases LANG_COUNT - i,
        {
            proof {
                Lang::lemma_from_id(i);
            }
            let lang = match Lang::from_index(i) {
                Some(l) => l,
                None => Lang::und,
            };
            let points = self.lang_points[i];
            if points < score {
                score = points;
                winner_lang = lang;
            }
            i = i + 1;
        }
        winner_lang = winner_lang.collapse();
        if !self.ignore_confidence {
            let mut second: u64 = PENALTY + 1;
            let mut i: usize = 0;
            while i < LANG_COUNT
                invariant
                    i <= LANG_COUNT,
                    self.wf(),
                    p == self.lang_points@,
                    second == second_scan(p, winner_lang, i as nat),
                decreases LANG_COUNT - i,
            {
                proof {
                    Lang::lemma_from_id(i);
                }
                let lang = match Lang::from_index(i) {
                    Some(l) => l,
                    None => Lang::und,
                };
                let points = self.lang_points[i];
                if lang.collapse() != winner_lang && points <= second {
                    second = points;
                }
                i = i + 1;
            }
            proof {
                lemma_gap_nonnegative(p, winner_lang);
            }
            let gap = second - score;
            let c = winner_lang.collapse();
            proof {
                c.lemma_id();
            }
            let threshold = self.model.confidence[c.index()];
            if threshold > gap {
                winner_lang = Lang::und;
            }
            score = gap;
        }
        (winner_lang, score)
    }

    /// The `k` best languages for the current scores, as `ranking` gives them.
    /// Ranks by repeated selection of the best language not yet taken, not
    /// through a score-keyed `BTreeMap`: vstd specifies neither `pop_first`
    /// nor `get_mut` of `BTreeMap`, which that way needs.
    pub fn rank_langs(&self, k: usize) -> (r: Vec<(Lang, u64)>)
        requires
            self.wf(),
        ensures
            r@ == ranking(self.points(), k as nat),
    {
        let ghost p = self.lang_points@;
        let ghost mut idx: Seq<nat> = Seq::empty();
        let mut winners: Vec<(Lang, u64)> = Vec::new();
        let mut taken: Vec<bool> = Vec::new();
        let mut i: usize = 0;
        while i < LANG_COUNT
            invariant
                i <= LANG_COUNT,
                taken.len() == i,
                forall|a: int| 0 <= a < i ==> !taken[a],
            decreases LANG_COUNT - i,
        {
            taken.push(false);
            i = i + 1;
        }
        let mut step: usize = 0;
        while step < k
            invariant
                step <= k,
                self.wf(),
                p == self.lang_points@,
                p.len() == LANG_COUNT,
                idx == rank_idx(p, step as nat),
                taken.len() == LANG_COUNT,
                forall|a: int| 0 <= a < LANG_COUNT ==> taken[a] == idx.contains(a as nat),
                winners@ == idx.map(|_j: int, a: nat| (lang_at(a as int), p[a as int])),
            decreases k - step,
        {
            let mut best: Option<usize> = None;
            let mut i: usize = 0;
            while i < LANG_COUNT
                invariant
                    i <= LANG_COUNT,
                    self.wf(),
                    p == self.lang_points@,
                    taken.len() == LANG_COUNT,
                    forall|a: int| 0 <= a < LANG_COUNT ==> taken[a] == idx.contains(a as nat),
                    match best {
                        None => best_upto(p, idx, i as nat) is None,
                        Some(j) => best_upto(p, idx, i as nat) == Some(j as nat) && j < i,
                    },
                decreases LANG_COUNT - i,
            {
                if !taken[i] {
                    match best {
                        None => {
                            best = Some(i);
                        },
                        Some(j) => {
                            if self.lang_points[i] < self.lang_points[j] {
                                best = Some(i);
                            }
                        },
                    }
                }
                i = i + 1;
            }
            match best {
                None => {
                    proof {
                        lemma_rank_stable(p, step as nat, k as nat);
                    }
                    step = k;
                },
                Some(j) => {
                    proof {
                        Lang::lemma_from_id(j);
                    }
                    let lang = match Lang::from_index(j) {
                        Some(l) => l,
                        None => Lang::und,
                    };
                    taken.set(j, true);
                    winners.push((lang, self.lang_points[j]));
                    proof {
                        let old_idx = idx;
                        idx = idx.push(j as nat);
                        assert forall|a: int| 0 <= a < LANG_COUNT implies taken[a] == idx.contains(a as nat) by {
                            if a == j {
                                assert(idx[old_idx.len() as int] == a as nat);
                            } else {
                                if old_idx.contains(a as nat) {
                                    let q = choose|q: int| 0 <= q < old_idx.len() && old_idx[q] == a as nat;
                                    assert(idx[q] == a as nat);
                                }
                                if idx.contains(a as nat) {
                                    let q = choose|q: int| 0 <= q < idx.len() && idx[q] == a as nat;
                                    assert(old_idx[q] == a as nat);
                                }
                            }
                        }
                        assert(winners@ =~= idx.map(|_j: int, a: nat| (lang_at(a as int), p[a as int])));
                    }
                    step = step + 1;
                },
            }
        }
        winners
    }

    /// The language of `text` with its score, as `identify_spec` gives them:
    /// `(und, penalty)` when the text has nothing to score.
    pub fn identify(&mut self, text: &str) -> (r: (Lang, u64))
        requires
            old(self).wf(),
        ensures
            final(self).wf(),
            final(self).tables() == old(self).tables(),
            final(self).thresholds() == old(self).thresholds(),
            final(self).ignores_confidence() == old(self).ignores_confidence(),
            r == identify_spec(
                old(self).tables(),
                old(self).thresholds(),
                text@,
                old(self).ignores_confidence(),
            ),
    {
        if self.score_langs(text) {
            self.pick_winner()
        } else {
            (Lang::und, PENALTY)
        }
    }

    /// The `k` best languages of `text` with their scores, as `topk_spec`
    /// gives them: `[(und, penalty)]` when the text has nothing to score.
    pub fn identify_topk(&mut self, text: &str, k: usize) -> (r: Vec<(Lang, u64)>)
        requires
            old(self).wf(),
        ensures
            final(self).wf(),
            final(self).tables() == old(self).tables(),
            final(self).thresholds() == old(self).thresholds(),
            final(self).ignores_confidence() == old(self).ignores_confidence(),
            r@ == topk_spec(old(self).tables(), text@, k as nat),
    {
        if self.score_langs(text) {
            self.rank_langs(k)
        } else {
            let mut r: Vec<(Lang, u64)> = Vec::new();
            r.push((Lang::und, PENALTY));
            assert(r@ =~= seq![(Lang::und, PENALTY)]);
            r
        }
    }

    /// Stops using confidence thresholds, for chaining.
    pub fn without_confidence(&mut self) -> (r: &mut Self)
        requires
            old(self).wf(),
        ensures
            r.wf(),
            r.tables() == old(self).tables(),
            r.thresholds() == old(self).thresholds(),
            r.ignores_confidence(),
    {
        self.ignore_confidence = true;
        self
    }

    /// Uses confidence thresholds again, for chaining.
    pub fn with_confidence(&mut self) -> (r: &mut Self)
        requires
            old(self).wf(),
        ensures
            r.wf(),
            r.tables() == old(self).tables(),
            r.thresholds() == old(self).thresholds(),
            !r.ignores_confidence(),
    {
        self.ignore_confidence = false;
        self
    }

    /// Computes the per-language scores of `text`, as `text_points` gives
    /// them; returns false, leaving the scores as they were, when the text
    /// has nothing to score. Every score lies between zero and the penalty
    /// plus one, and when most characters are CJK every other language gets
    /// exactly the penalty plus one.
    pub fn score_langs(&mut self, text: &str) -> (ok: bool)
        requires
            old(self).wf(),
        ensures
            final(self).wf(),
            final(self).tables() == old(self).tables(),
            final(self).thresholds() == old(self).thresholds(),
            final(self).ignores_confidence() == old(self).ignores_confidence(),
            ok == text_points(old(self).tables(), text@) is Some,
            ok ==> final(self).points() == text_points(old(self).tables(), text@)->0,
            !ok ==> final(self).points() == old(self).points(),
            ok ==> final(self).points().len() == LANG_COUNT && forall|i: int|
                0 <= i < LANG_COUNT ==> #[trigger] final(self).points()[i] <= PENALTY + 1,
            ok && cjk_majority(text@) ==> forall|i: int|
                0 <= i < LANG_COUNT && !lang_at(i).cjk() ==> #[trigger] final(self).points()[i] == PENALTY + 1,
    {
        proof {
            lemma_points_bounded(self.tables(), text@);
            lemma_cjk_override(self.tables(), text@);
        }
        let s = prepare(text);
        let flags = match classify(&s) {
            Ok(f) => f,
            Err(()) => {
                return false;
            },
        };
        let (sp, n_cjk, n_len) = space_cjk(&s, &flags);
        let ws = split_words(&sp);
        let n = ws.len();
        if n == 0 {
            return false;
        }
        let ghost tables = self.tables();
        let ghost wsq = words(sp@);
        let mut acc: Vec<u128> = Vec::new();
        let mut i: usize = 0;
        while i < LANG_COUNT
            invariant
                i <= LANG_COUNT,
                acc.len() == i,
                forall|k: int| 0 <= k < i ==> acc[k] == 0,
            decreases LANG_COUNT - i,
        {
            acc.push(0);
            i = i + 1;
        }
        let mut w: usize = 0;
        while w < n
            invariant
                self.wf(),
                tables == self.tables(),
                self.model == old(self).model,
                self.ignore_confidence == old(self).ignore_confidence,
                w <= n,
                n == ws.len(),
                ws@.len() == wsq.len(),
                forall|k: int| 0 <= k < ws@.len() ==> #[trigger] ws@[k]@ == wsq[k],
                acc.len() == LANG_COUNT,
                forall|k: int|
                    0 <= k < LANG_COUNT ==> acc[k] == total_points(tables, wsq, w as nat, k as nat),
            decreases n - w,
        {
            score_word(&self.model, &ws[w], &mut self.word_scores, &mut self.lang_scored);
            let mut i: usize = 0;
            while i < LANG_COUNT
                invariant
                    i <= LANG_COUNT,
                    w < n,
                    self.wf(),
                    tables == self.tables(),
                    acc.len() == LANG_COUNT,
                    forall|k: int|
                        0 <= k < LANG_COUNT ==> self.word_scores[k] == word_points(tables, wsq[w as int], k as nat),
                    forall|k: int|
                        0 <= k < i ==> acc[k] == total_points(tables, wsq, (w + 1) as nat, k as nat),
                    forall|k: int|
                        i <= k < LANG_COUNT ==> acc[k] == total_points(tables, wsq, w as nat, k as nat),
                decreases LANG_COUNT - i,
            {
                proof {
                    lemma_total_points_bound(tables, wsq, w as nat, i as nat);
                    lemma_word_points_bound(tables, wsq[w as int], i as nat);
                    assert(w * PENALTY <= usize::MAX * PENALTY) by (nonlinear_arith)
                        requires
                            w <= usize::MAX,
                    ;
                }
                let cur = acc[i];
                acc.set(i, cur + self.word_scores[i]);
                i = i + 1;
            }
            w = w + 1;
        }
        let cjk_major = 2 * (n_cjk as u128) > n_len as u128;
        let mut i: usize = 0;
        while i < LANG_COUNT
            invariant
                i <= LANG_COUNT,
                n == wsq.len(),
                n > 0,
                self.wf(),
                tables == self.tables(),
                self.model == old(self).model,
                self.ignore_confidence == old(self).ignore_confidence,
                acc.len() == LANG_COUNT,
                cjk_major == (2 * (n_cjk as nat) > n_len as nat),
                forall|k: int|
                    0 <= k < LANG_COUNT ==> acc[k] == total_points(tables, wsq, n as nat, k as nat),
                forall|k: int|
                    0 <= k < i ==> self.lang_points[k] == points_of_words(tables, wsq, n_cjk as nat, n_len as nat)[k],
            decreases LANG_COUNT - i,
        {
            proof {
                Lang::lemma_from_id(i);
            }
            let lang = match Lang::from_index(i) {
                Some(l) => l,
                None => Lang::und,
            };
            let v: u64 = if cjk_major && !lang.is_cjk() {
                PENALTY + 1
            } else {
                proof {
                    lemma_total_points_bound(tables, wsq, n as nat, i as nat);
                    lemma_mean_bound(total_points(tables, wsq, n as nat, i as nat), n as nat);
                }
                (acc[i] / n as u128) as u64
            };
            self.lang_points.set(i, v);
            i = i + 1;
        }
        assert(self.lang_points@ =~= points_of_words(tables, wsq, n_cjk as nat, n_len as nat));
        true
    }
}

} // verus!

verus! {

proof fn lemma_rank_prefix(p: Seq<u64>, k: nat, kk: nat)
    requires
        k <= kk,
    ensures
        rank_idx(p, k).len() <= rank_idx(p, kk).len(),
        rank_idx(p, kk).take(rank_idx(p, k).len() as int) == rank_idx(p, k),
    decreases kk,
{
    if kk > k {
        lemma_rank_prefix(p, k, (kk - 1) as nat);
        let prev = rank_idx(p, (kk - 1) as nat);
        match best_upto(p, prev, p.len()) {
            None => {},
            Some(j) => {
                assert(prev.push(j).take(rank_idx(p, k).len() as int) =~= prev.take(
                    rank_idx(p, k).len() as int,
                ));
            },
        }
    } else {
        assert(rank_idx(p, k).take(rank_idx(p, k).len() as int) =~= rank_idx(p, k));
    }
}

proof fn lemma_rank_len(p: Seq<u64>, k: nat)
    ensures
        rank_idx(p, k).len() <= k,
        rank_idx(p, k).len() == k || best_upto(p, rank_idx(p, k), p.len()) is None,
    decreases k,
{
    if k > 0 {
        lemma_rank_len(p, (k - 1) as nat);
    }
}

/// Top-k rankings are prefixes of longer ones: the `k` best are the first
/// entries of the `kk` best, and there are `k` of them unless fewer
/// languages exist.
pub proof fn lemma_ranking_prefix(p: Seq<u64>, k: nat, kk: nat)
    requires
        k <= kk,
    ensures
        ranking(p, k).len() == if k < ranking(p, kk).len() {
            k
        } else {
            ranking(p, kk).len()
        },
        ranking(p, kk).take(ranking(p, k).len() as int) == ranking(p, k),
{
    lemma_rank_prefix(p, k, kk);
    lemma_rank_len(p, k);
    if rank_idx(p, k).len() != k {
        lemma_rank_stable(p, k, kk);
    }
    let f = |_j: int, a: nat| (lang_at(a as int), p[a as int]);
    assert(ranking(p, k).len() == rank_idx(p, k).len());
    assert(ranking(p, kk).len() == rank_idx(p, kk).len());
    if rank_idx(p, k).len() != k {
        assert(rank_idx(p, kk) == rank_idx(p, k));
    } else {
        assert(rank_idx(p, k).len() <= rank_idx(p, kk).len());
    }
    assert(rank_idx(p, kk).map(f).take(rank_idx(p, k).len() as int) =~= rank_idx(p, kk).take(
        rank_idx(p, k).len() as int,
    ).map(f));
}

/// `identify_topk` with `k` gives the first entries of `identify_topk` with
/// any larger `kk`.
pub proof fn lemma_topk_prefix(tables: Seq<Grams>, t: Seq<char>, k: nat, kk: nat)
    requires
        1 <= k <= kk,
    ensures
        topk_spec(tables, t, k) == topk_spec(tables, t, kk).take(
            if k < topk_spec(tables, t, kk).len() {
                k as int
            } else {
                topk_spec(tables, t, kk).len() as int
            },
        ),
{
    match text_points(tables, t) {
        Some(p) => {
            lemma_ranking_prefix(p, k, kk);
        },
        None => {
            assert(seq![(Lang::und, PENALTY)].take(1) =~= seq![(Lang::und, PENALTY)]);
        },
    }
}

/// Every per-language score of a text lies between zero and the penalty plus one.
pub proof fn lemma_points_bounded(tables: Seq<Grams>, t: Seq<char>)
    requires
        tables.len() == 7,
        forall|o: int| 0 <= o < tables.len() ==> grams_ok(#[trigger] tables[o]),
    ensures
        text_points(tables, t) matches Some(p) ==> p.len() == LANG_COUNT && forall|i: int|
            0 <= i < LANG_COUNT ==> #[trigger] p[i] <= PENALTY + 1,
{
    match text_points(tables, t) {
        Some(p) => {
            let s = prepared(t);
            let f = cjk_flags(s)->Ok_0;
            let sp = spaced(s, f);
            let ws = words(sp.0);
            assert forall|i: int| 0 <= i < LANG_COUNT implies #[trigger] p[i] <= PENALTY + 1 by {
                lemma_total_points_bound(tables, ws, ws.len(), i as nat);
                lemma_mean_bound(total_points(tables, ws, ws.len(), i as nat), ws.len());
            }
        },
        None => {},
    }
}

/// When more than half of a text's non-space characters are CJK, every
/// non-CJK language scores exactly the penalty plus one.
pub proof fn lemma_cjk_override(tables: Seq<Grams>, t: Seq<char>)
    ensures
        text_points(tables, t) matches Some(p) ==> (cjk_majority(t) ==> forall|i: int|
            0 <= i < LANG_COUNT && !lang_at(i).cjk() ==> #[trigger] p[i] == PENALTY + 1),
{
}

/// Lowering thresholds never turns a concrete label into `und`: with
/// thresholds no higher anywhere, a winner that was kept is kept, with the
/// same gap.
pub proof fn lemma_confidence_monotone(p: Seq<u64>, conf: Seq<u64>, lower: Seq<u64>)
    requires
        conf.len() == LANG_COUNT,
        lower.len() == LANG_COUNT,
        forall|i: int| 0 <= i < LANG_COUNT ==> #[trigger] lower[i] <= conf[i],
    ensures
        winner(p, conf, false).0 != Lang::und ==> winner(p, lower, false) == winner(p, conf, false),
{
    let w = min_scan(p, LANG_COUNT as nat).1.macro_of();
    w.macro_of().lemma_id();
}

/// Two engines on the same model give the same answer for the same text.
pub proof fn lemma_identify_deterministic(m: Model, a: Identifier, b: Identifier, t: Seq<char>)
    requires
        a.tables() == m.tables(),
        b.tables() == m.tables(),
        a.thresholds() == m.thresholds(),
        b.thresholds() == m.thresholds(),
        a.ignores_confidence() == b.ignores_confidence(),
    ensures
        identify_spec(a.tables(), a.thresholds(), t, a.ignores_confidence()) == identify_spec(
            b.tables(),
            b.thresholds(),
            t,
            b.ignores_confidence(),
        ),
{
}

proof fn lemma_min_scan_first(p: Seq<u64>, n: nat)
    requires
        1 <= n <= p.len(),
    ensures
        best_upto(p, Seq::empty(), n) matches Some(j) && j < n && min_scan(p, n) == (p[j as int], lang_at(j as int)),
    decreases n,
{
    assert(!Seq::<nat>::empty().contains((n - 1) as nat));
    if n > 1 {
        lemma_min_scan_first(p, (n - 1) as nat);
    } else {
        assert(best_upto(p, Seq::empty(), 0) is None);
    }
}

/// The first entry of the ranking is, once collapsed, the language `identify`
/// gives without confidence; with confidence `identify` gives it or `und`.
/// Ties go to the earlier language in both.
pub proof fn lemma_topk_first_is_winner(p: Seq<u64>, conf: Seq<u64>, k: nat)
    requires
        p.len() == LANG_COUNT,
        k >= 1,
    ensures
        ranking(p, k).len() >= 1,
        winner(p, conf, true).0 == ranking(p, k)[0].0.macro_of(),
        winner(p, conf, false).0 == ranking(p, k)[0].0.macro_of() || winner(p, conf, false).0
            == Lang::und,
{
    lemma_min_scan_first(p, LANG_COUNT as nat);
    let j = best_upto(p, Seq::empty(), LANG_COUNT as nat)->Some_0;
    assert(rank_idx(p, 0) == Seq::<nat>::empty());
    assert(rank_idx(p, 1) == Seq::<nat>::empty().push(j));
    lemma_rank_prefix(p, 1, k);
    assert(rank_idx(p, k)[0] == rank_idx(p, k).take(1)[0]);
}

} // verus!
