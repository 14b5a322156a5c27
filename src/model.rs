use vstd::prelude::*;
use crate::lang::{Lang, LANG_COUNT};
use crate::builder::LoadError;
use crate::table::{entry_ok, grams_ok, GramMap, PENALTY};

verus! {

/// The contents of one n-gram table: gram to `(language, score)` pairs.
pub type Grams = Map<Seq<char>, Seq<(Lang, u64)>>;

/// Number of n-gram orders: whole words and grams of one to six characters.
pub const ORDER_COUNT: usize = 7;

/// The order of an n-gram table. `Word` looks up whole words; the others look
/// up grams of that many characters.
#[derive(Clone, Copy, PartialEq, Eq, Structural, Debug)]
pub enum OrderNgram {
    Word,
    Unigram,
    Bigram,
    Trigram,
    Quadgram,
    Quingram,
    Hexagram,
}

impl OrderNgram {
    /// The numeric value of the order: 0 for words, else the gram length.
    pub open spec fn id(self) -> nat {
        match self {
            OrderNgram::Word => 0,
            OrderNgram::Unigram => 1,
            OrderNgram::Bigram => 2,
            OrderNgram::Trigram => 3,
            OrderNgram::Quadgram => 4,
            OrderNgram::Quingram => 5,
            OrderNgram::Hexagram => 6,
        }
    }

    /// The order with a numeric value, if there is one.
    pub open spec fn from_id(i: nat) -> Option<OrderNgram> {
        if i == 0 {
            Some(OrderNgram::Word)
        } else if i == 1 {
            Some(OrderNgram::Unigram)
        } else if i == 2 {
            Some(OrderNgram::Bigram)
        } else if i == 3 {
            Some(OrderNgram::Trigram)
        } else if i == 4 {
            Some(OrderNgram::Quadgram)
        } else if i == 5 {
            Some(OrderNgram::Quingram)
        } else if i == 6 {
            Some(OrderNgram::Hexagram)
        } else {
            None
        }
    }

    /// The numeric value of the order.
    pub fn index(&self) -> (r: usize)
        ensures
            r == self.id(),
    {
        match self {
            OrderNgram::Word => 0,
            OrderNgram::Unigram => 1,
            OrderNgram::Bigram => 2,
            OrderNgram::Trigram => 3,
            OrderNgram::Quadgram => 4,
            OrderNgram::Quingram => 5,
            OrderNgram::Hexagram => 6,
        }
    }

    /// The order with numeric value `i`, or `None` above six.
    pub fn from_index(i: usize) -> (r: Option<OrderNgram>)
        ensures
            r == OrderNgram::from_id(i as nat),
    {
        if i == 0 {
            Some(OrderNgram::Word)
        } else if i == 1 {
            Some(OrderNgram::Unigram)
        } else if i == 2 {
            Some(OrderNgram::Bigram)
        } else if i == 3 {
            Some(OrderNgram::Trigram)
        } else if i == 4 {
            Some(OrderNgram::Quadgram)
        } else if i == 5 {
            Some(OrderNgram::Quingram)
        } else if i == 6 {
            Some(OrderNgram::Hexagram)
        } else {
            None
        }
    }

    /// The lower-case name used in model file names, such as `trigram`.
    pub fn name(&self) -> &'static str {
        match self {
            OrderNgram::Word => "word",
            OrderNgram::Unigram => "unigram",
            OrderNgram::Bigram => "bigram",
            OrderNgram::Trigram => "trigram",
            OrderNgram::Quadgram => "quadgram",
            OrderNgram::Quingram => "quingram",
            OrderNgram::Hexagram => "hexagram",
        }
    }
}

/// One entry after adding language `lang` with score `sc` for gram `g`: a new
/// list for a new gram; else the pair is appended, replacing a pair of the
/// same language at the end.
pub open spec fn add_pair(m: Grams, lang: Lang, g: Seq<char>, sc: u64) -> Grams {
    if m.contains_key(g) {
        let e = m[g];
        if e.last().0 == lang {
            m.insert(g, e.drop_last().push((lang, sc)))
        } else {
            m.insert(g, e.push((lang, sc)))
        }
    } else {
        m.insert(g, seq![(lang, sc)])
    }
}

/// The table after adding the first `n` of a language's grams, in order.
pub open spec fn add_all(m: Grams, lang: Lang, gs: Seq<(Seq<char>, u64)>, n: nat) -> Grams
    decreases n,
{
    if n == 0 {
        m
    } else {
        add_pair(add_all(m, lang, gs, (n - 1) as nat), lang, gs[n - 1].0, gs[n - 1].1)
    }
}

/// Language `lang` appears in an entry at most as its last pair.
pub open spec fn only_last(e: Seq<(Lang, u64)>, lang: Lang) -> bool {
    forall|j: int| 0 <= j < e.len() - 1 ==> (#[trigger] e[j]).0 != lang
}

/// One n-gram table, tagged with its order.
pub struct ModelNgram {
    dic: GramMap,
    model_type: OrderNgram,
    langs: Vec<bool>,
}

impl ModelNgram {
    /// The table's contents.
    pub closed spec fn grams(&self) -> Grams {
        self.dic@
    }

    /// The order the table is tagged with.
    pub closed spec fn order(&self) -> OrderNgram {
        self.model_type
    }

    /// Whether grams of language `i` have been added.
    pub closed spec fn loaded(&self, i: nat) -> bool {
        self.langs@[i as int]
    }

    /// Every language that appears in an entry is marked as loaded.
    pub closed spec fn langs_ok(&self) -> bool {
        &&& self.langs.len() == LANG_COUNT
        &&& forall|g: Seq<char>, j: int|
            self.dic@.contains_key(g) && 0 <= j < self.dic@[g].len() ==> self.langs@[(
            #[trigger] self.dic@[g][j]).0.id() as int]
    }

    /// Every entry is a non-empty list of distinct languages with bounded
    /// scores, and the loaded languages are tracked.
    pub open spec fn wf(&self) -> bool {
        grams_ok(self.grams()) && self.langs_ok()
    }

    /// An empty table of the given order.
    pub fn new(model_type: OrderNgram) -> (r: ModelNgram)
        ensures
            r.wf(),
            r.grams() == Map::<Seq<char>, Seq<(Lang, u64)>>::empty(),
            r.order() == model_type,
            forall|i: nat| i < LANG_COUNT ==> !#[trigger] r.loaded(i),
    {
        let dic = GramMap::new();
        assert(dic@ =~= Map::<Seq<char>, Seq<(Lang, u64)>>::empty());
        let mut langs: Vec<bool> = Vec::new();
        let mut i: usize = 0;
        while i < LANG_COUNT
            invariant
                i <= LANG_COUNT,
                langs.len() == i,
                forall|k: int| 0 <= k < i ==> !langs[k],
            decreases LANG_COUNT - i,
        {
            langs.push(false);
            i = i + 1;
        }
        ModelNgram { dic, model_type, langs }
    }

    /// The order the table is tagged with.
    pub fn model_type(&self) -> (r: OrderNgram)
        ensures
            r == self.order(),
    {
        self.model_type
    }

    /// Whether the table lists `key`.
    pub fn contains(&self, key: &Vec<char>) -> (r: bool)
        ensures
            r == self.grams().contains_key(key@),
    {
        self.dic.get(key).is_some()
    }

    /// The `(language, score)` pairs listed for `key`, if any.
    pub fn lookup(&self, key: &Vec<char>) -> (r: Option<&Vec<(Lang, u64)>>)
        ensures
            r matches Some(v) ==> self.grams().contains_key(key@) && v@ == self.grams()[key@],
            r is None ==> !self.grams().contains_key(key@),
    {
        self.dic.get(key)
    }

    /// The number of grams in the table.
    pub fn len(&self) -> (r: usize)
        ensures
            r == self.grams().len(),
    {
        self.dic.len()
    }

    /// Stores a new gram with a well-formed entry.
    pub(crate) fn insert_entry(&mut self, g: Vec<char>, e: Vec<(Lang, u64)>)
        requires
            old(self).wf(),
            !old(self).grams().contains_key(g@),
            entry_ok(e@),
        ensures
            final(self).wf(),
            final(self).order() == old(self).order(),
            final(self).grams() == old(self).grams().insert(g@, e@),
    {
        let ghost before = self.grams();
        let ghost gv = g@;
        let ghost ev = e@;
        let mut j: usize = 0;
        while j < e.len()
            invariant
                j <= e.len(),
                e@ == ev,
                entry_ok(ev),
                self.langs.len() == LANG_COUNT,
                self.dic@ == before,
                self.order() == old(self).order(),
                grams_ok(before),
                forall|g2: Seq<char>, k: int|
                    before.contains_key(g2) && 0 <= k < before[g2].len() ==> self.langs@[(
                    #[trigger] before[g2][k]).0.id() as int],
                forall|k: int| 0 <= k < j ==> self.langs@[(#[trigger] ev[k]).0.id() as int],
            decreases e.len() - j,
        {
            let li = e[j].0.index();
            proof {
                e@[j as int].0.lemma_id();
            }
            self.langs.set(li, true);
            j = j + 1;
        }
        self.dic.insert(g, e);
        proof {
            let m = self.dic@;
            assert(m == before.insert(gv, ev));
            assert forall|g2: Seq<char>, k: int|
                m.contains_key(g2) && 0 <= k < m[g2].len() implies self.langs@[(#[trigger] m[g2][k]).0.id() as int] by {
                if g2 != gv {
                    assert(m[g2] == before[g2]);
                }
            }
        }
    }

    /// Every gram with its entry, once each, in no particular order.
    pub fn entries(&self) -> (r: Vec<(Vec<char>, Vec<(Lang, u64)>)>)
        ensures
            r@.len() == self.grams().len(),
            forall|j: int|
                0 <= j < r@.len() ==> self.grams().contains_key(#[trigger] r@[j].0@) && self.grams()[r@[j].0@]
                    == r@[j].1@,
            forall|j: int, k: int| 0 <= j < k < r@.len() ==> r@[j].0@ != r@[k].0@,
            forall|g: Seq<char>|
                self.grams().contains_key(g) ==> exists|j: int| 0 <= j < r@.len() && #[trigger] r@[j].0@ == g,
    {
        self.dic.entries()
    }

    /// Adds the grams of language `lang` with their scores, in order. Fails,
    /// changing nothing, when the language was added before or a score is
    /// above the penalty.
    pub fn add_language(&mut self, lang: Lang, grams: &Vec<(Vec<char>, u64)>) -> (r: Result<(), LoadError>)
        requires
            old(self).wf(),
        ensures
            final(self).wf(),
            final(self).order() == old(self).order(),
            old(self).loaded(lang.id()) ==> r == Err::<(), LoadError>(LoadError::LangAlreadyLoaded(lang.id() as usize)),
            !old(self).loaded(lang.id()) && (exists|k: int| 0 <= k < grams@.len() && (#[trigger] grams@[k]).1 > PENALTY)
                ==> r == Err::<(), LoadError>(LoadError::ScoreOutOfRange),
            r is Err ==> final(self).grams() == old(self).grams(),
            r is Ok ==> final(self).grams() == add_all(
                old(self).grams(),
                lang,
                grams@.map(|_k: int, x: (Vec<char>, u64)| (x.0@, x.1)),
                grams@.len() as nat,
            ),
            r is Ok <==> !old(self).loaded(lang.id()) && forall|k: int| 0 <= k < grams@.len() ==> (#[trigger] grams@[k]).1 <= PENALTY,
    {
        let li = lang.index();
        proof {
            lang.lemma_id();
        }
        if self.langs[li] {
            return Err(LoadError::LangAlreadyLoaded(li));
        }
        let mut k: usize = 0;
        while k < grams.len()
            invariant
                k <= grams.len(),
                forall|a: int| 0 <= a < k ==> (#[trigger] grams@[a]).1 <= PENALTY,
                self.wf(),
                self.grams() == old(self).grams(),
                self.order() == old(self).order(),
                !self.loaded(lang.id()),
                !old(self).loaded(lang.id()),
                self.langs@ == old(self).langs@,
            decreases grams.len() - k,
        {
            if grams[k].1 > PENALTY {
                return Err(LoadError::ScoreOutOfRange);
            }
            k = k + 1;
        }
        let ghost gs = grams@.map(|_k: int, x: (Vec<char>, u64)| (x.0@, x.1));
        let ghost start = self.grams();
        self.langs.set(li, true);
        let mut k: usize = 0;
        while k < grams.len()
            invariant
                k <= grams.len(),
                li == lang.id(),
                li < LANG_COUNT,
                gs == grams@.map(|_k: int, x: (Vec<char>, u64)| (x.0@, x.1)),
                forall|a: int| 0 <= a < grams@.len() ==> (#[trigger] grams@[a]).1 <= PENALTY,
                self.grams() == add_all(start, lang, gs, k as nat),
                self.order() == old(self).order(),
                self.langs.len() == LANG_COUNT,
                self.langs@[li as int],
                grams_ok(self.grams()),
                self.langs_ok(),
                forall|g: Seq<char>| self.grams().contains_key(g) ==> only_last(#[trigger] self.grams()[g], lang),
            decreases grams.len() - k,
        {
            let key = grams[k].0.clone();
            let sc = grams[k].1;
            let ghost before = self.grams();
            assert(key@ == gs[k as int].0 && sc == gs[k as int].1);
            match self.dic.remove(&key) {
                Some(mut e) => {
                    let n = e.len();
                    assert(entry_ok(before[key@]));
                    if e[n - 1].0 == lang {
                        e.pop();
                    }
                    e.push((lang, sc));
                    self.dic.insert(key, e);
                },
                None => {
                    let mut e: Vec<(Lang, u64)> = Vec::new();
                    e.push((lang, sc));
                    self.dic.insert(key, e);
                },
            }
            proof {
                assert(self.grams() =~= add_pair(before, lang, gs[k as int].0, gs[k as int].1));
                let m = self.grams();
                let g0 = gs[k as int].0;
                assert forall|g: Seq<char>| m.contains_key(g) implies entry_ok(#[trigger] m[g]) && only_last(m[g], lang) by {
                    if g != g0 {
                        assert(m[g] == before[g]);
                    } else if before.contains_key(g0) {
                        let e = before[g0];
                        let ne = m[g0];
                        if e.last().0 == lang {
                            assert(ne == e.drop_last().push((lang, sc)));
                        } else {
                            assert(ne == e.push((lang, sc)));
                            assert(only_last(e, lang));
                        }
                    }
                }
                assert forall|g: Seq<char>, j: int|
                    m.contains_key(g) && 0 <= j < m[g].len() implies self.langs@[(#[trigger] m[g][j]).0.id() as int] by {
                    if g != g0 {
                        assert(m[g] == before[g]);
                    } else if before.contains_key(g0) {
                        let e = before[g0];
                        if j < m[g].len() - 1 {
                            assert(m[g][j] == e[j]);
                        }
                    }
                }
            }
            k = k + 1;
        }
        Ok(())
    }
}

/// All the scoring data: seven n-gram tables, slot `o` holding the table of
/// order `o`, and one confidence threshold per language.
pub struct Model {
    pub inner: Vec<ModelNgram>,
    pub confidence: Vec<u64>,
}

impl Model {
    /// Assembles a model from seven tables and the thresholds. Fails with
    /// `OrderMismatch` unless slot `o` holds the table tagged with order `o`,
    /// and with `Corrupt` unless there is one threshold per language.
    pub fn new(inner: Vec<ModelNgram>, confidence: Vec<u64>) -> (r: Result<Model, LoadError>)
        requires
            forall|o: int| 0 <= o < inner.len() ==> (#[trigger] inner[o]).wf(),
        ensures
            r matches Ok(m) ==> m.wf() && m.inner@ == inner@ && m.confidence@ == confidence@,
            r is Ok <==> (inner.len() == ORDER_COUNT && (forall|o: int|
                0 <= o < ORDER_COUNT ==> (#[trigger] inner[o]).order().id() == o) && confidence.len()
                == LANG_COUNT),
            r matches Err(e) ==> (e == LoadError::OrderMismatch || e == LoadError::Corrupt),
    {
        if inner.len() != ORDER_COUNT {
            return Err(LoadError::OrderMismatch);
        }
        let mut o: usize = 0;
        while o < ORDER_COUNT
            invariant
                o <= ORDER_COUNT,
                inner.len() == ORDER_COUNT,
                forall|k: int| 0 <= k < o ==> (#[trigger] inner[k]).order().id() == k,
            decreases ORDER_COUNT - o,
        {
            if inner[o].model_type().index() != o {
                return Err(LoadError::OrderMismatch);
            }
            o = o + 1;
        }
        if confidence.len() != LANG_COUNT {
            return Err(LoadError::Corrupt);
        }
        Ok(Model { inner, confidence })
    }

    /// Seven well-formed tables in order, and a threshold for every language.
    pub open spec fn wf(&self) -> bool {
        &&& self.inner.len() == ORDER_COUNT
        &&& forall|o: int| 0 <= o < ORDER_COUNT ==> (#[trigger] self.inner[o]).wf()
        &&& forall|o: int| 0 <= o < ORDER_COUNT ==> self.inner[o].order().id() == o
        &&& self.confidence.len() == LANG_COUNT
    }

    /// The contents of the seven tables, by order.
    pub open spec fn tables(&self) -> Seq<Grams> {
        Seq::new(ORDER_COUNT as nat, |o: int| self.inner[o].grams())
    }

    /// Threshold of each language, by index.
    pub open spec fn thresholds(&self) -> Seq<u64> {
        self.confidence@
    }
}

} // verus!
