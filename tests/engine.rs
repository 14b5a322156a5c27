use std::sync::Arc;

use heliport::builder::LoadError;
use heliport::identifier::Identifier;
use heliport::lang::{Lang, LANG_COUNT};
use heliport::model::{Model, ModelNgram, OrderNgram};
use heliport::table::PENALTY;

const B: u64 = 1_000_000_000;

fn chars(s: &str) -> Vec<char> {
    s.chars().collect()
}

fn grams(list: &[(&str, u64)]) -> Vec<(Vec<char>, u64)> {
    list.iter().map(|(g, s)| (chars(g), *s)).collect()
}

/// Word table: "hola" for Spanish and Catalan, "aigua" for Catalan.
/// Trigram table: " ho", "hol" for Spanish.
fn small_model(thresholds: Vec<u64>) -> Model {
    let mut tables = Vec::new();
    for o in 0..7 {
        let order = OrderNgram::from_index(o).unwrap();
        let mut t = ModelNgram::new(order);
        if o == 0 {
            t.add_language(Lang::spa_Latn, &grams(&[("hola", B)])).unwrap();
            t.add_language(Lang::cat_Latn, &grams(&[("hola", 2 * B), ("aigua", B)])).unwrap();
        }
        if o == 3 {
            t.add_language(Lang::spa_Latn, &grams(&[(" ho", B), ("hol", 3 * B)])).unwrap();
        }
        if o == 1 {
            t.add_language(Lang::cmn_Hans, &grams(&[("中", B / 2)])).unwrap();
            t.add_language(Lang::jpn_Jpan, &grams(&[("中", B)])).unwrap();
        }
        tables.push(t);
    }
    Model::new(tables, thresholds).unwrap()
}

fn zero_thresholds() -> Vec<u64> {
    vec![0; LANG_COUNT]
}

#[test]
fn word_lookup_scores() {
    let mut id = Identifier::new(Arc::new(small_model(zero_thresholds())), true);
    assert_eq!(id.identify("Hola"), (Lang::spa_Latn, B));
    let top = id.identify_topk("hola", 3);
    assert_eq!(top, vec![(Lang::spa_Latn, B), (Lang::cat_Latn, 2 * B), (Lang::ace_Arab, PENALTY)]);
}

#[test]
fn gap_and_confidence() {
    let mut id = Identifier::new(Arc::new(small_model(zero_thresholds())), false);
    assert_eq!(id.identify("hola"), (Lang::spa_Latn, B));
    let mut th = zero_thresholds();
    th[Lang::spa_Latn.index()] = 2 * B;
    let mut strict = Identifier::new(Arc::new(small_model(th)), false);
    assert_eq!(strict.identify("hola"), (Lang::und, B));
    strict.disable_confidence();
    assert_eq!(strict.identify("hola"), (Lang::spa_Latn, B));
    assert_eq!(strict.with_confidence().identify("hola"), (Lang::und, B));
    assert_eq!(strict.without_confidence().identify("hola"), (Lang::spa_Latn, B));
}

#[test]
fn lowering_a_threshold_keeps_a_label() {
    let mut th = zero_thresholds();
    th[Lang::spa_Latn.index()] = B / 2;
    let mut high = Identifier::new(Arc::new(small_model(th)), false);
    let kept = high.identify("hola");
    assert_eq!(kept.0, Lang::spa_Latn);
    let mut low = Identifier::new(Arc::new(small_model(zero_thresholds())), false);
    assert_eq!(low.identify("hola"), kept);
}

#[test]
fn grams_when_word_unknown() {
    // " hos " has trigrams " ho", "hos", "os "; only " ho" is listed, for Spanish.
    let mut id = Identifier::new(Arc::new(small_model(zero_thresholds())), true);
    let top = id.identify_topk("hos", 2);
    assert_eq!(top, vec![(Lang::spa_Latn, B), (Lang::ace_Arab, PENALTY)]);
}

#[test]
fn mean_over_words_and_grams() {
    // "hola" gives Spanish 1 and Catalan 2; "hol" has trigrams " ho" and "hol",
    // so Spanish gets (1 + 3) / 2 = 2 and Catalan (7 + 7) / 2 = 7.
    let mut id = Identifier::new(Arc::new(small_model(zero_thresholds())), true);
    let top = id.identify_topk("hola hol", 2);
    assert_eq!(top, vec![(Lang::spa_Latn, 3 * B / 2), (Lang::cat_Latn, 9 * B / 2)]);
}

#[test]
fn nothing_to_score() {
    let mut id = Identifier::new(Arc::new(small_model(zero_thresholds())), false);
    assert_eq!(id.identify(""), (Lang::und, PENALTY));
    assert_eq!(id.identify("123 !!"), (Lang::und, PENALTY));
    assert_eq!(id.identify_topk("", 5), vec![(Lang::und, PENALTY)]);
}

#[test]
fn unknown_words_tie_and_first_wins() {
    let mut id = Identifier::new(Arc::new(small_model(zero_thresholds())), true);
    assert_eq!(id.identify("zzzz"), (Lang::ace_Arab, 0));
    assert_eq!(id.identify_topk("zzzz", 1), vec![(Lang::ace_Arab, 0)]);
}

#[test]
fn cjk_majority_penalises_other_scripts() {
    let mut id = Identifier::new(Arc::new(small_model(zero_thresholds())), true);
    let top = id.identify_topk("中中", LANG_COUNT);
    assert_eq!(top[0], (Lang::cmn_Hans, B / 2));
    assert_eq!(top[1], (Lang::jpn_Jpan, B));
    for (l, s) in &top {
        if !l.is_cjk() {
            assert_eq!(*s, PENALTY + 1);
        }
        assert!(*s <= PENALTY + 1);
    }
    assert_eq!(id.identify("中中"), (Lang::cmn_Hans, B / 2));
}

#[test]
fn ranking_prefixes() {
    let mut id = Identifier::new(Arc::new(small_model(zero_thresholds())), true);
    let all = id.identify_topk("hola aigua", LANG_COUNT);
    assert_eq!(all.len(), LANG_COUNT);
    for k in 1..12 {
        assert_eq!(id.identify_topk("hola aigua", k), all[..k].to_vec());
    }
    assert!(id.identify_topk("hola", 0).is_empty());
}

#[test]
fn first_ranked_is_the_winner() {
    let mut id = Identifier::new(Arc::new(small_model(zero_thresholds())), true);
    for text in ["hola", "aigua", "hos", "中", "zzzz"] {
        let top = id.identify_topk(text, 1);
        assert_eq!(id.identify(text).0, top[0].0.collapse());
    }
}

#[test]
fn independent_engines_agree() {
    let model = Arc::new(small_model(zero_thresholds()));
    let mut a = Identifier::new(model.clone(), false);
    let mut b = Identifier::new(model, false);
    for text in ["hola", "Hola, ¿qué tal?", "中文", "", "aigua clara"] {
        assert_eq!(a.identify(text), b.identify(text));
        assert_eq!(a.identify(text), a.identify(text));
    }
}

#[test]
fn adding_a_language_twice_fails() {
    let mut t = ModelNgram::new(OrderNgram::Word);
    t.add_language(Lang::spa_Latn, &grams(&[("a", B)])).unwrap();
    assert_eq!(
        t.add_language(Lang::spa_Latn, &grams(&[("b", B)])),
        Err(LoadError::LangAlreadyLoaded(Lang::spa_Latn.index()))
    );
    assert_eq!(t.add_language(Lang::cat_Latn, &grams(&[("b", PENALTY + 1)])), Err(LoadError::ScoreOutOfRange));
    assert_eq!(t.len(), 1);
    assert!(!t.contains(&chars("b")));
}

#[test]
fn repeated_gram_keeps_last_score() {
    let mut t = ModelNgram::new(OrderNgram::Word);
    t.add_language(Lang::spa_Latn, &grams(&[("a", B), ("a", 2 * B)])).unwrap();
    t.add_language(Lang::cat_Latn, &grams(&[("a", 3 * B)])).unwrap();
    assert_eq!(t.lookup(&chars("a")).unwrap(), &vec![(Lang::spa_Latn, 2 * B), (Lang::cat_Latn, 3 * B)]);
}

#[test]
fn snapshot_round_trip() {
    let mut t = ModelNgram::new(OrderNgram::Trigram);
    t.add_language(Lang::spa_Latn, &grams(&[("ión", 2 * B + 7), (" de", B)])).unwrap();
    t.add_language(Lang::cat_Latn, &grams(&[("ión", 5), ("ció", 4 * B)])).unwrap();
    let bytes = t.save().unwrap();
    assert_eq!(bytes[0], 3);
    let back = ModelNgram::from_bin(&bytes, OrderNgram::Trigram).unwrap();
    assert_eq!(back.len(), t.len());
    assert_eq!(back.model_type(), OrderNgram::Trigram);
    for g in ["ión", " de", "ció", "xyz"] {
        assert_eq!(back.lookup(&chars(g)), t.lookup(&chars(g)));
    }
}

#[test]
fn snapshot_errors() {
    let mut t = ModelNgram::new(OrderNgram::Word);
    t.add_language(Lang::spa_Latn, &grams(&[("hola", B)])).unwrap();
    let bytes = t.save().unwrap();
    assert_eq!(ModelNgram::from_bin(&bytes, OrderNgram::Bigram).err(), Some(LoadError::OrderMismatch));
    assert_eq!(ModelNgram::from_bin(&bytes[..bytes.len() - 1].to_vec(), OrderNgram::Word).err(), Some(LoadError::Corrupt));
    let mut longer = bytes.clone();
    longer.push(0);
    assert_eq!(ModelNgram::from_bin(&longer, OrderNgram::Word).err(), Some(LoadError::Corrupt));
    assert_eq!(ModelNgram::from_bin(&Vec::new(), OrderNgram::Word).err(), Some(LoadError::Corrupt));
}

#[test]
fn model_slots_must_match_orders() {
    let mut tables = Vec::new();
    for o in 0..7 {
        tables.push(ModelNgram::new(OrderNgram::from_index(6 - o).unwrap()));
    }
    assert_eq!(Model::new(tables, zero_thresholds()).err(), Some(LoadError::OrderMismatch));
    let mut tables = Vec::new();
    for o in 0..7 {
        tables.push(ModelNgram::new(OrderNgram::from_index(o).unwrap()));
    }
    assert_eq!(Model::new(tables, vec![0; 3]).err(), Some(LoadError::Corrupt));
}

#[test]
fn scoring_steps_in_turn() {
    let mut th = zero_thresholds();
    th[Lang::spa_Latn.index()] = 2 * B;
    let mut id = Identifier::new(Arc::new(small_model(th)), false);
    assert!(id.score_langs("hola"));
    assert_eq!(id.pick_winner(), (Lang::und, B));
    assert_eq!(id.rank_langs(2), vec![(Lang::spa_Latn, B), (Lang::cat_Latn, 2 * B)]);
    assert!(!id.score_langs("?!"));
    assert_eq!(id.rank_langs(1), vec![(Lang::spa_Latn, B)]);
}
