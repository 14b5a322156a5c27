use heliport::builder::{languages_in_list, parse_model_file, parse_threshold, LoadError};
use heliport::model::Model;
use heliport::lang::{Lang, LANG_COUNT};
use heliport::parse::{parse_u64, split_lines};

fn chars(s: &str) -> Vec<char> {
    s.chars().collect()
}

#[test]
fn integers() {
    assert_eq!(parse_u64(&chars("42")), Some(42));
    assert_eq!(parse_u64(&chars("+7")), Some(7));
    assert_eq!(parse_u64(&chars("18446744073709551615")), Some(u64::MAX));
    assert_eq!(parse_u64(&chars("18446744073709551616")), None);
    assert_eq!(parse_u64(&chars("")), None);
    assert_eq!(parse_u64(&chars("4a")), None);
    assert_eq!(parse_u64(&chars("-1")), None);
}

#[test]
fn thresholds_in_billionths() {
    let t = |x: &str| parse_threshold(&chars(x));
    assert_eq!(t("0.25"), Some(250_000_000));
    assert_eq!(t("1"), Some(1_000_000_000));
    assert_eq!(t(".5"), Some(500_000_000));
    assert_eq!(t("2."), Some(2_000_000_000));
    assert_eq!(t("+0.5"), Some(500_000_000));
    assert_eq!(t("0.1234567891"), Some(123_456_789));
    assert_eq!(t("1e-3"), Some(1_000_000));
    assert_eq!(t("2.5E2"), Some(250_000_000_000));
    assert_eq!(t("1e+1"), Some(10_000_000_000));
    assert_eq!(t("5e-10"), Some(0));
    assert_eq!(t("1e30"), Some(u64::MAX));
    assert_eq!(t("1e99999999999999999999999"), Some(u64::MAX));
    assert_eq!(t("1e-99999999999999999999999"), Some(0));
    assert_eq!(t("0e50"), Some(0));
    assert_eq!(t("-0.5"), Some(0));
    assert_eq!(t("inf"), Some(u64::MAX));
    assert_eq!(t("+Infinity"), Some(u64::MAX));
    assert_eq!(t("-inf"), Some(0));
    assert_eq!(t("NaN"), Some(0));
    assert_eq!(t("."), None);
    assert_eq!(t("1e"), None);
    assert_eq!(t("e5"), None);
    assert_eq!(t("1.2.3"), None);
    assert_eq!(t("1e2e3"), None);
    assert_eq!(t("abc"), None);
}

#[test]
fn lines_drop_carriage_returns_and_final_break() {
    let ls = split_lines(&chars("a\r\nb\n\nc\n"));
    assert_eq!(ls, vec![chars("a"), chars("b"), chars(""), chars("c")]);
    assert!(split_lines(&chars("")).is_empty());
}

#[test]
fn retention_stops_at_cut_off() {
    // 10_000_000 features: a count is kept while count * 2_000_000 > 10_000_000.
    let text = "10000000\nde\t900\nla\t6\nel\t5\nzz\t900\n";
    let r = parse_model_file(text).unwrap();
    assert_eq!(r.grams, vec![(chars("de"), 900), (chars("la"), 6)]);
    assert_eq!(r.total, 906);
}

#[test]
fn lines_after_the_stop_are_not_read() {
    let r = parse_model_file("100\nab\t3\nxy\t0\nnot a line\n").unwrap();
    assert_eq!(r.grams, vec![(chars("ab"), 3)]);
    assert_eq!(r.total, 3);
}

#[test]
fn model_file_errors() {
    assert_eq!(parse_model_file("x\n").err(), Some(LoadError::Parse(0)));
    assert_eq!(parse_model_file("100\nab\n").err(), Some(LoadError::Parse(1)));
    assert_eq!(parse_model_file("100\nab\t3\ncd\tq\n").err(), Some(LoadError::Parse(2)));
    let empty = parse_model_file("").unwrap();
    assert!(empty.grams.is_empty());
}

#[test]
fn thresholds_lenient() {
    let th = Model::load_confidence("spa_Latn\t0.5\ncat_Latn\t1.25\neng_Latn\t1e-3\u{a0}\n\n", false).unwrap();
    assert_eq!(th.len(), LANG_COUNT);
    assert_eq!(th[Lang::spa_Latn.index()], 500_000_000);
    assert_eq!(th[Lang::cat_Latn.index()], 1_250_000_000);
    assert_eq!(th[Lang::eng_Latn.index()], 1_000_000);
    assert_eq!(th[Lang::fra_Latn.index()], 0);
    assert_eq!(th[Lang::und.index()], 0);
}

#[test]
fn thresholds_errors() {
    assert_eq!(Model::load_confidence("spa_Latn\t0.5\nxxx_Latn\t1\n", false).err(), Some(LoadError::UnknownLang(1)));
    assert_eq!(Model::load_confidence("spa_Latn 0.5\n", false).err(), Some(LoadError::Parse(0)));
    assert_eq!(Model::load_confidence("spa_Latn\tabc\n", false).err(), Some(LoadError::Parse(0)));
    assert_eq!(
        Model::load_confidence("spa_Latn\t0.5\n", true).err(),
        Some(LoadError::MissingThreshold(Lang::ace_Arab.index()))
    );
}

#[test]
fn thresholds_strict_complete() {
    let mut text = String::new();
    for i in 0..LANG_COUNT {
        let l = Lang::from_index(i).unwrap();
        if l.collapse() == l && !l.is_special() {
            text.push_str(l.code());
            text.push_str("\t0.1\n");
        }
    }
    let th = Model::load_confidence(&text, true).unwrap();
    assert_eq!(th[Lang::spa_Latn.index()], 100_000_000);
    assert_eq!(th[Lang::zxx.index()], 0);
}

#[test]
fn language_list_filter() {
    let langs = languages_in_list("spa_latn\ncat_latn\nund\nxyz\nENG_LATN\n");
    assert_eq!(langs, vec![Lang::cat_Latn, Lang::spa_Latn]);
    assert!(languages_in_list("").is_empty());
}
