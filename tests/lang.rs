use heliport::lang::{Lang, LANG_COUNT};

#[test]
fn collapse_is_idempotent_for_every_code() {
    for i in 0..LANG_COUNT {
        let l = Lang::from_index(i).unwrap();
        assert_eq!(l.collapse().collapse(), l.collapse());
    }
}

#[test]
fn macrolang_examples() {
    assert_eq!(Lang::ltg_Latn.macrolang(), Lang::lav_Latn);
    assert_eq!(Lang::lvs_Latn.macrolang(), Lang::lav_Latn);
    assert_eq!(Lang::yue_Hant.macrolang(), Lang::zho_Hant);
    assert_eq!(Lang::sqi_Latn.macrolang(), Lang::als_Latn);
    assert_eq!(Lang::spa_Latn.macrolang(), Lang::spa_Latn);
    assert_eq!(Lang::taq_Latn.collapse(), Lang::taq_Latn);
}

#[test]
fn cjk_codes() {
    let cjk: Vec<Lang> = (0..LANG_COUNT)
        .map(|i| Lang::from_index(i).unwrap())
        .filter(|l| l.is_cjk())
        .collect();
    assert_eq!(
        cjk,
        vec![Lang::cmn_Hans, Lang::cmn_Hant, Lang::jpn_Jpan, Lang::kor_Hang, Lang::yue_Hant, Lang::zho_Hant]
    );
}

#[test]
fn reserved_codes() {
    assert!(Lang::und.is_special());
    assert!(Lang::zxx.is_special());
    assert!(!Lang::eng_Latn.is_special());
}

#[test]
fn codes_round_trip() {
    for i in 0..LANG_COUNT {
        let l = Lang::from_index(i).unwrap();
        assert_eq!(l.index(), i);
        assert_eq!(Lang::from_code(l.code()), Some(l));
    }
    assert_eq!(Lang::from_code("spa_Latn"), Some(Lang::spa_Latn));
    assert_eq!(Lang::from_code("notalang"), None);
    assert_eq!(Lang::from_index(LANG_COUNT), None);
}
