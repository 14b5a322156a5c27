use heliport::text::{cjk_block_of, classify, is_cjk_block, prepare, space_cjk, split_words};

fn chars(s: &str) -> Vec<char> {
    s.chars().collect()
}

#[test]
fn cjk_blocks() {
    assert_eq!(is_cjk_block('中'), Ok(true));
    assert_eq!(is_cjk_block('。'), Ok(true));
    assert_eq!(is_cjk_block('a'), Ok(false));
    assert_eq!(is_cjk_block('한'), Ok(false));
    assert_eq!(is_cjk_block('か'), Ok(false));
    assert_eq!(cjk_block_of(Some(19968)), Ok(true));
    assert_eq!(cjk_block_of(Some(0)), Ok(false));
    assert_eq!(cjk_block_of(None), Err(()));
}

#[test]
fn prepare_lowercases_and_masks() {
    let p: String = prepare("Hola, ¿qué tal?").into_iter().collect();
    assert_eq!(p, "hola   qué tal ");
    let q: String = prepare("DOKUMENT NR [...]").into_iter().collect();
    assert_eq!(q, "dokument nr      ");
    let r: String = prepare("મજાક @K.").into_iter().collect();
    assert_eq!(r, "મજાક  k ");
}

#[test]
fn spacing_around_cjk() {
    let s = chars("ab中文cd");
    let f = classify(&s).unwrap();
    assert_eq!(f, vec![false, false, true, true, false, false]);
    let (out, cjk, len) = space_cjk(&s, &f);
    let out: String = out.into_iter().collect();
    assert_eq!(out, "ab 中文 cd");
    assert_eq!(cjk, 2);
    assert_eq!(len, 6);
}

#[test]
fn spacing_keeps_existing_spaces() {
    let s = chars("a 中 b");
    let f = vec![false, false, true, false, false];
    let (out, cjk, len) = space_cjk(&s, &f);
    let out: String = out.into_iter().collect();
    assert_eq!(out, "a 中 b");
    assert_eq!(cjk, 1);
    assert_eq!(len, 3);
}

#[test]
fn words_are_runs_without_spaces() {
    let w = split_words(&chars("  ab  c d "));
    assert_eq!(w, vec![chars("ab"), chars("c"), chars("d")]);
    assert!(split_words(&chars("   ")).is_empty());
    assert!(split_words(&chars("")).is_empty());
}
