use vstd::prelude::*;
use crate::parse::{digits_value, is_digit, lines, parse_u64, parse_u64_spec, split_chars, split_lines, split_on};
use crate::lang::{code_lookup, lang_at, same_chars, Lang, LANG_COUNT};
use crate::model::Model;
use crate::text::{chars_of, lowercase_of, to_lower};

verus! {

/// Retention cut-off: a gram is kept while its count exceeds the total count
/// of features divided by this (a share of 5e-7).
pub const MAX_USED_INVERSE: u64 = 2_000_000;

/// Why a model could not be built or loaded.
#[derive(Clone, Copy, PartialEq, Eq, Structural, Debug)]
pub enum LoadError {
    /// A line that does not parse, counting from zero.
    Parse(usize),
    /// A language code that does not exist, on the given line.
    UnknownLang(usize),
    /// A language without a confidence threshold, in strict mode; its index.
    MissingThreshold(usize),
    /// Grams of a language that the table already holds; its index.
    LangAlreadyLoaded(usize),
    /// A score above the penalty.
    ScoreOutOfRange,
    /// A snapshot tagged with another order than its slot.
    OrderMismatch,
    /// A snapshot that does not decode.
    Corrupt,
    /// A gram too long to write in a snapshot.
    GramTooLong,
}

/// Grams kept from one frequency file, in file order, and the sum of their counts.
pub struct Retained {
    pub grams: Vec<(Vec<char>, u64)>,
    pub total: u128,
}

/// State after reading the first `n` lines of a frequency file whose first
/// line gave `nf`: grams kept, their count sum, and whether reading stopped.
/// An error gives the line that does not parse.
pub open spec fn retained_upto(ls: Seq<Seq<char>>, nf: u64, n: nat) -> Result<(Seq<(Seq<char>, u64)>, nat, bool), nat>
    decreases n,
{
    if n <= 1 {
        Ok((Seq::empty(), 0, false))
    } else {
        match retained_upto(ls, nf, (n - 1) as nat) {
            Err(e) => Err(e),
            Ok((gs, tot, stop)) => if stop {
                Ok((gs, tot, true))
            } else {
                let f = split_on(ls[n - 1], '\t');
                if f.len() < 2 {
                    Err((n - 1) as nat)
                } else {
                    match parse_u64_spec(f[1]) {
                        None => Err((n - 1) as nat),
                        Some(a) => if a as nat * MAX_USED_INVERSE > nf as nat {
                            Ok((gs.push((f[0], a)), (tot + a) as nat, false))
                        } else {
                            Ok((gs, tot, true))
                        },
                    }
                }
            },
        }
    }
}

/// A frequency file read: its first line is the number of features; each
/// further line is `gram<TAB>count`. Lines are kept while the count is above
/// the cut-off; reading stops at the first that is not, and later lines are
/// not looked at. Gives the kept grams and their count sum, or the line that
/// does not parse.
pub open spec fn model_file(s: Seq<char>) -> Result<(Seq<(Seq<char>, u64)>, nat), nat> {
    let ls = lines(s);
    if ls.len() == 0 {
        Ok((Seq::empty(), 0))
    } else {
        match parse_u64_spec(ls[0]) {
            None => Err(0),
            Some(nf) => match retained_upto(ls, nf, ls.len()) {
                Ok((gs, tot, _)) => Ok((gs, tot)),
                Err(e) => Err(e),
            },
        }
    }
}

/// The count sum after `n` lines is at most `n` times the largest count.
proof fn lemma_retained_total(ls: Seq<Seq<char>>, nf: u64, n: nat)
    ensures
        retained_upto(ls, nf, n) matches Ok((gs, tot, _)) ==> tot <= n * u64::MAX,
    decreases n,
{
    if n > 1 {
        lemma_retained_total(ls, nf, (n - 1) as nat);
        assert(n * u64::MAX == (n - 1) * u64::MAX + u64::MAX) by (nonlinear_arith)
            requires
                n >= 1,
        ;
    }
}

/// Once reading has stopped or failed, later lines change nothing.
proof fn lemma_retained_stopped(ls: Seq<Seq<char>>, nf: u64, s: nat, n: nat)
    requires
        1 <= s <= n,
        retained_upto(ls, nf, s) matches Ok((_, _, stop)) ==> stop,
    ensures
        retained_upto(ls, nf, n) == retained_upto(ls, nf, s),
    decreases n,
{
    if n > s {
        lemma_retained_stopped(ls, nf, s, (n - 1) as nat);
    }
}

/// Reads a frequency file as `model_file` describes.
pub fn parse_model_file(text: &str) -> (r: Result<Retained, LoadError>)
    ensures
        match (r, model_file(text@)) {
            (Ok(x), Ok((gs, tot))) => x.total == tot && x.grams@.len() == gs.len() && forall|k: int|
                0 <= k < gs.len() ==> (#[trigger] x.grams@[k]).0@ == gs[k].0 && x.grams@[k].1 == gs[k].1,
            (Err(LoadError::Parse(l)), Err(e)) => l == e,
            _ => false,
        },
{
    let chars = chars_of(text);
    let ls = split_lines(&chars);
    let ghost lsq = lines(text@);
    let mut grams: Vec<(Vec<char>, u64)> = Vec::new();
    if ls.len() == 0 {
        return Ok(Retained { grams, total: 0 });
    }
    let nf = match parse_u64(&ls[0]) {
        Some(v) => v,
        None => {
            return Err(LoadError::Parse(0));
        },
    };
    assert(ls@[0]@ == lsq[0]);
    let mut total: u128 = 0;
    let mut i: usize = 1;
    while i < ls.len()
        invariant
            1 <= i <= ls.len(),
            lsq == lines(text@),
            parse_u64_spec(lsq[0]) == Some(nf),
            ls@.len() == lsq.len(),
            forall|k: int| 0 <= k < ls@.len() ==> #[trigger] ls@[k]@ == lsq[k],
            retained_upto(lsq, nf, i as nat) matches Ok((gs, tot, stop)) && !stop && tot == total
                && grams@.len() == gs.len() && forall|k: int|
                0 <= k < gs.len() ==> (#[trigger] grams@[k]).0@ == gs[k].0 && grams@[k].1 == gs[k].1,
        decreases ls.len() - i,
    {
        let fields = split_chars(&ls[i], '\t');
        let ghost f = split_on(lsq[i as int], '\t');
        assert(ls@[i as int]@ == lsq[i as int]);
        assert(fields@.len() == f.len());
        if fields.len() < 2 {
            proof {
                assert(retained_upto(lsq, nf, (i + 1) as nat) == Err::<(Seq<(Seq<char>, u64)>, nat, bool), nat>(i as nat));
                lemma_retained_stopped(lsq, nf, (i + 1) as nat, lsq.len());
            }
            return Err(LoadError::Parse(i));
        }
        let amount = match parse_u64(&fields[1]) {
            Some(a) => a,
            None => {
                proof {
                    lemma_retained_stopped(lsq, nf, (i + 1) as nat, lsq.len());
                }
                return Err(LoadError::Parse(i));
            },
        };
        if (amount as u128) * (MAX_USED_INVERSE as u128) > nf as u128 {
            proof {
                lemma_retained_total(lsq, nf, i as nat);
                assert(i * u64::MAX + u64::MAX <= u128::MAX) by (nonlinear_arith)
                    requires
                        i <= usize::MAX,
                ;
            }
            let gram = fields[0].clone();
            grams.push((gram, amount));
            total = total + amount as u128;
            i = i + 1;
        } else {
            proof {
                assert(fields@[1]@ == f[1]);
                assert(retained_upto(lsq, nf, (i + 1) as nat) matches Ok((_, _, stop)) && stop);
                lemma_retained_stopped(lsq, nf, (i + 1) as nat, lsq.len());
            }
            return Ok(Retained { grams, total });
        }
    }
    Ok(Retained { grams, total })
}

} // verus!

verus! {

/// Ten to the power `n`.
pub open spec fn pow10(n: nat) -> nat
    decreases n,
{
    if n == 0 {
        1
    } else {
        10 * pow10((n - 1) as nat)
    }
}

proof fn lemma_pow10_mono(a: nat, b: nat)
    requires
        a <= b,
    ensures
        pow10(a) <= pow10(b),
    decreases b,
{
    if a < b {
        lemma_pow10_mono(a, (b - 1) as nat);
    }
}

/// All characters are decimal digits.
pub open spec fn all_digits(s: Seq<char>) -> bool {
    forall|i: int| 0 <= i < s.len() ==> is_digit(#[trigger] s[i])
}

} // verus!

verus! {

/// Characters dropped from the end of a line: Unicode white space.
pub open spec fn is_trailing_space(c: char) -> bool {
    ('\u{9}' <= c && c <= '\u{d}') || c == ' ' || c == '\u{85}' || c == '\u{a0}' || c == '\u{1680}'
        || ('\u{2000}' <= c && c <= '\u{200a}') || c == '\u{2028}' || c == '\u{2029}' || c == '\u{202f}'
        || c == '\u{205f}' || c == '\u{3000}'
}

/// Whether `c` is Unicode white space.
fn is_white(c: char) -> (r: bool)
    ensures
        r == is_trailing_space(c),
{
    ('\u{9}' <= c && c <= '\u{d}') || c == ' ' || c == '\u{85}' || c == '\u{a0}' || c == '\u{1680}'
        || ('\u{2000}' <= c && c <= '\u{200a}') || c == '\u{2028}' || c == '\u{2029}' || c == '\u{202f}'
        || c == '\u{205f}' || c == '\u{3000}'
}

/// A text without its trailing white space.
pub open spec fn trim_end(s: Seq<char>) -> Seq<char>
    decreases s.len(),
{
    if s.len() > 0 && is_trailing_space(s.last()) {
        trim_end(s.drop_last())
    } else {
        s
    }
}

/// Drops trailing white space.
pub fn trim_end_chars(s: &Vec<char>) -> (r: Vec<char>)
    ensures
        r@ == trim_end(s@),
{
    let mut n: usize = s.len();
    assert(s@.take(n as int) =~= s@);
    while n > 0 && is_white(s[n - 1])
        invariant
            n <= s.len(),
            trim_end(s@.take(n as int)) == trim_end(s@),
        decreases n,
    {
        assert(s@.take(n as int).drop_last() =~= s@.take(n - 1));
        n = n - 1;
    }
    let mut r: Vec<char> = Vec::new();
    let mut i: usize = 0;
    while i < n
        invariant
            i <= n <= s.len(),
            r@ == s@.take(i as int),
        decreases n - i,
    {
        r.push(s[i]);
        i = i + 1;
        assert(r@ =~= s@.take(i as int));
    }
    proof {
        if n == s.len() {
            assert(s@.take(n as int) =~= s@);
        }
    }
    r
}

/// Thresholds and loaded flags, by language index, after the first `n`
/// lines of a thresholds file; or the error of the first bad line.
pub open spec fn conf_upto(ls: Seq<Seq<char>>, n: nat) -> Result<(Seq<u64>, Seq<bool>), LoadError>
    decreases n,
{
    if n == 0 {
        Ok((Seq::new(LANG_COUNT as nat, |_i: int| 0u64), Seq::new(LANG_COUNT as nat, |_i: int| false)))
    } else {
        match conf_upto(ls, (n - 1) as nat) {
            Err(e) => Err(e),
            Ok((th, ld)) => {
                let parts = split_on(trim_end(ls[n - 1]), '\t');
                if parts.len() != 2 {
                    Err(LoadError::Parse((n - 1) as usize))
                } else {
                    match code_lookup(parts[0], LANG_COUNT as nat) {
                        None => Err(LoadError::UnknownLang((n - 1) as usize)),
                        Some(l) => match threshold_units(parts[1]) {
                            None => Err(LoadError::Parse((n - 1) as usize)),
                            Some(v) => Ok((th.update(l.id() as int, v), ld.update(l.id() as int, true))),
                        },
                    }
                }
            },
        }
    }
}

/// Index of the first collapsed, non-reserved language without a threshold,
/// going through the first `n` languages.
pub open spec fn first_missing(ld: Seq<bool>, n: nat) -> Option<nat>
    decreases n,
{
    if n == 0 {
        None
    } else {
        match first_missing(ld, (n - 1) as nat) {
            Some(x) => Some(x),
            None => {
                let c = lang_at(n - 1).macro_of();
                if !c.special() && !ld[c.id() as int] {
                    Some(c.id())
                } else {
                    None
                }
            },
        }
    }
}

/// A thresholds file read: after trailing blanks are dropped, one line
/// `code<TAB>threshold` per language. `und` and `zxx` get zero, languages
/// not listed get zero, and in strict mode every collapsed language must be listed.
pub open spec fn thresholds_file(s: Seq<char>, strict: bool) -> Result<Seq<u64>, LoadError> {
    let ls = split_on(trim_end(s), '\n');
    match conf_upto(ls, ls.len()) {
        Err(e) => Err(e),
        Ok((th, ld)) => if strict && first_missing(ld, LANG_COUNT as nat) is Some {
            Err(LoadError::MissingThreshold(first_missing(ld, LANG_COUNT as nat)->0 as usize))
        } else {
            Ok(th.update(Lang::und.id() as int, 0).update(Lang::zxx.id() as int, 0))
        },
    }
}

impl Model {
    /// Reads confidence thresholds, in billionths by language index, as
    /// `thresholds_file` describes; each threshold as `threshold_units` reads it.
    pub fn load_confidence(text: &str, strict: bool) -> (r: Result<Vec<u64>, LoadError>)
        ensures
            match (r, thresholds_file(text@, strict)) {
                (Ok(v), Ok(t)) => v@ == t,
                (Err(e), Err(f)) => e == f,
                _ => false,
            },
    {
        let chars = chars_of(text);
        let trimmed = trim_end_chars(&chars);
        let ls = split_chars(&trimmed, '\n');
        let ghost lsq = split_on(trim_end(text@), '\n');
        let mut th: Vec<u64> = Vec::new();
        let mut ld: Vec<bool> = Vec::new();
        let mut i: usize = 0;
        while i < LANG_COUNT
            invariant
                i <= LANG_COUNT,
                th.len() == i,
                ld.len() == i,
                forall|k: int| 0 <= k < i ==> th[k] == 0 && !ld[k],
            decreases LANG_COUNT - i,
        {
            th.push(0);
            ld.push(false);
            i = i + 1;
        }
        assert(th@ =~= Seq::new(LANG_COUNT as nat, |_i: int| 0u64));
        assert(ld@ =~= Seq::new(LANG_COUNT as nat, |_i: int| false));
        let mut n: usize = 0;
        while n < ls.len()
            invariant
                n <= ls.len(),
                lsq == split_on(trim_end(text@), '\n'),
                ls@.len() == lsq.len(),
                forall|k: int| 0 <= k < ls@.len() ==> #[trigger] ls@[k]@ == lsq[k],
                conf_upto(lsq, n as nat) == Ok::<(Seq<u64>, Seq<bool>), LoadError>((th@, ld@)),
                th.len() == LANG_COUNT,
                ld.len() == LANG_COUNT,
            decreases ls.len() - n,
        {
            let line = trim_end_chars(&ls[n]);
            let parts = split_chars(&line, '\t');
            let ghost pq = split_on(trim_end(lsq[n as int]), '\t');
            assert(parts@.len() == pq.len());
            if parts.len() != 2 {
                proof {
                    lemma_conf_err(lsq, (n + 1) as nat, lsq.len());
                }
                return Err(LoadError::Parse(n));
            }
            assert(parts@[0]@ == pq[0] && parts@[1]@ == pq[1]);
            let lang = match Lang::from_code_chars(&parts[0]) {
                Some(l) => l,
                None => {
                    proof {
                        lemma_conf_err(lsq, (n + 1) as nat, lsq.len());
                    }
                    return Err(LoadError::UnknownLang(n));
                },
            };
            let v = match parse_threshold(&parts[1]) {
                Some(v) => v,
                None => {
                    proof {
                        lemma_conf_err(lsq, (n + 1) as nat, lsq.len());
                    }
                    return Err(LoadError::Parse(n));
                },
            };
            let li = lang.index();
            proof {
                lang.lemma_id();
            }
            th.set(li, v);
            ld.set(li, true);
            n = n + 1;
        }
        proof {
            assert(ls@.len() == lsq.len());
        }
        if strict {
            let mut i: usize = 0;
            while i < LANG_COUNT
                invariant
                    i <= LANG_COUNT,
                    ld.len() == LANG_COUNT,
                    th.len() == LANG_COUNT,
                    lsq == split_on(trim_end(text@), '\n'),
                    conf_upto(lsq, lsq.len()) == Ok::<(Seq<u64>, Seq<bool>), LoadError>((th@, ld@)),
                    first_missing(ld@, i as nat) is None,
                    strict,
                decreases LANG_COUNT - i,
            {
                match collapsed_missing(&ld, i) {
                    Some(ci) => {
                        proof {
                            assert(first_missing(ld@, (i + 1) as nat) == Some(ci as nat));
                            lemma_missing_found(ld@, (i + 1) as nat, LANG_COUNT as nat);
                        }
                        return Err(LoadError::MissingThreshold(ci));
                    },
                    None => {},
                }
                i = i + 1;
            }
        }
        let und = Lang::und.index();
        let zxx = Lang::zxx.index();
        th.set(und, 0);
        th.set(zxx, 0);
        Ok(th)
    }
}

/// The index of the collapsed form of language `i` when it is not reserved
/// and has no threshold.
fn collapsed_missing(ld: &Vec<bool>, i: usize) -> (r: Option<usize>)
    requires
        ld.len() == LANG_COUNT,
        i < LANG_COUNT,
    ensures
        r == (if !lang_at(i as int).macro_of().special() && !ld@[lang_at(i as int).macro_of().id() as int] {
            Some(lang_at(i as int).macro_of().id() as usize)
        } else {
            None::<usize>
        }),
{
    proof {
        Lang::lemma_from_id(i);
    }
    let lang = match Lang::from_index(i) {
        Some(l) => l,
        None => Lang::und,
    };
    let c = lang.collapse();
    let ci = c.index();
    proof {
        c.lemma_id();
    }
    if !c.is_special() && !ld[ci] {
        Some(ci)
    } else {
        None
    }
}

/// Once a line fails, the file fails with that line's error.
proof fn lemma_conf_err(ls: Seq<Seq<char>>, s: nat, n: nat)
    requires
        s <= n,
        conf_upto(ls, s) is Err,
    ensures
        conf_upto(ls, n) == conf_upto(ls, s),
    decreases n,
{
    if n > s {
        lemma_conf_err(ls, s, (n - 1) as nat);
    }
}

/// A missing language found early stays the first one found.
proof fn lemma_missing_found(ld: Seq<bool>, s: nat, n: nat)
    requires
        s <= n,
        first_missing(ld, s) is Some,
    ensures
        first_missing(ld, n) == first_missing(ld, s),
    decreases n,
{
    if n > s {
        lemma_missing_found(ld, s, (n - 1) as nat);
    }
}

} // verus!

verus! {

/// Whether some line is exactly `s`.
pub open spec fn has_line(ls: Seq<Seq<char>>, s: Seq<char>) -> bool {
    exists|k: int| 0 <= k < ls.len() && ls[k] == s
}

/// Of the first `n` languages, in index order, the non-reserved ones whose
/// lower-cased code is a line of `ls`.
pub open spec fn listed_upto(ls: Seq<Seq<char>>, n: nat) -> Seq<Lang>
    decreases n,
{
    if n == 0 {
        Seq::empty()
    } else {
        let prev = listed_upto(ls, (n - 1) as nat);
        let l = lang_at(n - 1);
        if !l.special() && has_line(ls, lowercase_of(l.code_str()@)) {
            prev.push(l)
        } else {
            prev
        }
    }
}

/// The languages a language list names, one lower-case code per line, in
/// index order; reserved codes are left out.
pub fn languages_in_list(text: &str) -> (r: Vec<Lang>)
    ensures
        r@ == listed_upto(split_on(text@, '\n'), LANG_COUNT as nat),
{
    let chars = chars_of(text);
    let ls = split_chars(&chars, '\n');
    let ghost lsq = split_on(text@, '\n');
    let mut out: Vec<Lang> = Vec::new();
    let mut i: usize = 0;
    while i < LANG_COUNT
        invariant
            i <= LANG_COUNT,
            lsq == split_on(text@, '\n'),
            ls@.len() == lsq.len(),
            forall|k: int| 0 <= k < ls@.len() ==> #[trigger] ls@[k]@ == lsq[k],
            out@ == listed_upto(lsq, i as nat),
        decreases LANG_COUNT - i,
    {
        proof {
            Lang::lemma_from_id(i);
        }
        let lang = match Lang::from_index(i) {
            Some(l) => l,
            None => Lang::und,
        };
        if !lang.is_special() {
            let lowered = to_lower(lang.code());
            let code = chars_of(lowered.as_str());
            let mut found = false;
            let mut k: usize = 0;
            while k < ls.len()
                invariant
                    k <= ls.len(),
                    ls@.len() == lsq.len(),
                    forall|a: int| 0 <= a < ls@.len() ==> #[trigger] ls@[a]@ == lsq[a],
                    found == exists|a: int| 0 <= a < k && lsq[a] == code@,
                decreases ls.len() - k,
            {
                if same_chars(&ls[k], &code) {
                    found = true;
                }
                k = k + 1;
            }
            if found {
                out.push(lang);
            }
        }
        i = i + 1;
    }
    out
}

} // verus!

verus! {

/// The largest value a threshold is held at.
pub open spec fn sat(x: nat) -> u64 {
    if x > u64::MAX {
        u64::MAX
    } else {
        x as u64
    }
}

/// A leading sign taken off: whether it was `-`, and the rest.
pub open spec fn sign_of(s: Seq<char>) -> (bool, Seq<char>) {
    if s.len() > 0 && s[0] == '-' {
        (true, s.drop_first())
    } else if s.len() > 0 && s[0] == '+' {
        (false, s.drop_first())
    } else {
        (false, s)
    }
}

/// `c` is the lower-case ASCII letter or other character `l`, in either case.
pub open spec fn ci_eq(c: char, l: char) -> bool {
    c == l || ('a' <= l && l <= 'z' && c as u32 == l as u32 - 32)
}

/// `s` spells `w` ignoring ASCII case.
pub open spec fn ci_word(s: Seq<char>, w: Seq<char>) -> bool {
    s.len() == w.len() && forall|i: int| 0 <= i < s.len() ==> ci_eq(#[trigger] s[i], w[i])
}

/// The text with `E` written as `e`.
pub open spec fn e_lowered(s: Seq<char>) -> Seq<char> {
    s.map_values(|c: char| if c == 'E' { 'e' } else { c })
}

/// An exponent: an optional sign, then one or more digits.
pub open spec fn exponent_value(x: Seq<char>) -> Option<int> {
    let (neg, d) = sign_of(x);
    if d.len() > 0 && all_digits(d) {
        Some(if neg { -(digits_value(d) as int) } else { digits_value(d) as int })
    } else {
        None
    }
}

/// The digits `d` times ten to the power `k`, rounded down, held at the
/// largest `u64`.
pub open spec fn scaled_units(d: Seq<char>, k: int) -> u64 {
    if k >= 0 {
        sat(digits_value(d) * pow10(k as nat))
    } else if d.len() + k <= 0 {
        0
    } else {
        sat(digits_value(d.take(d.len() + k)))
    }
}

/// An unsigned number `digits[.digits][e[sign]digits]`, with at least one
/// mantissa digit, in billionths rounded down and held at the largest `u64`.
pub open spec fn number_units(r: Seq<char>) -> Option<u64> {
    let es = split_on(e_lowered(r), 'e');
    if es.len() > 2 {
        None
    } else {
        let ps = split_on(es[0], '.');
        if ps.len() > 2 {
            None
        } else {
            let ip = ps[0];
            let fp = if ps.len() == 2 { ps[1] } else { Seq::<char>::empty() };
            if ip.len() + fp.len() == 0 || !all_digits(ip) || !all_digits(fp) {
                None
            } else {
                let e = if es.len() == 2 { exponent_value(es[1]) } else { Some(0int) };
                match e {
                    None => None,
                    Some(e) => Some(scaled_units(ip + fp, 9 + e - fp.len())),
                }
            }
        }
    }
}

/// A threshold as a float is written (`0.25`, `+3`, `.5`, `1e-3`, `inf`,
/// `NaN`), in billionths. A negative value or NaN gives zero, and infinity
/// the largest `u64`: a threshold only counts through being above a gap,
/// which is never negative. Digits below a billionth are dropped, and large
/// values are held at the largest `u64`.
pub open spec fn threshold_units(s: Seq<char>) -> Option<u64> {
    let (neg, r) = sign_of(s);
    if ci_word(r, seq!['i', 'n', 'f']) || ci_word(r, seq!['i', 'n', 'f', 'i', 'n', 'i', 't', 'y']) {
        Some(if neg { 0 } else { u64::MAX })
    } else if ci_word(r, seq!['n', 'a', 'n']) {
        Some(0)
    } else {
        match number_units(r) {
            Some(v) => Some(if neg { 0 } else { v }),
            None => None,
        }
    }
}

fn sign_split(s: &Vec<char>) -> (r: (bool, Vec<char>))
    ensures
        (r.0, r.1@) == sign_of(s@),
{
    let neg = s.len() > 0 && s[0] == '-';
    let start: usize = if s.len() > 0 && (s[0] == '-' || s[0] == '+') { 1 } else { 0 };
    let mut rest: Vec<char> = Vec::new();
    let mut i: usize = start;
    while i < s.len()
        invariant
            start <= i <= s.len(),
            rest@ == s@.subrange(start as int, i as int),
        decreases s.len() - i,
    {
        rest.push(s[i]);
        i = i + 1;
        assert(rest@ =~= s@.subrange(start as int, i as int));
    }
    assert(s@.len() > 0 ==> s@.drop_first() =~= s@.subrange(1, s@.len() as int));
    assert(s@ =~= s@.subrange(0, s@.len() as int));
    (neg, rest)
}

fn ci_matches(a: &Vec<char>, w: &Vec<char>) -> (r: bool)
    ensures
        r == ci_word(a@, w@),
{
    if a.len() != w.len() {
        return false;
    }
    let mut i: usize = 0;
    while i < a.len()
        invariant
            i <= a.len(),
            a.len() == w.len(),
            forall|k: int| 0 <= k < i ==> ci_eq(#[trigger] a@[k], w@[k]),
        decreases a.len() - i,
    {
        let c = a[i];
        let l = w[i];
        if !(c == l || ('a' <= l && l <= 'z' && c as u32 == l as u32 - 32)) {
            assert(!ci_eq(a@[i as int], w@[i as int]));
            return false;
        }
        i = i + 1;
    }
    true
}

fn all_digit_chars(v: &Vec<char>) -> (r: bool)
    ensures
        r == all_digits(v@),
{
    let mut i: usize = 0;
    while i < v.len()
        invariant
            i <= v.len(),
            forall|k: int| 0 <= k < i ==> is_digit(#[trigger] v@[k]),
        decreases v.len() - i,
    {
        if v[i] < '0' || v[i] > '9' {
            assert(!is_digit(v@[i as int]));
            return false;
        }
        i = i + 1;
    }
    true
}

proof fn lemma_sat_step(x: nat, d: nat)
    requires
        d <= 9,
    ensures
        sat((10 * (sat(x) as nat) + d) as nat) == sat(10 * x + d),
{
    if x > u64::MAX {
        assert(10 * x + d > u64::MAX) by (nonlinear_arith)
            requires
                x > u64::MAX,
        ;
    }
}

/// The digits' value held at the largest `u64`.
fn digits_sat(d: &Vec<char>, n: usize) -> (r: u64)
    requires
        n <= d.len(),
        all_digits(d@),
    ensures
        r == sat(digits_value(d@.take(n as int))),
{
    let mut acc: u64 = 0;
    let mut i: usize = 0;
    assert(d@.take(0) =~= Seq::<char>::empty());
    while i < n
        invariant
            i <= n <= d.len(),
            all_digits(d@),
            acc == sat(digits_value(d@.take(i as int))),
        decreases n - i,
    {
        assert(is_digit(d@[i as int]));
        let dig = (d[i] as u32 - '0' as u32) as u64;
        assert(d@.take(i + 1).drop_last() =~= d@.take(i as int));
        proof {
            lemma_sat_step(digits_value(d@.take(i as int)), dig as nat);
        }
        let wide: u128 = (acc as u128) * 10 + dig as u128;
        acc = if wide > u64::MAX as u128 { u64::MAX } else { wide as u64 };
        i = i + 1;
    }
    acc
}

/// The largest exponent magnitude read exactly; larger ones give the same
/// threshold.
pub const EXP_CAP: u128 = 0x2_0000_0000_0000_0000;

/// An exponent as `exponent_value` reads it, its size held at `EXP_CAP`.
fn parse_exponent(x: &Vec<char>) -> (r: Option<i128>)
    ensures
        match exponent_value(x@) {
            None => r is None,
            Some(e) => r matches Some(v) && v == (if e > EXP_CAP { EXP_CAP as int } else if e < -EXP_CAP {
                -EXP_CAP
            } else {
                e
            }),
        },
{
    let (neg, d) = sign_split(x);
    if d.len() == 0 || !all_digit_chars(&d) {
        return None;
    }
    let mut acc: u128 = 0;
    let mut i: usize = 0;
    assert(d@.take(0) =~= Seq::<char>::empty());
    while i < d.len()
        invariant
            i <= d.len(),
            all_digits(d@),
            acc == (if digits_value(d@.take(i as int)) > EXP_CAP { EXP_CAP as nat } else { digits_value(d@.take(i as int)) }),
        decreases d.len() - i,
    {
        assert(is_digit(d@[i as int]));
        let dig = (d[i] as u32 - '0' as u32) as u128;
        assert(d@.take(i + 1).drop_last() =~= d@.take(i as int));
        proof {
            let x = digits_value(d@.take(i as int));
            if x > EXP_CAP {
                assert(10 * x + dig > EXP_CAP) by (nonlinear_arith)
                    requires
                        x > EXP_CAP,
                ;
            }
        }
        let wide: u128 = acc * 10 + dig;
        acc = if wide > EXP_CAP { EXP_CAP } else { wide };
        i = i + 1;
    }
    assert(d@.take(d@.len() as int) =~= d@);
    if neg {
        Some(-(acc as i128))
    } else {
        Some(acc as i128)
    }
}

proof fn lemma_pow10_big(k: nat)
    requires
        k >= 20,
    ensures
        pow10(k) > u64::MAX,
{
    lemma_pow10_mono(20, k);
    assert(pow10(20) == 100_000_000_000_000_000_000) by {
        reveal_with_fuel(pow10, 21);
    }
}

/// Past twenty powers of ten, any non-zero digits are held at the largest `u64`.
proof fn lemma_scaled_big(d: Seq<char>, k: int)
    requires
        k > 20,
    ensures
        scaled_units(d, k) == (if digits_value(d) == 0 { 0u64 } else { u64::MAX }),
{
    lemma_pow10_big(k as nat);
    if digits_value(d) > 0 {
        assert(digits_value(d) * pow10(k as nat) >= pow10(k as nat)) by (nonlinear_arith)
            requires
                digits_value(d) > 0,
        ;
    }
}

/// Reads a threshold as `threshold_units` describes.
pub fn parse_threshold(s: &Vec<char>) -> (r: Option<u64>)
    ensures
        r == threshold_units(s@),
{
    let (neg, rest) = sign_split(s);
    if ci_matches(&rest, &vec!['i', 'n', 'f']) || ci_matches(&rest, &vec!['i', 'n', 'f', 'i', 'n', 'i', 't', 'y']) {
        return Some(if neg { 0 } else { u64::MAX });
    }
    if ci_matches(&rest, &vec!['n', 'a', 'n']) {
        return Some(0);
    }
    let v = match number_value(&rest) {
        Some(v) => v,
        None => {
            return None;
        },
    };
    Some(if neg { 0 } else { v })
}

/// Reads an unsigned number as `number_units` describes.
fn number_value(r: &Vec<char>) -> (res: Option<u64>)
    ensures
        res == number_units(r@),
{
    let mut mapped: Vec<char> = Vec::new();
    let mut i: usize = 0;
    while i < r.len()
        invariant
            i <= r.len(),
            mapped@ == e_lowered(r@.take(i as int)),
        decreases r.len() - i,
    {
        let c = r[i];
        mapped.push(if c == 'E' { 'e' } else { c });
        i = i + 1;
        assert(mapped@ =~= e_lowered(r@.take(i as int)));
    }
    assert(r@.take(r.len() as int) =~= r@);
    let es = split_chars(&mapped, 'e');
    let ghost esq = split_on(e_lowered(r@), 'e');
    if es.len() > 2 {
        return None;
    }
    assert(es@[0]@ == esq[0]);
    let ps = split_chars(&es[0], '.');
    let ghost psq = split_on(esq[0], '.');
    if ps.len() > 2 {
        return None;
    }
    assert(ps@[0]@ == psq[0]);
    let ip = &ps[0];
    let fp: Vec<char> = if ps.len() == 2 {
        assert(ps@[1]@ == psq[1]);
        ps[1].clone()
    } else {
        Vec::new()
    };
    let ghost fq = if psq.len() == 2 { psq[1] } else { Seq::<char>::empty() };
    assert(fp@ == fq);
    if ip.len() == 0 && fp.len() == 0 {
        return None;
    }
    if !all_digit_chars(ip) || !all_digit_chars(&fp) {
        return None;
    }
    let e: i128 = if es.len() == 2 {
        assert(es@[1]@ == esq[1]);
        match parse_exponent(&es[1]) {
            Some(e) => e,
            None => {
                return None;
            },
        }
    } else {
        0
    };
    let ghost et: int = if esq.len() == 2 { exponent_value(esq[1])->Some_0 } else { 0 };
    let mut d: Vec<char> = ip.clone();
    let mut j: usize = 0;
    let ghost ipq = ip@;
    while j < fp.len()
        invariant
            j <= fp.len(),
            d@ == ipq + fp@.take(j as int),
        decreases fp.len() - j,
    {
        d.push(fp[j]);
        j = j + 1;
        assert(d@ =~= ipq + fp@.take(j as int));
    }
    assert(fp@.take(fp.len() as int) =~= fp@);
    let ghost dq = ipq + fq;
    assert(d@ == dq);
    assert(all_digits(dq)) by {
        assert forall|k: int| 0 <= k < dq.len() implies is_digit(#[trigger] dq[k]) by {
            if k < ipq.len() {
                assert(dq[k] == ipq[k]);
            } else {
                assert(dq[k] == fq[k - ipq.len()]);
            }
        }
    }
    assert(e == (if et > EXP_CAP { EXP_CAP as int } else if et < -EXP_CAP { -EXP_CAP } else { et }));
    let k: i128 = 9 + e - fp.len() as i128;
    let ghost kt: int = 9 + et - fq.len();
    assert(fp.len() <= usize::MAX && d.len() <= usize::MAX);
    assert(et > EXP_CAP ==> k > 20 && kt > 20);
    assert(et < -EXP_CAP ==> d.len() + k < 0 && d.len() + kt < 0);
    assert(-EXP_CAP <= et <= EXP_CAP ==> k == kt);
    let out: u64 = if k >= 0 {
        let acc = digits_sat(&d, d.len());
        assert(d@.take(d.len() as int) =~= d@);
        if acc == 0 {
            proof {
                lemma_scaled_big(dq, 21);
                if kt > 20 {
                    lemma_scaled_big(dq, kt);
                } else {
                    assert(digits_value(dq) == 0);
                    assert(0 * pow10(kt as nat) == 0);
                }
                assert(0 == scaled_units(dq, kt));
            }
            0
        } else if k > 20 {
            proof {
                lemma_scaled_big(dq, k as int);
                if kt > 20 {
                    lemma_scaled_big(dq, kt);
                }
                assert(digits_value(dq) != 0);
                assert(u64::MAX == scaled_units(dq, kt));
            }
            u64::MAX
        } else {
            assert(pow10(0) == 1);
            assert(digits_value(dq) * pow10(0) == digits_value(dq));
            let mut v: u64 = acc;
            let mut t: i128 = 0;
            while t < k
                invariant
                    0 <= t <= k <= 20,
                    v == sat(digits_value(dq) * pow10(t as nat)),
                decreases k - t,
            {
                proof {
                    let y = digits_value(dq) * pow10(t as nat);
                    assert(digits_value(dq) * pow10((t + 1) as nat) == 10 * y) by (nonlinear_arith)
                        requires
                            pow10((t + 1) as nat) == 10 * pow10(t as nat),
                            y == digits_value(dq) * pow10(t as nat),
                    ;
                    lemma_sat_step(y, 0);
                }
                let wide: u128 = (v as u128) * 10;
                v = if wide > u64::MAX as u128 { u64::MAX } else { wide as u64 };
                t = t + 1;
            }
            assert(v == scaled_units(dq, kt));
            v
        }
    } else {
        let t = d.len() as i128 + k;
        if t <= 0 {
            assert(0 == scaled_units(dq, kt));
            0
        } else {
            assert(kt == k);
            digits_sat(&d, t as usize)
        }
    };
    assert(out == scaled_units(dq, kt));
    assert(esq.len() == es@.len() && psq.len() == ps@.len());
    assert(number_units(r@) == Some(scaled_units(dq, kt)));
    Some(out)
}

} // verus!
