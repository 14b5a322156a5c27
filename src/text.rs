use vstd::prelude::*;

verus! {

/// The characters a text keeps before scoring: letters, combining marks, and a
/// fixed set of apostrophe-like marks and Indic, Gujarati and Thaana vowel signs.
/// Everything else becomes a space.
const NON_ALPHA_CLASS: &'static str = r#"[^#gc\p{L}\p{M}′'’´ʹािीुूृेैोौंँः् া ি ী ু ূ ৃ ে ৈ ো ৌ।্্্я̄\u07A6\u07A7\u07A8\u07A9\u07AA\u07AB\u07AC\u07AD\u07AE\u07AF\u07B0\u0A81\u0A82\u0A83\u0ABC\u0ABD\u0ABE\u0ABF\u0AC0\u0AC1\u0AC2\u0AC3\u0AC4\u0AC5\u0AC6\u0AC7\u0AC8\u0AC9\u0ACA\u0ACB\u0ACC\u0ACD\u0AD0\u0AE0\u0AE1\u0AE2\u0AE3\u0AE4\u0AE5\u0AE6\u0AE7\u0AE8\u0AE9\u0AEA\u0AEB\u0AEC\u0AED\u0AEE\u0AEF\u0AF0\u0AF1]"#;

/// Lower-case mapping of a text, as Unicode defines it.
pub uninterp spec fn lowercase_of(s: Seq<char>) -> Seq<char>;

/// A text in which every character outside the alphabetic class has become a space.
pub uninterp spec fn alpha_masked(s: Seq<char>) -> Seq<char>;

/// The start of the Unicode block that holds a character, if any block does.
pub uninterp spec fn block_start_of(c: char) -> Option<u32>;

/// Relies on `str::to_lowercase`: the Unicode lower-case mapping of `s`,
/// which depends on its characters alone.
#[verifier::external_body]
pub(crate) fn to_lower(s: &str) -> (r: String)
    ensures
        r@ == lowercase_of(s@),
{
    s.to_lowercase()
}

/// Relies on regex's `Regex::new` and `Regex::replace_all` with the class below:
/// each match is one character outside the class and is replaced by one space,
/// every other character is kept in place.
#[verifier::external_body]
fn mask_non_alpha(s: &str) -> (r: String)
    ensures
        r@ == alpha_masked(s@),
        r@.len() == s@.len(),
        forall|i: int| 0 <= i < s@.len() ==> r@[i] == s@[i] || r@[i] == ' ',
{
    let re = regex::Regex::new(NON_ALPHA_CLASS).unwrap();
    re.replace_all(s, " ").into_owned()
}

/// Relies on unicode_blocks's `find_unicode_block`: the block that holds `c`,
/// given by its first code point.
#[verifier::external_body]
fn unicode_block_start(c: char) -> (r: Option<u32>)
    ensures
        r == block_start_of(c),
        r matches Some(b) ==> b <= c as u32,
{
    match unicode_blocks::find_unicode_block(c) {
        Some(b) => Some(b.start()),
        None => None,
    }
}

/// First code points of the CJK blocks: the unified ideographs and their
/// extensions A to I, the compatibility blocks, radicals supplement, strokes,
/// and symbols and punctuation. Hangul and Kana are not among them.
pub open spec fn cjk_block_first(b: u32) -> bool {
    b == 19968 || b == 13312 || b == 131072 || b == 173824 || b == 177984 || b == 178208
        || b == 183984 || b == 196608 || b == 201552 || b == 191472 || b == 13056
        || b == 65072 || b == 63744 || b == 194560 || b == 11904 || b == 12736 || b == 12288
}

/// Whether a block, given by its first code point, is one of the CJK blocks.
pub open spec fn cjk_of_block(b: Option<u32>) -> Result<bool, ()> {
    match b {
        Some(s) => Ok(cjk_block_first(s)),
        None => Err(()),
    }
}

/// Whether a character lies in one of the CJK blocks; an error when no
/// Unicode block holds it.
pub open spec fn cjk_char(c: char) -> Result<bool, ()> {
    cjk_of_block(block_start_of(c))
}

/// Tells from the block that holds a character, given by its first code point,
/// whether the character is CJK.
pub fn cjk_block_of(b: Option<u32>) -> (r: Result<bool, ()>)
    ensures
        r == cjk_of_block(b),
{
    match b {
        Some(s) => Ok(s == 19968 || s == 13312 || s == 131072 || s == 173824 || s == 177984
            || s == 178208 || s == 183984 || s == 196608 || s == 201552 || s == 191472
            || s == 13056 || s == 65072 || s == 63744 || s == 194560 || s == 11904
            || s == 12736 || s == 12288),
        None => Err(()),
    }
}

/// Whether `c` belongs to one of the CJK blocks. Hangul and Kana are in other
/// blocks, so they are not CJK here. An error when no block holds `c`.
pub fn is_cjk_block(c: char) -> (r: Result<bool, ()>)
    ensures
        r == cjk_char(c),
{
    cjk_block_of(unicode_block_start(c))
}

/// The text as scored: lower-cased, then masked to its alphabetic characters.
pub open spec fn prepared(t: Seq<char>) -> Seq<char> {
    alpha_masked(lowercase_of(t))
}

/// Lower-cases `text` and turns every non-alphabetic character into a space.
pub fn prepare(text: &str) -> (r: Vec<char>)
    ensures
        r@ == prepared(text@),
{
    let lowered = to_lower(text);
    let masked = mask_non_alpha(lowered.as_str());
    chars_of(masked.as_str())
}

/// The characters of a string, in order.
pub fn chars_of(s: &str) -> (r: Vec<char>)
    ensures
        r@ == s@,
{
    let mut out: Vec<char> = Vec::new();
    for c in it: s.chars()
        invariant
            out@ == it.seq().take(it.index() as int),
            it.seq() == s@,
    {
        out.push(c);
    }
    out
}

/// The CJK flag of each character, or an error if some character lies in no
/// Unicode block.
pub open spec fn cjk_flags(s: Seq<char>) -> Result<Seq<bool>, ()>
    decreases s.len(),
{
    if s.len() == 0 {
        Ok(Seq::empty())
    } else {
        match cjk_flags(s.drop_last()) {
            Ok(f) => match cjk_char(s.last()) {
                Ok(b) => Ok(f.push(b)),
                Err(()) => Err(()),
            },
            Err(()) => Err(()),
        }
    }
}

/// Marks each character as CJK or not; fails when a character lies in no block.
pub fn classify(s: &Vec<char>) -> (r: Result<Vec<bool>, ()>)
    ensures
        r matches Ok(f) ==> cjk_flags(s@) == Ok::<Seq<bool>, ()>(f@) && f@.len() == s@.len(),
        r is Err ==> cjk_flags(s@) is Err,
{
    let mut flags: Vec<bool> = Vec::new();
    let mut i: usize = 0;
    while i < s.len()
        invariant
            i <= s.len(),
            flags.len() == i,
            cjk_flags(s@.take(i as int)) == Ok::<Seq<bool>, ()>(flags@),
        decreases s.len() - i,
    {
        assert(s@.take(i as int + 1).drop_last() == s@.take(i as int));
        match is_cjk_block(s[i]) {
            Ok(b) => flags.push(b),
            Err(()) => {
                proof { lemma_flags_err_extends(s@, i as nat); }
                return Err(());
            }
        }
        i = i + 1;
    }
    assert(s@.take(i as int) == s@);
    Ok(flags)
}

/// Once a prefix holds a character without a block, so does every longer prefix.
proof fn lemma_flags_err_extends(s: Seq<char>, i: nat)
    requires
        i < s.len(),
        cjk_char(s[i as int]) is Err,
    ensures
        cjk_flags(s) is Err,
    decreases s.len(),
{
    if i + 1 < s.len() {
        lemma_flags_err_extends(s.drop_last(), i);
    } else {
        assert(s.last() == s[i as int]);
    }
}

/// State of the spacing pass over a prefix: output so far, whether the last
/// character was CJK, whether it was a space, CJK characters seen, and
/// non-space characters seen.
pub open spec fn spaced_upto(s: Seq<char>, f: Seq<bool>, n: nat) -> (Seq<char>, bool, bool, nat, nat)
    decreases n,
{
    if n == 0 {
        (Seq::empty(), false, false, 0, 0)
    } else {
        let (out, last_cjk, last_space, cjk, len) = spaced_upto(s, f, (n - 1) as nat);
        let c = s[n - 1];
        if f[n - 1] {
            let out1 = if !last_cjk && !last_space { out.push(' ') } else { out };
            (out1.push(c), true, false, cjk + 1, len + 1)
        } else {
            let out1 = if last_cjk && c != ' ' { out.push(' ') } else { out };
            (out1.push(c), false, c == ' ', cjk, if c == ' ' { len } else { len + 1 })
        }
    }
}

/// The spacing pass over a whole text: a space is put at each boundary between
/// a CJK character and another character unless one is there already. Also
/// gives the number of CJK characters and of non-space characters.
pub open spec fn spaced(s: Seq<char>, f: Seq<bool>) -> (Seq<char>, nat, nat) {
    let st = spaced_upto(s, f, s.len());
    (st.0, st.3, st.4)
}

/// Separates runs of CJK characters from their neighbours by spaces, counting
/// the CJK characters and all non-space characters. `cjk[i]` tells whether
/// `s[i]` is CJK.
pub fn space_cjk(s: &Vec<char>, cjk: &Vec<bool>) -> (r: (Vec<char>, usize, usize))
    requires
        cjk.len() == s.len(),
    ensures
        (r.0@, r.1 as nat, r.2 as nat) == spaced(s@, cjk@),
{
    let mut out: Vec<char> = Vec::new();
    let mut last_cjk = false;
    let mut last_space = false;
    let mut n_cjk: usize = 0;
    let mut n_len: usize = 0;
    let mut i: usize = 0;
    while i < s.len()
        invariant
            i <= s.len(),
            cjk.len() == s.len(),
            n_cjk <= i,
            n_len <= i,
            spaced_upto(s@, cjk@, i as nat) == (out@, last_cjk, last_space, n_cjk as nat, n_len as nat),
        decreases s.len() - i,
    {
        let c = s[i];
        if cjk[i] {
            if !last_cjk && !last_space {
                out.push(' ');
            }
            last_cjk = true;
            last_space = false;
            n_cjk = n_cjk + 1;
        } else {
            if last_cjk && c != ' ' {
                out.push(' ');
            }
            last_space = c == ' ';
            last_cjk = false;
        }
        if !last_space {
            n_len = n_len + 1;
        }
        out.push(c);
        i = i + 1;
    }
    (out, n_cjk, n_len)
}

/// Words found so far and the word being read, after a prefix of the text.
pub open spec fn words_upto(s: Seq<char>, n: nat) -> (Seq<Seq<char>>, Seq<char>)
    decreases n,
{
    if n == 0 {
        (Seq::empty(), Seq::empty())
    } else {
        let (ws, cur) = words_upto(s, (n - 1) as nat);
        if s[n - 1] == ' ' {
            if cur.len() > 0 {
                (ws.push(cur), Seq::empty())
            } else {
                (ws, cur)
            }
        } else {
            (ws, cur.push(s[n - 1]))
        }
    }
}

/// The words of a text: its maximal runs of characters other than space.
pub open spec fn words(s: Seq<char>) -> Seq<Seq<char>> {
    let (ws, cur) = words_upto(s, s.len());
    if cur.len() > 0 {
        ws.push(cur)
    } else {
        ws
    }
}

/// Splits a text into its maximal runs of characters other than space.
pub fn split_words(s: &Vec<char>) -> (r: Vec<Vec<char>>)
    ensures
        r@.len() == words(s@).len(),
        forall|k: int| 0 <= k < r@.len() ==> #[trigger] r@[k]@ == words(s@)[k],
{
    let mut ws: Vec<Vec<char>> = Vec::new();
    let mut cur: Vec<char> = Vec::new();
    let mut i: usize = 0;
    while i < s.len()
        invariant
            i <= s.len(),
            words_upto(s@, i as nat).0.len() == ws@.len(),
            forall|k: int| 0 <= k < ws@.len() ==> #[trigger] ws@[k]@ == words_upto(s@, i as nat).0[k],
            words_upto(s@, i as nat).1 == cur@,
        decreases s.len() - i,
    {
        let c = s[i];
        if c == ' ' {
            if cur.len() > 0 {
                ws.push(cur);
                cur = Vec::new();
            }
        } else {
            cur.push(c);
        }
        i = i + 1;
    }
    if cur.len() > 0 {
        ws.push(cur);
    }
    ws
}

} // verus!
