use vstd::prelude::*;

verus! {

/// Pieces found so far and the piece being read, after a prefix of `s`
/// split at every `sep`.
pub open spec fn split_upto(s: Seq<char>, sep: char, n: nat) -> (Seq<Seq<char>>, Seq<char>)
    decreases n,
{
    if n == 0 {
        (Seq::empty(), Seq::empty())
    } else {
        let (ps, cur) = split_upto(s, sep, (n - 1) as nat);
        if s[n - 1] == sep {
            (ps.push(cur), Seq::empty())
        } else {
            (ps, cur.push(s[n - 1]))
        }
    }
}

/// The pieces of `s` between occurrences of `sep`, empty ones included; one
/// more than the number of separators.
pub open spec fn split_on(s: Seq<char>, sep: char) -> Seq<Seq<char>> {
    let (ps, cur) = split_upto(s, sep, s.len());
    ps.push(cur)
}

/// Splits `s` at every `sep`, keeping empty pieces.
pub fn split_chars(s: &Vec<char>, sep: char) -> (r: Vec<Vec<char>>)
    ensures
        r@.len() == split_on(s@, sep).len(),
        forall|k: int| 0 <= k < r@.len() ==> #[trigger] r@[k]@ == split_on(s@, sep)[k],
{
    let mut ps: Vec<Vec<char>> = Vec::new();
    let mut cur: Vec<char> = Vec::new();
    let mut i: usize = 0;
    while i < s.len()
        invariant
            i <= s.len(),
            split_upto(s@, sep, i as nat).0.len() == ps@.len(),
            forall|k: int| 0 <= k < ps@.len() ==> #[trigger] ps@[k]@ == split_upto(s@, sep, i as nat).0[k],
            split_upto(s@, sep, i as nat).1 == cur@,
        decreases s.len() - i,
    {
        let c = s[i];
        if c == sep {
            ps.push(cur);
            cur = Vec::new();
        } else {
            cur.push(c);
        }
        i = i + 1;
    }
    ps.push(cur);
    ps
}

/// A line without the carriage return that ends it, if any.
pub open spec fn strip_cr(l: Seq<char>) -> Seq<char> {
    if l.len() > 0 && l.last() == '\r' {
        l.drop_last()
    } else {
        l
    }
}

/// The lines of a text: split at line feeds, a carriage return before the
/// line feed dropped, and no empty last line after a final line feed.
pub open spec fn lines(s: Seq<char>) -> Seq<Seq<char>> {
    let (ps, cur) = split_upto(s, '\n', s.len());
    let all = if cur.len() > 0 {
        ps.push(cur)
    } else {
        ps
    };
    Seq::new(all.len(), |k: int| if k < ps.len() { strip_cr(all[k]) } else { all[k] })
}

/// Splits a text into lines as `lines` describes.
pub fn split_lines(s: &Vec<char>) -> (r: Vec<Vec<char>>)
    ensures
        r@.len() == lines(s@).len(),
        forall|k: int| 0 <= k < r@.len() ==> #[trigger] r@[k]@ == lines(s@)[k],
{
    let mut ps: Vec<Vec<char>> = Vec::new();
    let mut cur: Vec<char> = Vec::new();
    let mut i: usize = 0;
    while i < s.len()
        invariant
            i <= s.len(),
            split_upto(s@, '\n', i as nat).0.len() == ps@.len(),
            forall|k: int|
                0 <= k < ps@.len() ==> #[trigger] ps@[k]@ == strip_cr(split_upto(s@, '\n', i as nat).0[k]),
            split_upto(s@, '\n', i as nat).1 == cur@,
        decreases s.len() - i,
    {
        let c = s[i];
        if c == '\n' {
            let n = cur.len();
            if n > 0 && cur[n - 1] == '\r' {
                cur.pop();
            }
            ps.push(cur);
            cur = Vec::new();
        } else {
            cur.push(c);
        }
        i = i + 1;
    }
    if cur.len() > 0 {
        ps.push(cur);
    }
    ps
}

/// Whether a character is an ASCII decimal digit.
pub open spec fn is_digit(c: char) -> bool {
    '0' <= c && c <= '9'
}

/// The value of a string of decimal digits.
pub open spec fn digits_value(s: Seq<char>) -> nat
    decreases s.len(),
{
    if s.len() == 0 {
        0
    } else {
        digits_value(s.drop_last()) * 10 + ((s.last() as u32) - ('0' as u32)) as nat
    }
}

/// The part of a number after an optional leading `+`.
pub open spec fn unsigned_digits(s: Seq<char>) -> Seq<char> {
    if s.len() > 0 && s[0] == '+' {
        s.drop_first()
    } else {
        s
    }
}

/// A string read as an unsigned 64-bit integer: an optional `+`, then one or
/// more decimal digits whose value fits.
pub open spec fn parse_u64_spec(s: Seq<char>) -> Option<u64> {
    let d = unsigned_digits(s);
    if d.len() > 0 && (forall|i: int| 0 <= i < d.len() ==> is_digit(#[trigger] d[i])) && digits_value(d)
        <= u64::MAX {
        Some(digits_value(d) as u64)
    } else {
        None
    }
}

proof fn lemma_digits_grow(d: Seq<char>, i: nat, j: nat)
    requires
        i <= j <= d.len(),
        forall|k: int| 0 <= k < d.len() ==> is_digit(#[trigger] d[k]),
    ensures
        digits_value(d.take(i as int)) <= digits_value(d.take(j as int)),
    decreases j,
{
    if i < j {
        lemma_digits_grow(d, i, (j - 1) as nat);
        assert(d.take(j as int).drop_last() =~= d.take(j - 1));
    }
}

/// Reads an unsigned 64-bit integer as `parse_u64_spec` describes.
pub fn parse_u64(s: &Vec<char>) -> (r: Option<u64>)
    ensures
        r == parse_u64_spec(s@),
{
    let plus = s.len() > 0 && s[0] == '+';
    let start: usize = if plus { 1 } else { 0 };
    let ghost d = unsigned_digits(s@);
    assert(d =~= s@.subrange(start as int, s@.len() as int));
    if start == s.len() {
        assert(d.len() == 0);
        return None;
    }
    let mut j: usize = start;
    while j < s.len()
        invariant
            start <= j <= s.len(),
            d == unsigned_digits(s@),
            d =~= s@.subrange(start as int, s@.len() as int),
            forall|k: int| 0 <= k < j - start ==> is_digit(#[trigger] d[k]),
        decreases s.len() - j,
    {
        let c = s[j];
        if c < '0' || c > '9' {
            assert(!is_digit(d[j - start]));
            return None;
        }
        j = j + 1;
    }
    assert(forall|k: int| 0 <= k < d.len() ==> is_digit(#[trigger] d[k]));
    let mut i: usize = start;
    let mut v: u64 = 0;
    assert(d.take(0) =~= Seq::<char>::empty());
    while i < s.len()
        invariant
            start <= i <= s.len(),
            d == unsigned_digits(s@),
            d =~= s@.subrange(start as int, s@.len() as int),
            forall|k: int| 0 <= k < d.len() ==> is_digit(#[trigger] d[k]),
            v == digits_value(d.take(i - start)),
        decreases s.len() - i,
    {
        let c = s[i];
        assert(is_digit(d[i - start]));
        let dig = (c as u32 - '0' as u32) as u64;
        assert(d.take(i - start + 1).drop_last() =~= d.take(i - start));
        assert(digits_value(d.take(i - start + 1)) == v * 10 + dig);
        if v > (u64::MAX - dig) / 10 {
            proof {
                assert(v * 10 + dig > u64::MAX) by (nonlinear_arith)
                    requires
                        v > (u64::MAX - dig) / 10,
                        dig <= 9,
                ;
                lemma_digits_grow(d, (i - start + 1) as nat, d.len());
                assert(d.take(d.len() as int) =~= d);
            }
            return None;
        }
        assert(v * 10 + dig <= u64::MAX) by (nonlinear_arith)
            requires
                v <= (u64::MAX - dig) / 10,
                dig <= 9,
        ;
        v = v * 10 + dig;
        i = i + 1;
    }
    assert(d.take(i - start) =~= d);
    Some(v)
}

} // verus!
