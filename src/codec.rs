use vstd::bytes::*;
use vstd::prelude::*;
use vstd::slice::slice_subrange;
use crate::builder::LoadError;
use crate::lang::{lang_at, Lang, LANG_COUNT};
use crate::model::{Grams, ModelNgram, OrderNgram};
use crate::table::{entry_ok, PENALTY};

verus! {

/// One table entry: a gram and its `(language, score)` pairs.
pub type EntryView = (Seq<char>, Seq<(Lang, u64)>);

/// The characters of a gram, each as four little-endian bytes.
pub open spec fn enc_chars(g: Seq<char>) -> Seq<u8>
    decreases g.len(),
{
    if g.len() == 0 {
        Seq::empty()
    } else {
        enc_chars(g.drop_last()) + spec_u32_to_le_bytes(g.last() as u32)
    }
}

/// The pairs of an entry, each as one language byte and eight little-endian
/// score bytes.
pub open spec fn enc_pairs(e: Seq<(Lang, u64)>) -> Seq<u8>
    decreases e.len(),
{
    if e.len() == 0 {
        Seq::empty()
    } else {
        enc_pairs(e.drop_last()) + seq![e.last().0.id() as u8] + spec_u64_to_le_bytes(e.last().1)
    }
}

/// One entry: gram length, gram, number of pairs, pairs.
pub open spec fn enc_entry(x: EntryView) -> Seq<u8> {
    spec_u32_to_le_bytes(x.0.len() as u32) + enc_chars(x.0) + spec_u32_to_le_bytes(x.1.len() as u32)
        + enc_pairs(x.1)
}

/// Entries one after another.
pub open spec fn enc_entries(es: Seq<EntryView>) -> Seq<u8>
    decreases es.len(),
{
    if es.len() == 0 {
        Seq::empty()
    } else {
        enc_entries(es.drop_last()) + enc_entry(es.last())
    }
}

/// A table snapshot: the order byte, the number of entries as eight
/// little-endian bytes, then the entries.
pub open spec fn snapshot(order: OrderNgram, es: Seq<EntryView>) -> Seq<u8> {
    seq![order.id() as u8] + spec_u64_to_le_bytes(es.len() as u64) + enc_entries(es)
}

/// Entries a snapshot can hold: distinct grams, well-formed lists, and grams
/// short enough for their length field.
pub open spec fn entries_ok(es: Seq<EntryView>) -> bool {
    &&& forall|i: int, j: int| 0 <= i < j < es.len() ==> (#[trigger] es[i]).0 != (#[trigger] es[j]).0
    &&& forall|i: int| 0 <= i < es.len() ==> entry_ok((#[trigger] es[i]).1)
    &&& forall|i: int| 0 <= i < es.len() ==> (#[trigger] es[i]).0.len() <= u32::MAX
    &&& es.len() <= u64::MAX
}

/// The table that a list of entries describes.
pub open spec fn map_of(es: Seq<EntryView>) -> Grams
    decreases es.len(),
{
    if es.len() == 0 {
        Map::empty()
    } else {
        map_of(es.drop_last()).insert(es.last().0, es.last().1)
    }
}

/// Whether `x` is a valid character code.
pub open spec fn char_code(x: u32) -> bool {
    x < 0xD800 || (0xE000 <= x && x <= 0x10FFFF)
}

/// The code point of a character.
pub open spec fn code_point(c: char) -> u32 {
    c as u32
}

/// The character with code point `x`.
pub open spec fn char_of(x: u32) -> char {
    choose|c: char| #[trigger] code_point(c) == x
}

/// Reads four little-endian bytes at `p`.
pub open spec fn rd_u32(b: Seq<u8>, p: nat) -> Option<u32> {
    if p + 4 <= b.len() {
        Some(spec_u32_from_le_bytes(b.subrange(p as int, (p + 4) as int)))
    } else {
        None
    }
}

/// Reads eight little-endian bytes at `p`.
pub open spec fn rd_u64(b: Seq<u8>, p: nat) -> Option<u64> {
    if p + 8 <= b.len() {
        Some(spec_u64_from_le_bytes(b.subrange(p as int, (p + 8) as int)))
    } else {
        None
    }
}

/// Reads `n` characters at `p`, giving them and the position after them.
pub open spec fn rd_chars(b: Seq<u8>, p: nat, n: nat) -> Option<(Seq<char>, nat)>
    decreases n,
{
    if n == 0 {
        Some((Seq::empty(), p))
    } else {
        match rd_chars(b, p, (n - 1) as nat) {
            None => None,
            Some((cs, q)) => match rd_u32(b, q) {
                Some(x) => if char_code(x) {
                    Some((cs.push(char_of(x)), q + 4))
                } else {
                    None
                },
                None => None,
            },
        }
    }
}

/// Reads `n` pairs at `p`, giving them and the position after them.
pub open spec fn rd_pairs(b: Seq<u8>, p: nat, n: nat) -> Option<(Seq<(Lang, u64)>, nat)>
    decreases n,
{
    if n == 0 {
        Some((Seq::empty(), p))
    } else {
        match rd_pairs(b, p, (n - 1) as nat) {
            None => None,
            Some((ps, q)) => if q + 9 <= b.len() && b[q as int] < LANG_COUNT {
                match rd_u64(b, q + 1) {
                    Some(v) => Some((ps.push((lang_at(b[q as int] as int), v)), q + 9)),
                    None => None,
                }
            } else {
                None
            },
        }
    }
}

/// Reads one entry at `p`, giving it and the position after it.
pub open spec fn rd_entry(b: Seq<u8>, p: nat) -> Option<(EntryView, nat)> {
    match rd_u32(b, p) {
        None => None,
        Some(gl) => match rd_chars(b, p + 4, gl as nat) {
            None => None,
            Some((g, q)) => match rd_u32(b, q) {
                None => None,
                Some(pl) => match rd_pairs(b, q + 4, pl as nat) {
                    None => None,
                    Some((e, r)) => Some(((g, e), r)),
                },
            },
        },
    }
}

/// Reads `n` entries at `p`, giving them and the position after them.
pub open spec fn rd_entries(b: Seq<u8>, p: nat, n: nat) -> Option<(Seq<EntryView>, nat)>
    decreases n,
{
    if n == 0 {
        Some((Seq::empty(), p))
    } else {
        match rd_entries(b, p, (n - 1) as nat) {
            None => None,
            Some((es, q)) => match rd_entry(b, q) {
                None => None,
                Some((x, r)) => Some((es.push(x), r)),
            },
        }
    }
}

/// The entries of a snapshot for a slot of order `expected`: `OrderMismatch`
/// when its order byte is another, `Corrupt` when it does not read to its
/// end exactly or its entries are not valid.
pub open spec fn decode_spec(b: Seq<u8>, expected: OrderNgram) -> Result<Seq<EntryView>, LoadError> {
    if b.len() == 0 {
        Err(LoadError::Corrupt)
    } else if b[0] != expected.id() {
        Err(LoadError::OrderMismatch)
    } else {
        match rd_u64(b, 1) {
            None => Err(LoadError::Corrupt),
            Some(n) => match rd_entries(b, 9, n as nat) {
                Some((es, q)) => if q == b.len() && entries_ok(es) {
                    Ok(es)
                } else {
                    Err(LoadError::Corrupt)
                },
                None => Err(LoadError::Corrupt),
            },
        }
    }
}

/// `x` stands in `b` at position `p`.
pub open spec fn at(b: Seq<u8>, p: nat, x: Seq<u8>) -> bool {
    p + x.len() <= b.len() && b.subrange(p as int, (p + x.len()) as int) == x
}

proof fn lemma_char_injective(c: char, d: char)
    requires
        c as u32 == d as u32,
    ensures
        c == d,
{
}

proof fn lemma_at_split(b: Seq<u8>, p: nat, x: Seq<u8>, y: Seq<u8>)
    requires
        at(b, p, x + y),
    ensures
        at(b, p, x),
        at(b, p + x.len(), y),
{
    let whole = b.subrange(p as int, (p + x.len() + y.len()) as int);
    assert((x + y).len() == x.len() + y.len());
    assert(whole == x + y);
    assert(b.subrange(p as int, (p + x.len()) as int) =~= whole.subrange(0, x.len() as int));
    assert(whole.subrange(0, x.len() as int) =~= x);
    assert(b.subrange((p + x.len()) as int, (p + x.len() + y.len()) as int) =~= whole.subrange(
        x.len() as int,
        (x.len() + y.len()) as int,
    ));
    assert(whole.subrange(x.len() as int, (x.len() + y.len()) as int) =~= y);
}

proof fn lemma_rd_u32(b: Seq<u8>, p: nat, v: u32)
    requires
        at(b, p, spec_u32_to_le_bytes(v)),
    ensures
        rd_u32(b, p) == Some(v),
{
    lemma_auto_spec_u32_to_from_le_bytes();
}

proof fn lemma_rd_u64(b: Seq<u8>, p: nat, v: u64)
    requires
        at(b, p, spec_u64_to_le_bytes(v)),
    ensures
        rd_u64(b, p) == Some(v),
{
    lemma_auto_spec_u64_to_from_le_bytes();
}

proof fn lemma_rd_chars(b: Seq<u8>, p: nat, g: Seq<char>)
    requires
        at(b, p, enc_chars(g)),
    ensures
        rd_chars(b, p, g.len()) == Some((g, p + enc_chars(g).len())),
    decreases g.len(),
{
    if g.len() > 0 {
        let h = g.drop_last();
        lemma_at_split(b, p, enc_chars(h), spec_u32_to_le_bytes(g.last() as u32));
        lemma_rd_chars(b, p, h);
        lemma_rd_u32(b, p + enc_chars(h).len(), g.last() as u32);
        lemma_auto_spec_u32_to_from_le_bytes();
        assert(code_point(g.last()) == g.last() as u32);
        let c = char_of(g.last() as u32);
        assert(code_point(c) == g.last() as u32);
        assert(c as u32 == g.last() as u32);
        lemma_char_injective(c, g.last());
        assert(h.push(g.last()) =~= g);
    }
}

proof fn lemma_rd_pairs(b: Seq<u8>, p: nat, e: Seq<(Lang, u64)>)
    requires
        at(b, p, enc_pairs(e)),
    ensures
        rd_pairs(b, p, e.len()) == Some((e, p + enc_pairs(e).len())),
    decreases e.len(),
{
    if e.len() > 0 {
        let h = e.drop_last();
        let l = e.last();
        lemma_at_split(b, p, enc_pairs(h) + seq![l.0.id() as u8], spec_u64_to_le_bytes(l.1));
        lemma_at_split(b, p, enc_pairs(h), seq![l.0.id() as u8]);
        lemma_rd_pairs(b, p, h);
        let q = p + enc_pairs(h).len();
        l.0.lemma_id();
        lemma_auto_spec_u64_to_from_le_bytes();
        assert(b[q as int] == b.subrange(q as int, (q + 1) as int)[0]);
        assert(b[q as int] == l.0.id() as u8);
        lemma_rd_u64(b, q + 1, l.1);
        assert(lang_at(b[q as int] as int) == l.0);
        assert(h.push(l) =~= e);
    }
}

proof fn lemma_rd_entry(b: Seq<u8>, p: nat, x: EntryView)
    requires
        at(b, p, enc_entry(x)),
        x.0.len() <= u32::MAX,
        x.1.len() <= u32::MAX,
    ensures
        rd_entry(b, p) == Some((x, p + enc_entry(x).len())),
{
    let a = spec_u32_to_le_bytes(x.0.len() as u32);
    let c = enc_chars(x.0);
    let d = spec_u32_to_le_bytes(x.1.len() as u32);
    let e = enc_pairs(x.1);
    assert(enc_entry(x) == ((a + c) + d) + e);
    lemma_at_split(b, p, (a + c) + d, e);
    lemma_at_split(b, p, a + c, d);
    lemma_at_split(b, p, a, c);
    lemma_rd_u32(b, p, x.0.len() as u32);
    lemma_auto_spec_u32_to_from_le_bytes();
    lemma_rd_chars(b, p + 4, x.0);
    lemma_rd_u32(b, p + 4 + c.len(), x.1.len() as u32);
    lemma_rd_pairs(b, p + 4 + c.len() + 4, x.1);
}

proof fn lemma_rd_entries(b: Seq<u8>, p: nat, es: Seq<EntryView>)
    requires
        at(b, p, enc_entries(es)),
        entries_ok(es),
    ensures
        rd_entries(b, p, es.len()) == Some((es, p + enc_entries(es).len())),
    decreases es.len(),
{
    if es.len() > 0 {
        let h = es.drop_last();
        lemma_entries_ok_prefix(es);
        lemma_at_split(b, p, enc_entries(h), enc_entry(es.last()));
        lemma_rd_entries(b, p, h);
        let x = es.last();
        assert(entry_ok(es[es.len() - 1].1));
        assert(x.1.len() <= u32::MAX) by {
            lemma_entry_len(x.1);
        }
        lemma_rd_entry(b, p + enc_entries(h).len(), x);
        assert(h.push(x) =~= es);
    }
}

proof fn lemma_entries_ok_prefix(es: Seq<EntryView>)
    requires
        es.len() > 0,
        entries_ok(es),
    ensures
        entries_ok(es.drop_last()),
{
    let h = es.drop_last();
    assert forall|i: int, j: int| 0 <= i < j < h.len() implies (#[trigger] h[i]).0 != (#[trigger] h[j]).0 by {
        assert(h[i] == es[i] && h[j] == es[j]);
    }
    assert forall|i: int| 0 <= i < h.len() implies entry_ok((#[trigger] h[i]).1) && h[i].0.len() <= u32::MAX by {
        assert(h[i] == es[i]);
    }
}

/// A well-formed entry lists each language at most once, so it is short.
proof fn lemma_entry_len(e: Seq<(Lang, u64)>)
    requires
        entry_ok(e),
    ensures
        e.len() <= LANG_COUNT,
{
    let ids = vstd::set_lib::set_int_range(0, LANG_COUNT as int);
    let f = |j: int| e[j].0.id() as int;
    assert forall|j: int, k: int| 0 <= j < k < e.len() implies #[trigger] f(j) != #[trigger] f(k) by {
        e[j].0.lemma_id();
        e[k].0.lemma_id();
    }
    let img = Set::new(|i: int| exists|j: int| 0 <= j < e.len() && #[trigger] f(j) == i);
    lemma_image_card(e, f, img);
    vstd::set_lib::lemma_int_range(0, LANG_COUNT as int);
    assert(img.subset_of(ids)) by {
        assert forall|i: int| img.contains(i) implies ids.contains(i) by {
            let j = choose|j: int| 0 <= j < e.len() && #[trigger] f(j) == i;
            e[j].0.lemma_id();
        }
    }
    vstd::set_lib::lemma_len_subset(img, ids);
}

proof fn lemma_image_card(e: Seq<(Lang, u64)>, f: spec_fn(int) -> int, img: Set<int>)
    requires
        img == Set::new(|i: int| exists|j: int| 0 <= j < e.len() && #[trigger] f(j) == i),
        forall|j: int, k: int| 0 <= j < k < e.len() ==> #[trigger] f(j) != #[trigger] f(k),
    ensures
        img.finite(),
        img.len() == e.len(),
    decreases e.len(),
{
    if e.len() == 0 {
        assert(img =~= Set::empty());
    } else {
        let h = e.drop_last();
        let himg = Set::new(|i: int| exists|j: int| 0 <= j < h.len() && #[trigger] f(j) == i);
        lemma_image_card(h, f, himg);
        let last = f(e.len() - 1);
        assert(img =~= himg.insert(last)) by {
            assert forall|i: int| img.contains(i) implies himg.insert(last).contains(i) by {
                let j = choose|j: int| 0 <= j < e.len() && #[trigger] f(j) == i;
                if j < e.len() - 1 {
                    assert(h.len() == e.len() - 1);
                }
            }
            assert forall|i: int| himg.insert(last).contains(i) implies img.contains(i) by {
                if i != last {
                    let j = choose|j: int| 0 <= j < h.len() && #[trigger] f(j) == i;
                }
            }
        }
        assert(!himg.contains(last)) by {
            if himg.contains(last) {
                let j = choose|j: int| 0 <= j < h.len() && #[trigger] f(j) == last;
                assert(f(j) != f(e.len() - 1));
            }
        }
    }
}

/// Reading a snapshot back gives the entries it was written from, in the
/// same order, each list of pairs unchanged.
pub proof fn lemma_snapshot_round_trip(order: OrderNgram, es: Seq<EntryView>)
    requires
        entries_ok(es),
    ensures
        decode_spec(snapshot(order, es), order) == Ok::<Seq<EntryView>, LoadError>(es),
{
    let b = snapshot(order, es);
    let t = seq![order.id() as u8];
    let n = spec_u64_to_le_bytes(es.len() as u64);
    assert(b == (t + n) + enc_entries(es));
    assert(at(b, 0, b)) by {
        assert(b.subrange(0, b.len() as int) =~= b);
    }
    lemma_at_split(b, 0, t + n, enc_entries(es));
    lemma_at_split(b, 0, t, n);
    lemma_auto_spec_u64_to_from_le_bytes();
    lemma_rd_u64(b, 1, es.len() as u64);
    lemma_rd_entries(b, 9, es);
}

} // verus!

verus! {

/// Relies on `char::from_u32`: the character with code point `x`, or `None`
/// for a surrogate or a value above the last code point.
#[verifier::external_body]
fn char_from_u32(x: u32) -> (r: Option<char>)
    ensures
        r matches Some(c) ==> c as u32 == x,
        r is None <==> !char_code(x),
{
    char::from_u32(x)
}

fn append_bytes(out: &mut Vec<u8>, b: Vec<u8>)
    ensures
        final(out)@ == old(out)@ + b@,
{
    let mut i: usize = 0;
    while i < b.len()
        invariant
            i <= b.len(),
            out@ == old(out)@ + b@.take(i as int),
        decreases b.len() - i,
    {
        out.push(b[i]);
        i = i + 1;
        assert(out@ =~= old(out)@ + b@.take(i as int));
    }
    assert(b@.take(b.len() as int) =~= b@);
}

/// Distinct grams: the described table holds exactly the listed grams, each
/// with its list.
proof fn lemma_map_of(es: Seq<EntryView>)
    requires
        forall|i: int, j: int| 0 <= i < j < es.len() ==> (#[trigger] es[i]).0 != (#[trigger] es[j]).0,
    ensures
        forall|g: Seq<char>| #[trigger] map_of(es).contains_key(g) <==> exists|i: int| 0 <= i < es.len() && es[i].0 == g,
        forall|i: int| 0 <= i < es.len() ==> map_of(es)[(#[trigger] es[i]).0] == es[i].1,
    decreases es.len(),
{
    if es.len() > 0 {
        let h = es.drop_last();
        assert forall|i: int, j: int| 0 <= i < j < h.len() implies (#[trigger] h[i]).0 != (#[trigger] h[j]).0 by {
            assert(h[i] == es[i] && h[j] == es[j]);
        }
        lemma_map_of(h);
        assert forall|g: Seq<char>| #[trigger] map_of(es).contains_key(g) <==> exists|i: int| 0 <= i < es.len() && es[i].0 == g by {
            if map_of(h).contains_key(g) {
                let i = choose|i: int| 0 <= i < h.len() && h[i].0 == g;
                assert(es[i] == h[i]);
            }
            if exists|i: int| 0 <= i < es.len() && es[i].0 == g {
                let i = choose|i: int| 0 <= i < es.len() && es[i].0 == g;
                if i < es.len() - 1 {
                    assert(es[i] == h[i]);
                }
            }
        }
        assert forall|i: int| 0 <= i < es.len() implies map_of(es)[(#[trigger] es[i]).0] == es[i].1 by {
            if i < es.len() - 1 {
                assert(es[i] == h[i]);
                assert(es[i].0 != es[es.len() - 1].0);
            }
        }
    }
}

impl ModelNgram {
    /// Writes a table as a snapshot, its entries in the order the table is
    /// walked. Fails when a gram is too long for its length field.
    pub fn save(&self) -> (r: Result<Vec<u8>, LoadError>)
        requires
            self.wf(),
        ensures
            r matches Ok(b) ==> exists|es: Seq<EntryView>|
                entries_ok(es) && map_of(es) == self.grams() && b@ == snapshot(self.order(), es),
            r matches Err(e) ==> e == LoadError::GramTooLong,
            r is Err <==> exists|g: Seq<char>| self.grams().contains_key(g) && g.len() > u32::MAX,
    {
        let t = self;
        let ents = t.entries();
        let ghost es = ents@.map(|_i: int, x: (Vec<char>, Vec<(Lang, u64)>)| (x.0@, x.1@));
        let mut out: Vec<u8> = Vec::new();
        let order = t.model_type();
        let tag = order.index() as u8;
        out.push(tag);
        append_bytes(&mut out, u64_to_le_bytes(ents.len() as u64));
        let ghost head = out@;
        assert(head == seq![order.id() as u8] + spec_u64_to_le_bytes(es.len() as u64));
        let mut i: usize = 0;
        while i < ents.len()
            invariant
                i <= ents.len(),
                t == self,
                t.wf(),
                ents@.len() == t.grams().len(),
                forall|j: int|
                    0 <= j < ents@.len() ==> t.grams().contains_key(#[trigger] ents@[j].0@) && t.grams()[ents@[j].0@]
                        == ents@[j].1@,
                forall|j: int, k: int| 0 <= j < k < ents@.len() ==> ents@[j].0@ != ents@[k].0@,
                forall|g: Seq<char>|
                    t.grams().contains_key(g) ==> exists|j: int| 0 <= j < ents@.len() && #[trigger] ents@[j].0@ == g,
                es == ents@.map(|_i: int, x: (Vec<char>, Vec<(Lang, u64)>)| (x.0@, x.1@)),
                head == seq![order.id() as u8] + spec_u64_to_le_bytes(es.len() as u64),
                out@ == head + enc_entries(es.take(i as int)),
                forall|j: int| 0 <= j < i ==> (#[trigger] es[j]).0.len() <= u32::MAX,
            decreases ents.len() - i,
        {
            let g = &ents[i].0;
            let e = &ents[i].1;
            if g.len() > u32::MAX as usize {
                assert(t.grams().contains_key(ents@[i as int].0@));
                assert(ents@[i as int].0@.len() > u32::MAX);
                assert(exists|x: Seq<char>| self.grams().contains_key(x) && x.len() > u32::MAX) by {
                    let w = ents@[i as int].0@;
                    assert(self.grams().contains_key(w) && w.len() > u32::MAX);
                }
                return Err(LoadError::GramTooLong);
            }
            let ghost before = out@;
            append_bytes(&mut out, u32_to_le_bytes(g.len() as u32));
            let mut j: usize = 0;
            while j < g.len()
                invariant
                    j <= g.len(),
                    g.len() <= u32::MAX,
                    out@ == before + spec_u32_to_le_bytes(g.len() as u32) + enc_chars(g@.take(j as int)),
                decreases g.len() - j,
            {
                assert(g@.take(j + 1).drop_last() =~= g@.take(j as int));
                append_bytes(&mut out, u32_to_le_bytes(g[j] as u32));
                j = j + 1;
                assert(out@ =~= before + spec_u32_to_le_bytes(g.len() as u32) + enc_chars(g@.take(j as int)));
            }
            assert(g@.take(g.len() as int) =~= g@);
            let ghost mid = out@;
            proof {
                assert(ents@[i as int].1@.len() <= u32::MAX) by {
                    assert(t.grams().contains_key(ents@[i as int].0@));
                    lemma_entry_len(t.grams()[ents@[i as int].0@]);
                }
            }
            append_bytes(&mut out, u32_to_le_bytes(e.len() as u32));
            let mut k: usize = 0;
            while k < e.len()
                invariant
                    k <= e.len(),
                    e.len() <= u32::MAX,
                    out@ == mid + spec_u32_to_le_bytes(e.len() as u32) + enc_pairs(e@.take(k as int)),
                decreases e.len() - k,
            {
                assert(e@.take(k + 1).drop_last() =~= e@.take(k as int));
                let (l, v) = e[k];
                out.push(l.index() as u8);
                append_bytes(&mut out, u64_to_le_bytes(v));
                k = k + 1;
                assert(out@ =~= mid + spec_u32_to_le_bytes(e.len() as u32) + enc_pairs(e@.take(k as int)));
            }
            assert(e@.take(e.len() as int) =~= e@);
            assert(es.take(i + 1).drop_last() =~= es.take(i as int));
            assert(es[i as int] == (g@, e@));
            assert(out@ =~= head + enc_entries(es.take(i + 1)));
            i = i + 1;
        }
        assert(es.take(ents.len() as int) =~= es);
        proof {
            assert forall|a: int, c: int| 0 <= a < c < es.len() implies (#[trigger] es[a]).0 != (#[trigger] es[c]).0 by {
            }
            assert forall|a: int| 0 <= a < es.len() implies entry_ok((#[trigger] es[a]).1) by {
                assert(t.grams().contains_key(ents@[a].0@));
            }
            lemma_map_of(es);
            assert(map_of(es) =~= t.grams()) by {
                assert forall|g: Seq<char>| #[trigger] map_of(es).contains_key(g) <==> t.grams().contains_key(g) by {
                    if t.grams().contains_key(g) {
                        let j = choose|j: int| 0 <= j < ents@.len() && #[trigger] ents@[j].0@ == g;
                        assert(es[j].0 == g);
                    }
                }
                assert forall|g: Seq<char>| #[trigger] map_of(es).contains_key(g) implies map_of(es)[g] == t.grams()[g] by {
                    let j = choose|j: int| 0 <= j < es.len() && es[j].0 == g;
                    assert(map_of(es)[es[j].0] == es[j].1);
                }
            }
            assert(ents@.len() == t.grams().len());
            assert(es.len() <= u64::MAX);
            assert forall|g: Seq<char>| t.grams().contains_key(g) implies g.len() <= u32::MAX by {
                let j = choose|j: int| 0 <= j < ents@.len() && #[trigger] ents@[j].0@ == g;
                assert(es[j].0 == g);
            }
        }
        Ok(out)
    }
}

} // verus!

verus! {

fn read_u32(b: &Vec<u8>, p: usize) -> (r: Option<u32>)
    ensures
        r == rd_u32(b@, p as nat),
{
    if p <= b.len() && b.len() - p >= 4 {
        let s = slice_subrange(b.as_slice(), p, p + 4);
        Some(u32_from_le_bytes(s))
    } else {
        None
    }
}

fn read_u64(b: &Vec<u8>, p: usize) -> (r: Option<u64>)
    ensures
        r == rd_u64(b@, p as nat),
{
    if p <= b.len() && b.len() - p >= 8 {
        let s = slice_subrange(b.as_slice(), p, p + 8);
        Some(u64_from_le_bytes(s))
    } else {
        None
    }
}

proof fn lemma_rd_chars_none(b: Seq<u8>, p: nat, m: nat, n: nat)
    requires
        m <= n,
        rd_chars(b, p, m) is None,
    ensures
        rd_chars(b, p, n) is None,
    decreases n,
{
    if n > m {
        lemma_rd_chars_none(b, p, m, (n - 1) as nat);
    }
}

proof fn lemma_rd_pairs_none(b: Seq<u8>, p: nat, m: nat, n: nat)
    requires
        m <= n,
        rd_pairs(b, p, m) is None,
    ensures
        rd_pairs(b, p, n) is None,
    decreases n,
{
    if n > m {
        lemma_rd_pairs_none(b, p, m, (n - 1) as nat);
    }
}

fn read_entry(b: &Vec<u8>, p: usize) -> (r: Option<(Vec<char>, Vec<(Lang, u64)>, usize)>)
    requires
        p <= b.len(),
    ensures
        match rd_entry(b@, p as nat) {
            None => r is None,
            Some((x, q)) => r matches Some((g, e, q2)) && g@ == x.0 && e@ == x.1 && q2 == q && q <= b.len(),
        },
{
    let glen = match read_u32(b, p) {
        Some(v) => v,
        None => {
            return None;
        },
    };
    let mut g: Vec<char> = Vec::new();
    let mut q: usize = p + 4;
    let mut j: u32 = 0;
    while j < glen
        invariant
            j <= glen,
            q <= b.len(),
            p + 4 <= b.len(),
            rd_u32(b@, p as nat) == Some(glen),
            rd_chars(b@, (p + 4) as nat, j as nat) == Some((g@, q as nat)),
        decreases glen - j,
    {
        let x = match read_u32(b, q) {
            Some(x) => x,
            None => {
                proof {
                    lemma_rd_chars_none(b@, (p + 4) as nat, (j + 1) as nat, glen as nat);
                }
                return None;
            },
        };
        let c = match char_from_u32(x) {
            Some(c) => c,
            None => {
                proof {
                    lemma_rd_chars_none(b@, (p + 4) as nat, (j + 1) as nat, glen as nat);
                }
                return None;
            },
        };
        proof {
            assert(code_point(c) == x);
            let d = char_of(x);
            assert(code_point(d) == x);
            lemma_char_injective(c, d);
        }
        g.push(c);
        q = q + 4;
        j = j + 1;
    }
    let plen = match read_u32(b, q) {
        Some(v) => v,
        None => {
            return None;
        },
    };
    let mut e: Vec<(Lang, u64)> = Vec::new();
    let q0 = q + 4;
    let mut r: usize = q0;
    let mut k: u32 = 0;
    while k < plen
        invariant
            k <= plen,
            r <= b.len(),
            q0 <= b.len(),
            q0 >= 4,
            rd_u32(b@, p as nat) == Some(glen),
            rd_chars(b@, (p + 4) as nat, glen as nat) == Some((g@, (q0 - 4) as nat)),
            rd_u32(b@, (q0 - 4) as nat) == Some(plen),
            rd_pairs(b@, q0 as nat, k as nat) == Some((e@, r as nat)),
        decreases plen - k,
    {
        if r >= b.len() || b.len() - r < 9 || b[r] as usize >= LANG_COUNT {
            proof {
                assert(rd_pairs(b@, q0 as nat, (k + 1) as nat) is None);
                lemma_rd_pairs_none(b@, q0 as nat, (k + 1) as nat, plen as nat);

            }
            return None;
        }
        let v = match read_u64(b, r + 1) {
            Some(v) => v,
            None => {
                proof {
                    lemma_rd_pairs_none(b@, q0 as nat, (k + 1) as nat, plen as nat);
                }
                return None;
            },
        };
        let li = b[r] as usize;
        proof {
            Lang::lemma_from_id(li);
        }
        let l = match Lang::from_index(li) {
            Some(l) => l,
            None => Lang::und,
        };
        e.push((l, v));
        r = r + 9;
        k = k + 1;
    }
    Some((g, e, r))
}

/// Whether a decoded list of pairs is well formed.
fn pairs_valid(e: &Vec<(Lang, u64)>) -> (r: bool)
    ensures
        r == entry_ok(e@),
{
    if e.len() == 0 {
        return false;
    }
    let mut seen: Vec<bool> = Vec::new();
    let mut i: usize = 0;
    while i < LANG_COUNT
        invariant
            i <= LANG_COUNT,
            seen.len() == i,
            forall|a: int| 0 <= a < i ==> !seen[a],
        decreases LANG_COUNT - i,
    {
        seen.push(false);
        i = i + 1;
    }
    let mut j: usize = 0;
    while j < e.len()
        invariant
            j <= e.len(),
            seen.len() == LANG_COUNT,
            forall|a: int, c: int| 0 <= a < c < j ==> (#[trigger] e@[a]).0 != (#[trigger] e@[c]).0,
            forall|a: int| 0 <= a < j ==> (#[trigger] e@[a]).1 <= PENALTY,
            forall|l: int| 0 <= l < LANG_COUNT ==> (seen[l] <==> exists|a: int| 0 <= a < j && (#[trigger] e@[a]).0.id() == l),
        decreases e.len() - j,
    {
        let (lang, v) = e[j];
        let li = lang.index();
        proof {
            lang.lemma_id();
        }
        if v > PENALTY {
            return false;
        }
        if seen[li] {
            proof {
                let a = choose|a: int| 0 <= a < j && (#[trigger] e@[a]).0.id() == li;
                e@[a].0.lemma_id();
            }
            return false;
        }
        seen.set(li, true);
        proof {
            assert forall|a: int| 0 <= a < j implies (#[trigger] e@[a]).0 != lang by {
                if e@[a].0 == lang {
                    assert(e@[a].0.id() == li);
                }
            }
            assert forall|l: int| 0 <= l < LANG_COUNT implies (seen[l] <==> exists|a: int| 0 <= a < j + 1 && (#[trigger] e@[a]).0.id() == l) by {
                if l == li {
                    assert(e@[j as int].0.id() == l);
                } else {
                    if exists|a: int| 0 <= a < j + 1 && (#[trigger] e@[a]).0.id() == l {
                        let a = choose|a: int| 0 <= a < j + 1 && (#[trigger] e@[a]).0.id() == l;
                        assert(a != j);
                    }
                }
            }
        }
        j = j + 1;
    }
    true
}

proof fn lemma_rd_entries_prefix(b: Seq<u8>, p: nat, m: nat, n: nat)
    requires
        m <= n,
    ensures
        rd_entries(b, p, n) matches Some((es, q)) ==> (rd_entries(b, p, m) matches Some((es2, q2)) && es2
            == es.take(m as int)),
        rd_entries(b, p, m) is None ==> rd_entries(b, p, n) is None,
    decreases n,
{
    if n > m {
        lemma_rd_entries_prefix(b, p, m, (n - 1) as nat);
        if let Some((es, q)) = rd_entries(b, p, n) {
            let (es1, q1) = rd_entries(b, p, (n - 1) as nat)->Some_0;
            lemma_rd_entries_len(b, p, (n - 1) as nat);
            let x = rd_entry(b, q1)->Some_0.0;
            assert(es == es1.push(x));
            assert(es.take(m as int) =~= es1.take(m as int));
        }
    } else {
        if let Some((es, q)) = rd_entries(b, p, n) {
            lemma_rd_entries_len(b, p, n);
            assert(es.take(m as int) =~= es);
        }
    }
}

proof fn lemma_rd_entries_len(b: Seq<u8>, p: nat, n: nat)
    ensures
        rd_entries(b, p, n) matches Some((es, q)) ==> es.len() == n,
    decreases n,
{
    if n > 0 {
        lemma_rd_entries_len(b, p, (n - 1) as nat);
    }
}

impl ModelNgram {
    /// Reads a snapshot for a slot of order `expected`, as `decode_spec`
    /// describes: the table holds the snapshot's entries.
    pub fn from_bin(b: &Vec<u8>, expected: OrderNgram) -> (r: Result<ModelNgram, LoadError>)
        ensures
            match decode_spec(b@, expected) {
                Ok(es) => r matches Ok(t) && t.wf() && t.order() == expected && t.grams() == map_of(es),
                Err(e) => r == Err::<ModelNgram, LoadError>(e),
            },
    {
        if b.len() == 0 {
            return Err(LoadError::Corrupt);
        }
        if b[0] as usize != expected.index() {
            return Err(LoadError::OrderMismatch);
        }
        let n = match read_u64(b, 1) {
            Some(n) => n,
            None => {
                return Err(LoadError::Corrupt);
            },
        };
        let mut table = ModelNgram::new(expected);
        let ghost mut es: Seq<EntryView> = Seq::empty();
        let mut pos: usize = 9;
        let mut i: u64 = 0;
        assert(map_of(es) =~= table.grams());
        while i < n
            invariant
                i <= n,
                pos <= b.len(),
                b.len() > 0,
                b@[0] == expected.id(),
                rd_u64(b@, 1) == Some(n),
                rd_entries(b@, 9, i as nat) == Some((es, pos as nat)),
                entries_ok(es),
                table.wf(),
                table.order() == expected,
                table.grams() == map_of(es),
            decreases n - i,
        {
            proof {
                lemma_rd_entries_len(b@, 9, i as nat);
            }
            let (g, e, q) = match read_entry(b, pos) {
                Some(x) => x,
                None => {
                    proof {
                        lemma_rd_entries_prefix(b@, 9, (i + 1) as nat, n as nat);
                    }
                    return Err(LoadError::Corrupt);
                },
            };
            let ghost x = (g@, e@);
            let ghost next = es.push(x);
            assert(rd_entries(b@, 9, (i + 1) as nat) == Some((next, q as nat)));
            proof {
                lemma_map_of(es);
            }
            if !pairs_valid(&e) || table.contains(&g) || g.len() > u32::MAX as usize {
                proof {
                    lemma_rd_entries_prefix(b@, 9, (i + 1) as nat, n as nat);
                    if let Some((all, _q)) = rd_entries(b@, 9, n as nat) {
                        assert(all.take(i + 1) == next);
                        lemma_rd_entries_len(b@, 9, n as nat);
                        assert(all.take(i + 1)[i as int] == all[i as int]);
                        assert(all[i as int] == x);
                        if table.grams().contains_key(g@) {
                            let j = choose|j: int| 0 <= j < es.len() && es[j].0 == g@;
                            assert(all.take(i + 1)[j] == all[j]);
                            assert(all[j] == es[j]);
                        }
                    }
                }
                return Err(LoadError::Corrupt);
            }
            table.insert_entry(g, e);
            proof {
                assert(next.drop_last() =~= es);
                assert forall|a: int, c: int| 0 <= a < c < next.len() implies (#[trigger] next[a]).0 != (#[trigger] next[c]).0 by {
                    if c == es.len() {
                        assert(next[a] == es[a]);
                        assert(map_of(es).contains_key(es[a].0));
                    }
                }
                assert forall|a: int| 0 <= a < next.len() implies entry_ok((#[trigger] next[a]).1) && next[a].0.len() <= u32::MAX by {
                    if a < es.len() {
                        assert(next[a] == es[a]);
                    }
                }
                es = next;
            }
            pos = q;
            i = i + 1;
        }
        if pos != b.len() {
            return Err(LoadError::Corrupt);
        }
        Ok(table)
    }
}

/// A table saved and read back holds the same grams with the same lists of
/// pairs, in the same order: whatever entries `encode` writes for a table,
/// reading them for the same order gives entries that describe that table.
pub proof fn lemma_save_load(grams: Grams, order: OrderNgram, es: Seq<EntryView>)
    requires
        entries_ok(es),
        map_of(es) == grams,
    ensures
        decode_spec(snapshot(order, es), order) matches Ok(back) && map_of(back) == grams,
{
    lemma_snapshot_round_trip(order, es);
}

} // verus!
