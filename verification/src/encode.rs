//! Construction of canonical query strings and form bodies.

use vstd::prelude::*;
use vstd::string::{StrSliceExecFns, StringExecFns, StringSliceAdditionalSpecFns};
use vstd::utf8::encode_utf8;
use crate::strutil::string_push;

verus! {

/// True of the bytes kept verbatim by percent-encoding: ASCII digits and
/// letters, nothing else.
pub open spec fn is_unreserved(b: u8) -> bool {
    (0x30 <= b <= 0x39) || (0x41 <= b <= 0x5a) || (0x61 <= b <= 0x7a)
}

/// The uppercase hexadecimal digit of a value below sixteen.
pub open spec fn hex_digit(n: int) -> char
    recommends
        0 <= n < 16,
{
    "0123456789ABCDEF"@[n]
}

/// The percent-encoding of one byte: an alphanumeric byte stands for
/// itself, every other byte becomes a `%` escape of two uppercase
/// hexadecimal digits.
pub open spec fn spec_percent_encode_byte(b: u8) -> Seq<char> {
    if is_unreserved(b) {
        seq![b as char]
    } else {
        seq!['%', hex_digit(b as int / 16), hex_digit(b as int % 16)]
    }
}

/// The percent-encoding of a byte sequence, byte by byte.
pub open spec fn spec_percent_encode(bs: Seq<u8>) -> Seq<char>
    decreases bs.len(),
{
    if bs.len() == 0 {
        Seq::empty()
    } else {
        spec_percent_encode_byte(bs[0]) + spec_percent_encode(bs.drop_first())
    }
}

/// The percent-encoding of a string: its UTF-8 bytes, encoded byte by byte.
pub open spec fn spec_percent_encode_str(s: Seq<char>) -> Seq<char> {
    spec_percent_encode(encode_utf8(s))
}

proof fn lemma_percent_encode_snoc(bs: Seq<u8>)
    requires
        bs.len() > 0,
    ensures
        spec_percent_encode(bs) == spec_percent_encode(bs.drop_last()) + spec_percent_encode_byte(
            bs.last(),
        ),
    decreases bs.len(),
{
    if bs.len() == 1 {
        assert(bs.drop_last() =~= Seq::<u8>::empty());
        assert(spec_percent_encode(bs.drop_last()) + spec_percent_encode_byte(bs.last())
            =~= spec_percent_encode_byte(bs[0]) + spec_percent_encode(bs.drop_first()));
    } else {
        let t = bs.drop_first();
        lemma_percent_encode_snoc(t);
        assert(t.drop_last() =~= bs.drop_last().drop_first());
        assert(t.last() == bs.last());
        assert(bs.drop_last()[0] == bs[0]);
        assert(spec_percent_encode_byte(bs[0]) + (spec_percent_encode(t.drop_last())
            + spec_percent_encode_byte(bs.last())) =~= (spec_percent_encode_byte(bs[0])
            + spec_percent_encode(bs.drop_last().drop_first())) + spec_percent_encode_byte(
            bs.last(),
        ));
    }
}

fn hex_char(n: u8) -> (c: char)
    requires
        n < 16,
    ensures
        c == hex_digit(n as int),
{
    proof {
        reveal_strlit("0123456789ABCDEF");
    }
    let table = "0123456789ABCDEF";
    table.get_char(n as usize)
}

/// Percent-encodes a string per the non-alphanumeric rule: every byte of
/// its UTF-8 form that is not an ASCII digit or letter becomes a `%XX`
/// escape.
pub fn percent_encode(s: &str) -> (r: String)
    ensures
        r@ == spec_percent_encode_str(s@),
{
    let bytes = s.as_bytes_vec();
    let mut out = String::new();
    let mut i: usize = 0;
    proof {
        assert(bytes@.take(0) =~= Seq::<u8>::empty());
    }
    while i < bytes.len()
        invariant
            i <= bytes@.len(),
            out@ == spec_percent_encode(bytes@.take(i as int)),
        decreases bytes@.len() - i,
    {
        let b = bytes[i];
        proof {
            assert(bytes@.take(i + 1).drop_last() =~= bytes@.take(i as int));
            assert(bytes@.take(i + 1).last() == bytes@[i as int]);
            lemma_percent_encode_snoc(bytes@.take(i + 1));
        }
        if (0x30 <= b && b <= 0x39) || (0x41 <= b && b <= 0x5a) || (0x61 <= b && b <= 0x7a) {
            string_push(&mut out, b as char);
            proof {
                assert(out@ =~= spec_percent_encode(bytes@.take(i as int))
                    + spec_percent_encode_byte(b));
            }
        } else {
            string_push(&mut out, '%');
            string_push(&mut out, hex_char(b / 16));
            string_push(&mut out, hex_char(b % 16));
            proof {
                assert(out@ =~= spec_percent_encode(bytes@.take(i as int))
                    + spec_percent_encode_byte(b));
            }
        }
        i += 1;
    }
    proof {
        assert(bytes@.take(bytes@.len() as int) =~= bytes@);
    }
    out
}

/// The join of the given parts with the given separator between each two
/// neighbours and at neither end; the empty list joins to the empty
/// sequence.
pub open spec fn spec_join(parts: Seq<Seq<char>>, sep: char) -> Seq<char>
    decreases parts.len(),
{
    if parts.len() == 0 {
        Seq::empty()
    } else if parts.len() == 1 {
        parts[0]
    } else {
        parts[0] + seq![sep] + spec_join(parts.drop_first(), sep)
    }
}

pub proof fn lemma_join_snoc(parts: Seq<Seq<char>>, sep: char)
    requires
        parts.len() >= 2,
    ensures
        spec_join(parts, sep) == spec_join(parts.drop_last(), sep) + seq![sep] + parts.last(),
    decreases parts.len(),
{
    if parts.len() == 2 {
        assert(parts.drop_first().len() == 1);
        assert(parts.drop_last().len() == 1);
        assert(parts.drop_last()[0] == parts[0]);
        assert(parts.drop_first()[0] == parts[1]);
        assert(parts[0] + seq![sep] + spec_join(parts.drop_first(), sep) =~= spec_join(
            parts.drop_last(),
            sep,
        ) + seq![sep] + parts.last());
    } else {
        let t = parts.drop_first();
        lemma_join_snoc(t, sep);
        assert(t.drop_last() =~= parts.drop_last().drop_first());
        assert(t.last() == parts.last());
        assert(parts.drop_last()[0] == parts[0]);
        assert(parts[0] + seq![sep] + (spec_join(t.drop_last(), sep) + seq![sep] + t.last())
            =~= (parts[0] + seq![sep] + spec_join(parts.drop_last().drop_first(), sep))
            + seq![sep] + parts.last());
    }
}

/// Joins string parts with a separator, leaving no separator at either
/// end.  The empty list is accepted and yields the empty string: this is a
/// deliberate total behaviour, chosen over refusing the empty list, and
/// callers that must not issue an empty join (the batch calls) test for it
/// first.
pub fn join_strings(parts: &Vec<String>, sep: char) -> (r: String)
    ensures
        r@ == spec_join(parts@.map_values(|p: String| p@), sep),
        parts@.len() == 0 ==> r@.len() == 0,
{
    let ghost pv = parts@.map_values(|p: String| p@);
    let mut out = String::new();
    let mut i: usize = 0;
    proof {
        assert(pv.take(0) =~= Seq::<Seq<char>>::empty());
    }
    while i < parts.len()
        invariant
            i <= parts@.len(),
            pv == parts@.map_values(|p: String| p@),
            out@ == spec_join(pv.take(i as int), sep),
        decreases parts@.len() - i,
    {
        proof {
            assert(pv.take(i + 1).drop_last() =~= pv.take(i as int));
            assert(pv.take(i + 1).last() == pv[i as int]);
            if i >= 1 {
                lemma_join_snoc(pv.take(i + 1), sep);
            }
        }
        if i > 0 {
            string_push(&mut out, sep);
        }
        out.append(parts[i].as_str());
        proof {
            if i == 0 {
                assert(pv.take(1).len() == 1);
                assert(out@ =~= pv[0]);
            } else {
                assert(out@ =~= spec_join(pv.take(i as int), sep) + seq![sep] + pv[i as int]);
            }
        }
        i += 1;
    }
    proof {
        assert(pv.take(pv.len() as int) =~= pv);
    }
    out
}

/// Joins item identifiers with a separator, leaving no separator at either
/// end.  As with [`join_strings`], the empty list deliberately yields the
/// empty string.
pub fn join_hashes(parts: &Vec<crate::data::Hash>, sep: char) -> (r: String)
    ensures
        r@ == spec_join(parts@.map_values(|h: crate::data::Hash| h@), sep),
        parts@.len() == 0 ==> r@.len() == 0,
{
    let ghost pv = parts@.map_values(|h: crate::data::Hash| h@);
    let mut out = String::new();
    let mut i: usize = 0;
    proof {
        assert(pv.take(0) =~= Seq::<Seq<char>>::empty());
    }
    while i < parts.len()
        invariant
            i <= parts@.len(),
            pv == parts@.map_values(|h: crate::data::Hash| h@),
            out@ == spec_join(pv.take(i as int), sep),
        decreases parts@.len() - i,
    {
        proof {
            assert(pv.take(i + 1).drop_last() =~= pv.take(i as int));
            assert(pv.take(i + 1).last() == pv[i as int]);
            if i >= 1 {
                lemma_join_snoc(pv.take(i + 1), sep);
            }
        }
        if i > 0 {
            string_push(&mut out, sep);
        }
        out.append(parts[i].as_str());
        proof {
            if i == 0 {
                assert(pv.take(1).len() == 1);
                assert(out@ =~= pv[0]);
            } else {
                assert(out@ =~= spec_join(pv.take(i as int), sep) + seq![sep] + pv[i as int]);
            }
        }
        i += 1;
    }
    proof {
        assert(pv.take(pv.len() as int) =~= pv);
    }
    out
}

/// A value that can stand in a query as a separator-joined list.  A list
/// value joins its elements; the empty list deliberately joins to the
/// empty string rather than being refused.
pub trait QueryConcat {
    /// The joined form of the value.
    spec fn concat_spec(&self, sep: char) -> Seq<char>;

    /// Writes the value in its joined query form.
    fn query_concat(&self, sep: char) -> (r: String)
        ensures
            r@ == self.concat_spec(sep),
    ;
}

impl QueryConcat for crate::data::Hash {
    open spec fn concat_spec(&self, sep: char) -> Seq<char> {
        self@
    }

    fn query_concat(&self, sep: char) -> (r: String) {
        self.hash.clone()
    }
}

impl QueryConcat for String {
    open spec fn concat_spec(&self, sep: char) -> Seq<char> {
        self@
    }

    fn query_concat(&self, sep: char) -> (r: String) {
        self.clone()
    }
}

impl QueryConcat for Vec<crate::data::Hash> {
    open spec fn concat_spec(&self, sep: char) -> Seq<char> {
        spec_join(self@.map_values(|h: crate::data::Hash| h@), sep)
    }

    fn query_concat(&self, sep: char) -> (r: String) {
        join_hashes(self, sep)
    }
}

impl QueryConcat for Vec<String> {
    open spec fn concat_spec(&self, sep: char) -> Seq<char> {
        spec_join(self@.map_values(|t: String| t@), sep)
    }

    fn query_concat(&self, sep: char) -> (r: String) {
        join_strings(self, sep)
    }
}

/// How often a character occurs in a sequence.
pub open spec fn count_char(s: Seq<char>, c: char) -> int
    decreases s.len(),
{
    if s.len() == 0 {
        0
    } else {
        count_char(s.drop_first(), c) + if s[0] == c {
            1int
        } else {
            0int
        }
    }
}

pub proof fn lemma_count_char_concat(a: Seq<char>, b: Seq<char>, c: char)
    ensures
        count_char(a + b, c) == count_char(a, c) + count_char(b, c),
    decreases a.len(),
{
    if a.len() == 0 {
        assert(a + b =~= b);
    } else {
        lemma_count_char_concat(a.drop_first(), b, c);
        assert((a + b).drop_first() =~= a.drop_first() + b);
        assert((a + b)[0] == a[0]);
    }
}

pub proof fn lemma_count_char_nonneg(s: Seq<char>, c: char)
    ensures
        count_char(s, c) >= 0,
    decreases s.len(),
{
    if s.len() > 0 {
        lemma_count_char_nonneg(s.drop_first(), c);
    }
}

/// A joined list of one or more separator-free parts holds exactly one
/// separator fewer than it has parts; and wherever the first (last) part
/// is non-empty, the join does not start (end) with the separator.  A part
/// may be empty, in which case the separator beside it stands at that edge
/// of the join, so the edge claims are conditioned on their part.
pub proof fn lemma_join_separators(parts: Seq<Seq<char>>, sep: char)
    requires
        parts.len() >= 1,
        forall|i: int| 0 <= i < parts.len() ==> count_char(#[trigger] parts[i], sep) == 0,
    ensures
        count_char(spec_join(parts, sep), sep) == parts.len() - 1,
        parts[0].len() > 0 ==> spec_join(parts, sep).len() > 0 && spec_join(parts, sep)[0] != sep,
        parts.last().len() > 0 ==> spec_join(parts, sep).len() > 0 && spec_join(
            parts,
            sep,
        ).last() != sep,
    decreases parts.len(),
{
    let j = spec_join(parts, sep);
    if parts.len() == 1 {
        assert(count_char(parts[0], sep) == 0);
        if parts[0].len() > 0 {
            lemma_count_char_first(parts[0], sep);
        }
    } else {
        let t = parts.drop_first();
        assert(forall|i: int| 0 <= i < t.len() ==> count_char(#[trigger] t[i], sep) == 0) by {
            assert(forall|i: int| 0 <= i < t.len() ==> t[i] == parts[i + 1]);
        }
        lemma_join_separators(t, sep);
        lemma_count_char_concat(parts[0] + seq![sep], spec_join(t, sep), sep);
        lemma_count_char_concat(parts[0], seq![sep], sep);
        assert(count_char(seq![sep], sep) == 1) by {
            assert(seq![sep].drop_first() =~= Seq::<char>::empty());
            assert(count_char(Seq::<char>::empty(), sep) == 0);
            assert(seq![sep][0] == sep);
        }
        assert(j == (parts[0] + seq![sep]) + spec_join(t, sep)) by {
            assert(parts[0] + seq![sep] + spec_join(t, sep) =~= (parts[0] + seq![sep])
                + spec_join(t, sep));
        }
        if parts[0].len() > 0 {
            lemma_count_char_first(parts[0], sep);
            assert(j[0] == parts[0][0]);
        }
        if parts.last().len() > 0 {
            assert(t.last() == parts.last());
            assert(spec_join(t, sep).len() > 0);
            assert(j.last() == spec_join(t, sep).last());
        }
    }
}

/// A separator-free sequence neither starts nor ends with the separator.
proof fn lemma_count_char_first(s: Seq<char>, c: char)
    requires
        count_char(s, c) == 0,
        s.len() > 0,
    ensures
        s[0] != c,
        s.last() != c,
    decreases s.len(),
{
    lemma_count_char_nonneg(s.drop_first(), c);
    if s.len() > 1 {
        lemma_count_char_first(s.drop_first(), c);
        assert(s.last() == s.drop_first().last());
    }
}

/// The canonical decimal spelling of a non-negative integer, without
/// leading zeroes.
pub open spec fn spec_dec(n: int) -> Seq<char>
    decreases n,
    when n >= 0
{
    if n < 10 {
        seq![hex_digit(n)]
    } else {
        spec_dec(n / 10) + seq![hex_digit(n % 10)]
    }
}

/// The canonical decimal spelling of a signed integer.
pub open spec fn spec_dec_signed(n: int) -> Seq<char> {
    if n < 0 {
        seq!['-'] + spec_dec(-n)
    } else {
        spec_dec(n)
    }
}

/// Writes an unsigned integer in decimal.
pub fn u64_to_string(n: u64) -> (r: String)
    ensures
        r@ == spec_dec(n as int),
    decreases n,
{
    if n < 10 {
        let mut s = String::new();
        string_push(&mut s, hex_char(n as u8));
        proof {
            assert(s@ =~= seq![hex_digit(n as int)]);
        }
        s
    } else {
        let mut s = u64_to_string(n / 10);
        string_push(&mut s, hex_char((n % 10) as u8));
        proof {
            assert(s@ =~= spec_dec(n as int / 10) + seq![hex_digit(n as int % 10)]);
        }
        s
    }
}

/// Writes a signed integer in decimal.
pub fn i64_to_string(n: i64) -> (r: String)
    ensures
        r@ == spec_dec_signed(n as int),
{
    if n >= 0 {
        u64_to_string(n as u64)
    } else {
        let m: u64 = if n == i64::MIN {
            0x8000000000000000u64
        } else {
            (-n) as u64
        };
        proof {
            assert(m as int == -(n as int));
        }
        let mut s = String::new();
        string_push(&mut s, '-');
        let digits = u64_to_string(m);
        s.append(digits.as_str());
        proof {
            assert(s@ =~= seq!['-'] + spec_dec(m as int));
        }
        s
    }
}

/// The fixed tokens boolean fields encode to.
pub open spec fn spec_bool_token(b: bool) -> Seq<char> {
    if b {
        "true"@
    } else {
        "false"@
    }
}

/// Writes a boolean as its literal `true` or `false` token.
pub fn bool_to_string(b: bool) -> (r: String)
    ensures
        r@ == spec_bool_token(b),
{
    if b {
        String::from_str("true")
    } else {
        String::from_str("false")
    }
}

/// The parameter list an optional field contributes: one pair when the
/// field has a value, nothing when it is unset.
pub open spec fn opt_pair(name: Seq<char>, v: Option<Seq<char>>) -> Seq<(Seq<char>, Seq<char>)> {
    match v {
        Some(x) => seq![(name, x)],
        None => Seq::empty(),
    }
}

/// The rendering of one query parameter: the name, which is one of the
/// fixed parameter tokens and rides as it is, then `=`, then the
/// percent-encoded value.
pub open spec fn spec_render_pair(p: (Seq<char>, Seq<char>)) -> Seq<char> {
    p.0 + seq!['='] + spec_percent_encode_str(p.1)
}

/// The rendering of a query-parameter list: the rendered pairs joined
/// with `&`.
pub open spec fn spec_render_query(ps: Seq<(Seq<char>, Seq<char>)>) -> Seq<char> {
    spec_join(ps.map_values(|p: (Seq<char>, Seq<char>)| spec_render_pair(p)), '&')
}

/// An ordered list of query parameters, rendered as a canonical query
/// string: absent fields are never added, so they are never emitted.
pub struct QueryPairs {
    pub pairs: Vec<(String, String)>,
}

impl View for QueryPairs {
    type V = Seq<(Seq<char>, Seq<char>)>;

    open spec fn view(&self) -> Seq<(Seq<char>, Seq<char>)> {
        self.pairs@.map_values(|p: (String, String)| (p.0@, p.1@))
    }
}

impl QueryPairs {
    /// Starts an empty parameter list.
    pub fn new() -> (r: QueryPairs)
        ensures
            r@ == Seq::<(Seq<char>, Seq<char>)>::empty(),
    {
        let r = QueryPairs { pairs: Vec::new() };
        proof {
            assert(r@ =~= Seq::<(Seq<char>, Seq<char>)>::empty());
        }
        r
    }

    /// Appends one parameter.
    pub fn add(&mut self, name: &str, value: String)
        ensures
            final(self)@ == old(self)@.push((name@, value@)),
    {
        let ghost v0 = self@;
        let n = String::from_str(name);
        self.pairs.push((n, value));
        proof {
            assert(self@ =~= v0.push((name@, value@)));
        }
    }

    /// Renders the list as `name=value` pairs joined with `&`, values
    /// percent-encoded.
    pub fn render(&self) -> (r: String)
        ensures
            r@ == spec_render_query(self@),
    {
        let ghost mp = self@.map_values(|p: (Seq<char>, Seq<char>)| spec_render_pair(p));
        let mut out = String::new();
        let mut i: usize = 0;
        proof {
            assert(mp.take(0) =~= Seq::<Seq<char>>::empty());
        }
        while i < self.pairs.len()
            invariant
                i <= self.pairs@.len(),
                mp == self@.map_values(|p: (Seq<char>, Seq<char>)| spec_render_pair(p)),
                mp.len() == self.pairs@.len(),
                out@ == spec_join(mp.take(i as int), '&'),
            decreases self.pairs@.len() - i,
        {
            proof {
                assert(mp.take(i + 1).drop_last() =~= mp.take(i as int));
                assert(mp.take(i + 1).last() == mp[i as int]);
                if i >= 1 {
                    lemma_join_snoc(mp.take(i + 1), '&');
                }
            }
            if i > 0 {
                string_push(&mut out, '&');
            }
            let p = &self.pairs[i];
            out.append(p.0.as_str());
            string_push(&mut out, '=');
            let ev = percent_encode(p.1.as_str());
            out.append(ev.as_str());
            proof {
                if i == 0 {
                    assert(mp.take(1).len() == 1);
                    assert(out@ =~= mp[0]);
                } else {
                    assert(out@ =~= spec_join(mp.take(i as int), '&') + seq!['&'] + mp[i as int]);
                }
            }
            i += 1;
        }
        proof {
            assert(mp.take(mp.len() as int) =~= mp);
        }
        out
    }
}

} // verus!