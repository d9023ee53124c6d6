//! A small JSON reader for the response bodies of the remote service.
//!
//! The reader works on raw bytes in two phases: a tokenizer that turns the
//! body into a sequence of tokens (punctuation, literals, numbers, strings
//! with their escapes resolved), and a shape layer that reads flat records
//! and arrays of records out of the token sequence.  Values nested deeper
//! than the record shapes this client consumes are tolerated and skipped.
//!
//! String token contents are kept as their UTF-8 bytes; the record layer
//! turns them into `String` values.

use vstd::prelude::*;
use vstd::utf8::{encode_scalar, is_scalar};
use crate::strutil::{copy_range, is_digit_byte};

verus! {

/// True of the bytes JSON treats as insignificant whitespace.
pub open spec fn is_ws(b: u8) -> bool {
    b == 0x20 || b == 0x09 || b == 0x0a || b == 0x0d
}

/// True of the bytes that may continue a numeric literal.
pub open spec fn is_num_byte(b: u8) -> bool {
    is_digit_byte(b) || b == 0x2d || b == 0x2b || b == 0x2e || b == 0x65 || b == 0x45
}

/// The first position at or after `i` that does not hold whitespace.
pub open spec fn spec_skip_ws(s: Seq<u8>, i: int) -> int
    decreases s.len() - i,
    when 0 <= i <= s.len()
{
    if i < s.len() && is_ws(s[i]) {
        spec_skip_ws(s, i + 1)
    } else {
        i
    }
}

pub proof fn lemma_skip_ws_bounds(s: Seq<u8>, i: int)
    requires
        0 <= i <= s.len(),
    ensures
        i <= spec_skip_ws(s, i) <= s.len(),
        spec_skip_ws(s, i) < s.len() ==> !is_ws(s[spec_skip_ws(s, i)]),
    decreases s.len() - i,
{
    if i < s.len() && is_ws(s[i]) {
        lemma_skip_ws_bounds(s, i + 1);
    }
}

/// The end of the maximal run of numeric-literal bytes starting at `i`.
pub open spec fn spec_scan_num(s: Seq<u8>, i: int) -> int
    decreases s.len() - i,
    when 0 <= i <= s.len()
{
    if i < s.len() && is_num_byte(s[i]) {
        spec_scan_num(s, i + 1)
    } else {
        i
    }
}

pub proof fn lemma_scan_num_bounds(s: Seq<u8>, i: int)
    requires
        0 <= i <= s.len(),
    ensures
        i <= spec_scan_num(s, i) <= s.len(),
    decreases s.len() - i,
{
    if i < s.len() && is_num_byte(s[i]) {
        lemma_scan_num_bounds(s, i + 1);
    }
}

/// The value of one hexadecimal digit byte, if it is one.
pub open spec fn spec_hex_val(b: u8) -> Option<u32> {
    if 0x30 <= b <= 0x39 {
        Some((b - 0x30) as u32)
    } else if 0x41 <= b <= 0x46 {
        Some((b - 0x41 + 10) as u32)
    } else if 0x61 <= b <= 0x66 {
        Some((b - 0x61 + 10) as u32)
    } else {
        None
    }
}

/// The value of the four hexadecimal digit bytes at `i`.
pub open spec fn spec_hex4(s: Seq<u8>, i: int) -> Option<u32>
    recommends
        0 <= i,
        i + 4 <= s.len(),
{
    match (spec_hex_val(s[i]), spec_hex_val(s[i + 1]), spec_hex_val(s[i + 2]), spec_hex_val(
        s[i + 3],
    )) {
        (Some(a), Some(b), Some(c), Some(d)) => Some(
            (a * 0x1000 + b * 0x100 + c * 0x10 + d) as u32,
        ),
        _ => None,
    }
}

/// The byte a single-character escape stands for, if the escape is defined.
pub open spec fn spec_escape_byte(e: u8) -> Option<u8> {
    if e == 0x22 {
        Some(0x22)
    } else if e == 0x5c {
        Some(0x5c)
    } else if e == 0x2f {
        Some(0x2f)
    } else if e == 0x62 {
        Some(0x08)
    } else if e == 0x66 {
        Some(0x0c)
    } else if e == 0x6e {
        Some(0x0a)
    } else if e == 0x72 {
        Some(0x0d)
    } else if e == 0x74 {
        Some(0x09)
    } else {
        None
    }
}

/// Reads a string body starting just inside the opening quote at `i`.
///
/// On success the result holds the unescaped content bytes and the position
/// just past the closing quote.  `\uXXXX` escapes, surrogate pairs included,
/// become the UTF-8 encoding of the code point they name; a lone surrogate
/// or an unknown escape fails the scan, as does a missing closing quote.
pub open spec fn spec_scan_str(s: Seq<u8>, i: int) -> Option<(Seq<u8>, int)>
    decreases s.len() - i,
    when 0 <= i <= s.len()
{
    if i >= s.len() {
        None
    } else if s[i] == 0x22 {
        Some((Seq::empty(), i + 1))
    } else if s[i] == 0x5c {
        if i + 1 >= s.len() {
            None
        } else if s[i + 1] == 0x75 {
            if i + 6 > s.len() {
                None
            } else {
                match spec_hex4(s, i + 2) {
                    None => None,
                    Some(code) => {
                        if 0xD800 <= code <= 0xDBFF {
                            if i + 12 > s.len() || s[i + 6] != 0x5c || s[i + 7] != 0x75 {
                                None
                            } else {
                                match spec_hex4(s, i + 8) {
                                    None => None,
                                    Some(lo) => {
                                        if 0xDC00 <= lo <= 0xDFFF {
                                            let cp = (0x10000 + (code - 0xD800) * 0x400 + (lo
                                                - 0xDC00)) as u32;
                                            match spec_scan_str(s, i + 12) {
                                                None => None,
                                                Some((rest, e)) => Some(
                                                    (encode_scalar(cp) + rest, e),
                                                ),
                                            }
                                        } else {
                                            None
                                        }
                                    },
                                }
                            }
                        } else if 0xDC00 <= code <= 0xDFFF {
                            None
                        } else {
                            match spec_scan_str(s, i + 6) {
                                None => None,
                                Some((rest, e)) => Some((encode_scalar(code) + rest, e)),
                            }
                        }
                    },
                }
            }
        } else {
            match spec_escape_byte(s[i + 1]) {
                None => None,
                Some(c) => match spec_scan_str(s, i + 2) {
                    None => None,
                    Some((rest, e)) => Some((seq![c] + rest, e)),
                },
            }
        }
    } else {
        match spec_scan_str(s, i + 1) {
            None => None,
            Some((rest, e)) => Some((seq![s[i]] + rest, e)),
        }
    }
}

pub proof fn lemma_scan_str_bounds(s: Seq<u8>, i: int)
    requires
        0 <= i <= s.len(),
        spec_scan_str(s, i) is Some,
    ensures
        i < (spec_scan_str(s, i)->0).1 <= s.len(),
    decreases s.len() - i,
{
    if i >= s.len() {
    } else if s[i] == 0x22 {
    } else if s[i] == 0x5c {
        if s[i + 1] == 0x75 {
            match spec_hex4(s, i + 2) {
                None => {},
                Some(code) => {
                    if 0xD800 <= code <= 0xDBFF {
                        lemma_scan_str_bounds(s, i + 12);
                    } else if 0xDC00 <= code <= 0xDFFF {
                    } else {
                        lemma_scan_str_bounds(s, i + 6);
                    }
                },
            }
        } else {
            if spec_escape_byte(s[i + 1]) is Some {
                lemma_scan_str_bounds(s, i + 2);
            }
        }
    } else {
        lemma_scan_str_bounds(s, i + 1);
    }
}

/// One JSON token, at the specification level.
pub enum TokenRep {
    OpenBrace,
    CloseBrace,
    OpenBracket,
    CloseBracket,
    Colon,
    Comma,
    NullTok,
    TrueTok,
    FalseTok,
    /// A numeric literal, kept as its raw bytes.
    NumTok(Seq<u8>),
    /// A string literal, as its unescaped UTF-8 content bytes.
    StrTok(Seq<u8>),
}

/// One JSON token as the tokenizer materializes it.
pub enum Token {
    OpenBrace,
    CloseBrace,
    OpenBracket,
    CloseBracket,
    Colon,
    Comma,
    NullTok,
    TrueTok,
    FalseTok,
    /// A numeric literal, kept as its raw bytes.
    NumTok(Vec<u8>),
    /// A string literal, as its unescaped UTF-8 content bytes.
    StrTok(Vec<u8>),
}

impl View for Token {
    type V = TokenRep;

    open spec fn view(&self) -> TokenRep {
        match self {
            Token::OpenBrace => TokenRep::OpenBrace,
            Token::CloseBrace => TokenRep::CloseBrace,
            Token::OpenBracket => TokenRep::OpenBracket,
            Token::CloseBracket => TokenRep::CloseBracket,
            Token::Colon => TokenRep::Colon,
            Token::Comma => TokenRep::Comma,
            Token::NullTok => TokenRep::NullTok,
            Token::TrueTok => TokenRep::TrueTok,
            Token::FalseTok => TokenRep::FalseTok,
            Token::NumTok(b) => TokenRep::NumTok(b@),
            Token::StrTok(b) => TokenRep::StrTok(b@),
        }
    }
}

/// The token sequence a sequence of tokens stands for.
pub open spec fn toks_view(ts: Seq<Token>) -> Seq<TokenRep> {
    ts.map_values(|t: Token| t@)
}

/// The token starting at `j`, which must not hold whitespace, and the
/// position just past it.
pub open spec fn spec_token_at(s: Seq<u8>, j: int) -> Option<(TokenRep, int)>
    recommends
        0 <= j < s.len(),
{
    let b = s[j];
    if b == 0x7b {
        Some((TokenRep::OpenBrace, j + 1))
    } else if b == 0x7d {
        Some((TokenRep::CloseBrace, j + 1))
    } else if b == 0x5b {
        Some((TokenRep::OpenBracket, j + 1))
    } else if b == 0x5d {
        Some((TokenRep::CloseBracket, j + 1))
    } else if b == 0x3a {
        Some((TokenRep::Colon, j + 1))
    } else if b == 0x2c {
        Some((TokenRep::Comma, j + 1))
    } else if b == 0x22 {
        match spec_scan_str(s, j + 1) {
            None => None,
            Some((c, e)) => Some((TokenRep::StrTok(c), e)),
        }
    } else if b == 0x6e {
        if j + 4 <= s.len() && s[j + 1] == 0x75 && s[j + 2] == 0x6c && s[j + 3] == 0x6c {
            Some((TokenRep::NullTok, j + 4))
        } else {
            None
        }
    } else if b == 0x74 {
        if j + 4 <= s.len() && s[j + 1] == 0x72 && s[j + 2] == 0x75 && s[j + 3] == 0x65 {
            Some((TokenRep::TrueTok, j + 4))
        } else {
            None
        }
    } else if b == 0x66 {
        if j + 5 <= s.len() && s[j + 1] == 0x61 && s[j + 2] == 0x6c && s[j + 3] == 0x73 && s[j
            + 4] == 0x65 {
            Some((TokenRep::FalseTok, j + 5))
        } else {
            None
        }
    } else if b == 0x2d || is_digit_byte(b) {
        let e = spec_scan_num(s, j + 1);
        Some((TokenRep::NumTok(s.subrange(j, e)), e))
    } else {
        None
    }
}

pub proof fn lemma_token_at_bounds(s: Seq<u8>, j: int)
    requires
        0 <= j < s.len(),
        spec_token_at(s, j) is Some,
    ensures
        j < (spec_token_at(s, j)->0).1 <= s.len(),
{
    let b = s[j];
    if b == 0x22 {
        lemma_scan_str_bounds(s, j + 1);
    } else if b == 0x7b || b == 0x7d || b == 0x5b || b == 0x5d || b == 0x3a || b == 0x2c || b
        == 0x6e || b == 0x74 || b == 0x66 {
    } else if b == 0x2d || is_digit_byte(b) {
        lemma_scan_num_bounds(s, j + 1);
    }
}

/// The tokens of the input from position `i` on, or nothing when a malformed
/// token is met.
pub open spec fn spec_tokens_from(s: Seq<u8>, i: int) -> Option<Seq<TokenRep>>
    decreases s.len() - i,
    when 0 <= i <= s.len()
    via spec_tokens_from_decreases
{
    let j = spec_skip_ws(s, i);
    if j >= s.len() {
        Some(Seq::empty())
    } else {
        match spec_token_at(s, j) {
            None => None,
            Some((t, e)) => match spec_tokens_from(s, e) {
                None => None,
                Some(rest) => Some(seq![t] + rest),
            },
        }
    }
}

#[via_fn]
proof fn spec_tokens_from_decreases(s: Seq<u8>, i: int) {
    lemma_skip_ws_bounds(s, i);
    let j = spec_skip_ws(s, i);
    if j < s.len() && spec_token_at(s, j) is Some {
        lemma_token_at_bounds(s, j);
    }
}

/// The tokens of the whole input.
pub open spec fn spec_tokens(s: Seq<u8>) -> Option<Seq<TokenRep>> {
    spec_tokens_from(s, 0)
}

fn skip_ws(v: &Vec<u8>, i: usize) -> (r: usize)
    requires
        i <= v@.len(),
    ensures
        r == spec_skip_ws(v@, i as int),
        i <= r <= v@.len(),
{
    let mut j: usize = i;
    while j < v.len() && (v[j] == 0x20 || v[j] == 0x09 || v[j] == 0x0a || v[j] == 0x0d)
        invariant
            i <= j <= v@.len(),
            spec_skip_ws(v@, i as int) == spec_skip_ws(v@, j as int),
        decreases v@.len() - j,
    {
        j += 1;
    }
    j
}

fn scan_num(v: &Vec<u8>, i: usize) -> (r: usize)
    requires
        i <= v@.len(),
    ensures
        r == spec_scan_num(v@, i as int),
        i <= r <= v@.len(),
{
    let mut j: usize = i;
    while j < v.len() && (v[j] == 0x2d || v[j] == 0x2b || v[j] == 0x2e || v[j] == 0x65 || v[j]
        == 0x45 || (0x30 <= v[j] && v[j] <= 0x39))
        invariant
            i <= j <= v@.len(),
            spec_scan_num(v@, i as int) == spec_scan_num(v@, j as int),
        decreases v@.len() - j,
    {
        j += 1;
    }
    j
}

fn hex_val(b: u8) -> (r: Option<u32>)
    ensures
        r == spec_hex_val(b),
{
    if 0x30 <= b && b <= 0x39 {
        Some((b - 0x30) as u32)
    } else if 0x41 <= b && b <= 0x46 {
        Some((b - 0x41 + 10) as u32)
    } else if 0x61 <= b && b <= 0x66 {
        Some((b - 0x61 + 10) as u32)
    } else {
        None
    }
}

fn hex4(v: &Vec<u8>, i: usize) -> (r: Option<u32>)
    requires
        i + 4 <= v@.len(),
    ensures
        r == spec_hex4(v@, i as int),
{
    proof {
        assert(v.len() == v@.len());
    }
    let a = match hex_val(v[i]) {
        Some(x) => x,
        None => {
            return None;
        },
    };
    let b = match hex_val(v[i + 1]) {
        Some(x) => x,
        None => {
            return None;
        },
    };
    let c = match hex_val(v[i + 2]) {
        Some(x) => x,
        None => {
            return None;
        },
    };
    let d = match hex_val(v[i + 3]) {
        Some(x) => x,
        None => {
            return None;
        },
    };
    Some(a * 0x1000 + b * 0x100 + c * 0x10 + d)
}

fn escape_byte(e: u8) -> (r: Option<u8>)
    ensures
        r == spec_escape_byte(e),
{
    if e == 0x22 {
        Some(0x22)
    } else if e == 0x5c {
        Some(0x5c)
    } else if e == 0x2f {
        Some(0x2f)
    } else if e == 0x62 {
        Some(0x08)
    } else if e == 0x66 {
        Some(0x0c)
    } else if e == 0x6e {
        Some(0x0a)
    } else if e == 0x72 {
        Some(0x0d)
    } else if e == 0x74 {
        Some(0x09)
    } else {
        None
    }
}

/// Appends the UTF-8 encoding of one Unicode scalar value.
fn push_utf8(out: &mut Vec<u8>, cp: u32)
    requires
        is_scalar(cp),
    ensures
        final(out)@ == old(out)@ + encode_scalar(cp),
{
    let ghost before = out@;
    if cp <= 0x7F {
        out.push((cp & 0x7F) as u8);
        proof {
            assert(before.push(vstd::utf8::leading_byte_width_1(cp)) =~= before + encode_scalar(
                cp,
            ));
        }
    } else if cp <= 0x7FF {
        out.push(0xC0 | ((cp >> 6) & 0x1F) as u8);
        out.push(0x80 | (cp & 0x3F) as u8);
        proof {
            assert(before.push(vstd::utf8::leading_byte_width_2(cp)).push(
                vstd::utf8::last_continuation_byte(cp),
            ) =~= before + encode_scalar(cp));
        }
    } else if cp <= 0xFFFF {
        out.push(0xE0 | ((cp >> 12) & 0x0F) as u8);
        out.push(0x80 | ((cp >> 6) & 0x3F) as u8);
        out.push(0x80 | (cp & 0x3F) as u8);
        proof {
            assert(before.push(vstd::utf8::leading_byte_width_3(cp)).push(
                vstd::utf8::second_last_continuation_byte(cp),
            ).push(vstd::utf8::last_continuation_byte(cp)) =~= before + encode_scalar(cp));
        }
    } else {
        out.push(0xF0 | ((cp >> 18) & 0x7) as u8);
        out.push(0x80 | ((cp >> 12) & 0x3F) as u8);
        out.push(0x80 | ((cp >> 6) & 0x3F) as u8);
        out.push(0x80 | (cp & 0x3F) as u8);
        proof {
            assert(before.push(vstd::utf8::leading_byte_width_4(cp)).push(
                vstd::utf8::third_last_continuation_byte(cp),
            ).push(vstd::utf8::second_last_continuation_byte(cp)).push(
                vstd::utf8::last_continuation_byte(cp),
            ) =~= before + encode_scalar(cp));
        }
    }
}

fn scan_str(v: &Vec<u8>, start: usize) -> (r: Option<(Vec<u8>, usize)>)
    requires
        start <= v@.len(),
    ensures
        r is Some <==> spec_scan_str(v@, start as int) is Some,
        r is Some ==> (r->0).0@ == (spec_scan_str(v@, start as int)->0).0,
        r is Some ==> (r->0).1 == (spec_scan_str(v@, start as int)->0).1,
{
    let ghost s = v@;
    let mut acc: Vec<u8> = Vec::new();
    let mut i: usize = start;
    loop
        invariant
            start <= i <= s.len(),
            v@ == s,
            match spec_scan_str(s, i as int) {
                None => spec_scan_str(s, start as int) is None,
                Some((c, e)) => spec_scan_str(s, start as int) == Some((acc@ + c, e)),
            },
        decreases s.len() - i,
    {
        if i >= v.len() {
            return None;
        }
        let b = v[i];
        if b == 0x22 {
            proof {
                assert(acc@ + Seq::<u8>::empty() =~= acc@);
            }
            return Some((acc, i + 1));
        } else if b == 0x5c {
            if v.len() - i < 2 {
                return None;
            }
            let e = v[i + 1];
            if e == 0x75 {
                if v.len() - i < 6 {
                    return None;
                }
                let code = match hex4(v, i + 2) {
                    Some(x) => x,
                    None => {
                        return None;
                    },
                };
                if 0xD800 <= code && code <= 0xDBFF {
                    if v.len() - i < 12 || v[i + 6] != 0x5c || v[i + 7] != 0x75 {
                        return None;
                    }
                    let lo = match hex4(v, i + 8) {
                        Some(x) => x,
                        None => {
                            return None;
                        },
                    };
                    if !(0xDC00 <= lo && lo <= 0xDFFF) {
                        return None;
                    }
                    let cp: u32 = 0x10000 + (code - 0xD800) * 0x400 + (lo - 0xDC00);
                    let ghost acc0 = acc@;
                    push_utf8(&mut acc, cp);
                    proof {
                        if spec_scan_str(s, i + 12) is Some {
                            let (rest, e2) = spec_scan_str(s, i + 12)->0;
                            assert(acc0 + (encode_scalar(cp) + rest) =~= acc@ + rest);
                        }
                    }
                    i += 12;
                } else if 0xDC00 <= code && code <= 0xDFFF {
                    return None;
                } else {
                    let ghost acc0 = acc@;
                    push_utf8(&mut acc, code);
                    proof {
                        if spec_scan_str(s, i + 6) is Some {
                            let (rest, e2) = spec_scan_str(s, i + 6)->0;
                            assert(acc0 + (encode_scalar(code) + rest) =~= acc@ + rest);
                        }
                    }
                    i += 6;
                }
            } else {
                let c = match escape_byte(e) {
                    Some(x) => x,
                    None => {
                        return None;
                    },
                };
                let ghost acc0 = acc@;
                acc.push(c);
                proof {
                    if spec_scan_str(s, i + 2) is Some {
                        let (rest, e2) = spec_scan_str(s, i + 2)->0;
                        assert(acc0 + (seq![c] + rest) =~= acc@ + rest);
                    }
                }
                i += 2;
            }
        } else {
            let ghost acc0 = acc@;
            acc.push(b);
            proof {
                if spec_scan_str(s, i + 1) is Some {
                    let (rest, e2) = spec_scan_str(s, i + 1)->0;
                    assert(acc0 + (seq![b] + rest) =~= acc@ + rest);
                }
            }
            i += 1;
        }
    }
}

fn token_at(v: &Vec<u8>, j: usize) -> (r: Option<(Token, usize)>)
    requires
        j < v@.len(),
    ensures
        r is Some <==> spec_token_at(v@, j as int) is Some,
        r is Some ==> (r->0).0@ == (spec_token_at(v@, j as int)->0).0,
        r is Some ==> (r->0).1 == (spec_token_at(v@, j as int)->0).1,
        r is Some ==> j < (r->0).1 <= v@.len(),
{
    proof {
        assert(v.len() == v@.len());
        if spec_token_at(v@, j as int) is Some {
            lemma_token_at_bounds(v@, j as int);
        }
    }
    let b = v[j];
    if b == 0x7b {
        Some((Token::OpenBrace, j + 1))
    } else if b == 0x7d {
        Some((Token::CloseBrace, j + 1))
    } else if b == 0x5b {
        Some((Token::OpenBracket, j + 1))
    } else if b == 0x5d {
        Some((Token::CloseBracket, j + 1))
    } else if b == 0x3a {
        Some((Token::Colon, j + 1))
    } else if b == 0x2c {
        Some((Token::Comma, j + 1))
    } else if b == 0x22 {
        match scan_str(v, j + 1) {
            None => None,
            Some((c, e)) => Some((Token::StrTok(c), e)),
        }
    } else if b == 0x6e {
        if v.len() - j >= 4 && v[j + 1] == 0x75 && v[j + 2] == 0x6c && v[j + 3] == 0x6c {
            Some((Token::NullTok, j + 4))
        } else {
            None
        }
    } else if b == 0x74 {
        if v.len() - j >= 4 && v[j + 1] == 0x72 && v[j + 2] == 0x75 && v[j + 3] == 0x65 {
            Some((Token::TrueTok, j + 4))
        } else {
            None
        }
    } else if b == 0x66 {
        if v.len() - j >= 5 && v[j + 1] == 0x61 && v[j + 2] == 0x6c && v[j + 3] == 0x73 && v[j
            + 4] == 0x65 {
            Some((Token::FalseTok, j + 5))
        } else {
            None
        }
    } else if b == 0x2d || (0x30 <= b && b <= 0x39) {
        let e = scan_num(v, j + 1);
        let bytes = copy_range(v, j, e);
        Some((Token::NumTok(bytes), e))
    } else {
        None
    }
}

/// Turns a response body into its token sequence, or nothing when the body
/// is not a sequence of well-formed JSON tokens.
pub fn tokenize(v: &Vec<u8>) -> (r: Option<Vec<Token>>)
    ensures
        r is Some <==> spec_tokens(v@) is Some,
        r is Some ==> toks_view(r->0@) == spec_tokens(v@)->0,
{
    let mut acc: Vec<Token> = Vec::new();
    let mut i: usize = 0;
    loop
        invariant
            i <= v@.len(),
            match spec_tokens_from(v@, i as int) {
                None => spec_tokens(v@) is None,
                Some(rest) => spec_tokens(v@) == Some(toks_view(acc@) + rest),
            },
        decreases v@.len() - i,
    {
        let j = skip_ws(v, i);
        if j >= v.len() {
            proof {
                assert(toks_view(acc@) + Seq::<TokenRep>::empty() =~= toks_view(acc@));
            }
            return Some(acc);
        }
        match token_at(v, j) {
            None => {
                return None;
            },
            Some((t, e)) => {
                let ghost acc0 = acc@;
                let ghost trep = t@;
                acc.push(t);
                proof {
                    assert(toks_view(acc@) =~= toks_view(acc0) + seq![trep]);
                    if spec_tokens_from(v@, e as int) is Some {
                        let rest = spec_tokens_from(v@, e as int)->0;
                        assert((toks_view(acc0) + seq![trep]) + rest =~= toks_view(acc0) + (
                        seq![trep] + rest));
                    }
                }
                i = e;
            },
        }
    }
}

/// One field value of a flat record, at the specification level.
pub enum FieldRep {
    Null,
    Bool(bool),
    /// A numeric literal, as its raw bytes.
    Num(Seq<u8>),
    /// A string value, as its unescaped UTF-8 content bytes.
    Text(Seq<u8>),
    /// A nested array or object, tolerated and skipped.
    Composite,
}

/// One field value of a flat record.
pub enum FieldVal {
    Null,
    Bool(bool),
    /// A numeric literal, as its raw bytes.
    Num(Vec<u8>),
    /// A string value, as its unescaped UTF-8 content bytes.
    Text(Vec<u8>),
    /// A nested array or object, tolerated and skipped.
    Composite,
}

impl View for FieldVal {
    type V = FieldRep;

    open spec fn view(&self) -> FieldRep {
        match self {
            FieldVal::Null => FieldRep::Null,
            FieldVal::Bool(b) => FieldRep::Bool(*b),
            FieldVal::Num(b) => FieldRep::Num(b@),
            FieldVal::Text(b) => FieldRep::Text(b@),
            FieldVal::Composite => FieldRep::Composite,
        }
    }
}

/// The fields of a flat record, in the order the body gives them.
pub type Fields = Vec<(Vec<u8>, FieldVal)>;

/// The specification-level counterpart of [`Fields`].
pub type FieldsRep = Seq<(Seq<u8>, FieldRep)>;

/// The field sequence a vector of fields stands for.
pub open spec fn fields_view(fs: Seq<(Vec<u8>, FieldVal)>) -> FieldsRep {
    fs.map_values(|p: (Vec<u8>, FieldVal)| (p.0@, p.1@))
}

/// The record sequence a vector of records stands for.
pub open spec fn records_view(rs: Seq<Fields>) -> Seq<FieldsRep> {
    rs.map_values(|f: Fields| fields_view(f@))
}

/// The position just past a nested value, entered at nesting depth `depth`,
/// counting every opening token up and every closing token down.
pub open spec fn spec_skip_composite(ts: Seq<TokenRep>, i: int, depth: int) -> Option<int>
    decreases ts.len() - i,
    when 0 <= i <= ts.len()
{
    if i >= ts.len() {
        None
    } else {
        let d2 = match ts[i] {
            TokenRep::OpenBrace => depth + 1,
            TokenRep::OpenBracket => depth + 1,
            TokenRep::CloseBrace => depth - 1,
            TokenRep::CloseBracket => depth - 1,
            _ => depth,
        };
        if d2 == 0 {
            Some(i + 1)
        } else {
            spec_skip_composite(ts, i + 1, d2)
        }
    }
}

pub proof fn lemma_skip_composite_bounds(ts: Seq<TokenRep>, i: int, depth: int)
    requires
        0 <= i <= ts.len(),
        spec_skip_composite(ts, i, depth) is Some,
    ensures
        i < spec_skip_composite(ts, i, depth)->0 <= ts.len(),
    decreases ts.len() - i,
{
    if i < ts.len() {
        let d2 = match ts[i] {
            TokenRep::OpenBrace => depth + 1,
            TokenRep::OpenBracket => depth + 1,
            TokenRep::CloseBrace => depth - 1,
            TokenRep::CloseBracket => depth - 1,
            _ => depth,
        };
        if d2 != 0 {
            lemma_skip_composite_bounds(ts, i + 1, d2);
        }
    }
}

/// The field value starting at token `i` and the position just past it.
/// A scalar token becomes its value; a nested array or object is skipped
/// and becomes [`FieldRep::Composite`].
pub open spec fn spec_value_at(ts: Seq<TokenRep>, i: int) -> Option<(FieldRep, int)> {
    if i >= ts.len() {
        None
    } else {
        match ts[i] {
            TokenRep::NullTok => Some((FieldRep::Null, i + 1)),
            TokenRep::TrueTok => Some((FieldRep::Bool(true), i + 1)),
            TokenRep::FalseTok => Some((FieldRep::Bool(false), i + 1)),
            TokenRep::NumTok(b) => Some((FieldRep::Num(b), i + 1)),
            TokenRep::StrTok(b) => Some((FieldRep::Text(b), i + 1)),
            TokenRep::OpenBrace => match spec_skip_composite(ts, i + 1, 1) {
                None => None,
                Some(e) => Some((FieldRep::Composite, e)),
            },
            TokenRep::OpenBracket => match spec_skip_composite(ts, i + 1, 1) {
                None => None,
                Some(e) => Some((FieldRep::Composite, e)),
            },
            _ => None,
        }
    }
}

pub proof fn lemma_value_at_bounds(ts: Seq<TokenRep>, i: int)
    requires
        0 <= i <= ts.len(),
        spec_value_at(ts, i) is Some,
    ensures
        i < (spec_value_at(ts, i)->0).1 <= ts.len(),
{
    if i < ts.len() {
        match ts[i] {
            TokenRep::OpenBrace => lemma_skip_composite_bounds(ts, i + 1, 1),
            TokenRep::OpenBracket => lemma_skip_composite_bounds(ts, i + 1, 1),
            _ => {},
        }
    }
}

/// The members of a flat record, read from just inside its opening brace,
/// and the position just past its closing brace.
pub open spec fn spec_fields_from(ts: Seq<TokenRep>, i: int) -> Option<(FieldsRep, int)>
    decreases ts.len() - i,
    when 0 <= i <= ts.len()
    via spec_fields_from_decreases
{
    if i >= ts.len() {
        None
    } else if ts[i] is CloseBrace {
        Some((Seq::empty(), i + 1))
    } else {
        match ts[i] {
            TokenRep::StrTok(k) => {
                if i + 1 >= ts.len() || !(ts[i + 1] is Colon) {
                    None
                } else {
                    match spec_value_at(ts, i + 2) {
                        None => None,
                        Some((fv, e)) => {
                            if e >= ts.len() {
                                None
                            } else if ts[e] is Comma {
                                match spec_fields_from(ts, e + 1) {
                                    None => None,
                                    Some((rest, e2)) => Some((seq![(k, fv)] + rest, e2)),
                                }
                            } else if ts[e] is CloseBrace {
                                Some((seq![(k, fv)], e + 1))
                            } else {
                                None
                            }
                        },
                    }
                }
            },
            _ => None,
        }
    }
}

#[via_fn]
proof fn spec_fields_from_decreases(ts: Seq<TokenRep>, i: int) {
    if i < ts.len() && spec_value_at(ts, i + 2) is Some && i + 2 <= ts.len() {
        lemma_value_at_bounds(ts, i + 2);
    }
}

pub proof fn lemma_fields_from_bounds(ts: Seq<TokenRep>, i: int)
    requires
        0 <= i <= ts.len(),
        spec_fields_from(ts, i) is Some,
    ensures
        i < (spec_fields_from(ts, i)->0).1 <= ts.len(),
    decreases ts.len() - i,
{
    if i < ts.len() && !(ts[i] is CloseBrace) {
        match ts[i] {
            TokenRep::StrTok(k) => {
                if i + 1 < ts.len() && ts[i + 1] is Colon && spec_value_at(ts, i + 2) is Some {
                    lemma_value_at_bounds(ts, i + 2);
                    let e = (spec_value_at(ts, i + 2)->0).1;
                    if e < ts.len() && ts[e] is Comma {
                        lemma_fields_from_bounds(ts, e + 1);
                    }
                }
            },
            _ => {},
        }
    }
}

/// The records of an array of flat records, read from just inside its
/// opening bracket, and the position just past its closing bracket.
pub open spec fn spec_records_from(ts: Seq<TokenRep>, i: int) -> Option<(Seq<FieldsRep>, int)>
    decreases ts.len() - i,
    when 0 <= i <= ts.len()
    via spec_records_from_decreases
{
    if i >= ts.len() {
        None
    } else if ts[i] is CloseBracket {
        Some((Seq::empty(), i + 1))
    } else if ts[i] is OpenBrace {
        match spec_fields_from(ts, i + 1) {
            None => None,
            Some((f, e)) => {
                if e >= ts.len() {
                    None
                } else if ts[e] is Comma {
                    match spec_records_from(ts, e + 1) {
                        None => None,
                        Some((rest, e2)) => Some((seq![f] + rest, e2)),
                    }
                } else if ts[e] is CloseBracket {
                    Some((seq![f], e + 1))
                } else {
                    None
                }
            },
        }
    } else {
        None
    }
}

#[via_fn]
proof fn spec_records_from_decreases(ts: Seq<TokenRep>, i: int) {
    if i < ts.len() && spec_fields_from(ts, i + 1) is Some {
        lemma_fields_from_bounds(ts, i + 1);
    }
}

/// The members of an object whose values are flat records, read from just
/// inside its opening brace, and the position just past its closing brace.
pub open spec fn spec_objmap_from(ts: Seq<TokenRep>, i: int) -> Option<
    (Seq<(Seq<u8>, FieldsRep)>, int),
>
    decreases ts.len() - i,
    when 0 <= i <= ts.len()
    via spec_objmap_from_decreases
{
    if i >= ts.len() {
        None
    } else if ts[i] is CloseBrace {
        Some((Seq::empty(), i + 1))
    } else {
        match ts[i] {
            TokenRep::StrTok(k) => {
                if i + 2 >= ts.len() || !(ts[i + 1] is Colon) || !(ts[i + 2] is OpenBrace) {
                    None
                } else {
                    match spec_fields_from(ts, i + 3) {
                        None => None,
                        Some((f, e)) => {
                            if e >= ts.len() {
                                None
                            } else if ts[e] is Comma {
                                match spec_objmap_from(ts, e + 1) {
                                    None => None,
                                    Some((rest, e2)) => Some((seq![(k, f)] + rest, e2)),
                                }
                            } else if ts[e] is CloseBrace {
                                Some((seq![(k, f)], e + 1))
                            } else {
                                None
                            }
                        },
                    }
                }
            },
            _ => None,
        }
    }
}

#[via_fn]
proof fn spec_objmap_from_decreases(ts: Seq<TokenRep>, i: int) {
    if i + 3 <= ts.len() && spec_fields_from(ts, i + 3) is Some {
        lemma_fields_from_bounds(ts, i + 3);
    }
}

/// The fields of a body that holds exactly one flat record.
pub open spec fn spec_object_doc(s: Seq<u8>) -> Option<FieldsRep> {
    match spec_tokens(s) {
        None => None,
        Some(ts) => {
            if ts.len() == 0 || !(ts[0] is OpenBrace) {
                None
            } else {
                match spec_fields_from(ts, 1) {
                    None => None,
                    Some((f, e)) => if e == ts.len() {
                        Some(f)
                    } else {
                        None
                    },
                }
            }
        },
    }
}

/// The records of a body that holds exactly one array of flat records.
pub open spec fn spec_record_array_doc(s: Seq<u8>) -> Option<Seq<FieldsRep>> {
    match spec_tokens(s) {
        None => None,
        Some(ts) => {
            if ts.len() == 0 || !(ts[0] is OpenBracket) {
                None
            } else {
                match spec_records_from(ts, 1) {
                    None => None,
                    Some((rs, e)) => if e == ts.len() {
                        Some(rs)
                    } else {
                        None
                    },
                }
            }
        },
    }
}

/// The member sequence a vector of named records stands for.
pub open spec fn objmap_view(ms: Seq<(Vec<u8>, Fields)>) -> Seq<(Seq<u8>, FieldsRep)> {
    ms.map_values(|p: (Vec<u8>, Fields)| (p.0@, fields_view(p.1@)))
}

/// The members of a body that holds exactly one object of flat records.
pub open spec fn spec_objmap_doc(s: Seq<u8>) -> Option<Seq<(Seq<u8>, FieldsRep)>> {
    match spec_tokens(s) {
        None => None,
        Some(ts) => {
            if ts.len() == 0 || !(ts[0] is OpenBrace) {
                None
            } else {
                match spec_objmap_from(ts, 1) {
                    None => None,
                    Some((m, e)) => if e == ts.len() {
                        Some(m)
                    } else {
                        None
                    },
                }
            }
        },
    }
}

fn skip_composite(ts: &Vec<Token>, start: usize) -> (r: Option<usize>)
    requires
        1 <= start <= ts@.len(),
    ensures
        r is Some <==> spec_skip_composite(toks_view(ts@), start as int, 1) is Some,
        r is Some ==> r->0 == spec_skip_composite(toks_view(ts@), start as int, 1)->0,
        r is Some ==> start < r->0 <= ts@.len(),
{
    proof {
        assert(ts.len() == ts@.len());
        if spec_skip_composite(toks_view(ts@), start as int, 1) is Some {
            lemma_skip_composite_bounds(toks_view(ts@), start as int, 1);
        }
    }
    let ghost tsv = toks_view(ts@);
    let mut depth: usize = 1;
    let mut i: usize = start;
    loop
        invariant
            1 <= start <= i <= ts@.len(),
            ts.len() == ts@.len(),
            tsv == toks_view(ts@),
            1 <= depth <= 1 + i - start,
            spec_skip_composite(tsv, start as int, 1) == spec_skip_composite(
                tsv,
                i as int,
                depth as int,
            ),
        decreases ts@.len() - i,
    {
        if i >= ts.len() {
            return None;
        }
        let d2: usize = match &ts[i] {
            Token::OpenBrace => depth + 1,
            Token::OpenBracket => depth + 1,
            Token::CloseBrace => depth - 1,
            Token::CloseBracket => depth - 1,
            _ => depth,
        };
        if d2 == 0 {
            return Some(i + 1);
        }
        depth = d2;
        i += 1;
    }
}

fn value_at(ts: &Vec<Token>, i: usize) -> (r: Option<(FieldVal, usize)>)
    requires
        i <= ts@.len(),
    ensures
        r is Some <==> spec_value_at(toks_view(ts@), i as int) is Some,
        r is Some ==> (r->0).0@ == (spec_value_at(toks_view(ts@), i as int)->0).0,
        r is Some ==> (r->0).1 == (spec_value_at(toks_view(ts@), i as int)->0).1,
        r is Some ==> i < (r->0).1 <= ts@.len(),
{
    proof {
        assert(ts.len() == ts@.len());
    }
    if i >= ts.len() {
        return None;
    }
    match &ts[i] {
        Token::NullTok => Some((FieldVal::Null, i + 1)),
        Token::TrueTok => Some((FieldVal::Bool(true), i + 1)),
        Token::FalseTok => Some((FieldVal::Bool(false), i + 1)),
        Token::NumTok(b) => {
            let c = copy_range(b, 0, b.len());
            proof {
                assert(b@.subrange(0, b@.len() as int) =~= b@);
            }
            Some((FieldVal::Num(c), i + 1))
        },
        Token::StrTok(b) => {
            let c = copy_range(b, 0, b.len());
            proof {
                assert(b@.subrange(0, b@.len() as int) =~= b@);
            }
            Some((FieldVal::Text(c), i + 1))
        },
        Token::OpenBrace => match skip_composite(ts, i + 1) {
            None => None,
            Some(e) => Some((FieldVal::Composite, e)),
        },
        Token::OpenBracket => match skip_composite(ts, i + 1) {
            None => None,
            Some(e) => Some((FieldVal::Composite, e)),
        },
        _ => None,
    }
}

fn fields_from(ts: &Vec<Token>, start: usize) -> (r: Option<(Fields, usize)>)
    requires
        start <= ts@.len(),
    ensures
        r is Some <==> spec_fields_from(toks_view(ts@), start as int) is Some,
        r is Some ==> fields_view((r->0).0@) == (spec_fields_from(toks_view(ts@), start as int)
            ->0).0,
        r is Some ==> (r->0).1 == (spec_fields_from(toks_view(ts@), start as int)->0).1,
        r is Some ==> start < (r->0).1 <= ts@.len(),
{
    proof {
        assert(ts.len() == ts@.len());
        if spec_fields_from(toks_view(ts@), start as int) is Some {
            lemma_fields_from_bounds(toks_view(ts@), start as int);
        }
    }
    let ghost tsv = toks_view(ts@);
    let mut acc: Fields = Vec::new();
    let mut i: usize = start;
    loop
        invariant
            start <= i <= ts@.len(),
            ts.len() == ts@.len(),
            tsv == toks_view(ts@),
            match spec_fields_from(tsv, i as int) {
                None => spec_fields_from(tsv, start as int) is None,
                Some((rest, e)) => spec_fields_from(tsv, start as int) == Some(
                    (fields_view(acc@) + rest, e),
                ),
            },
        decreases ts@.len() - i,
    {
        if i >= ts.len() {
            return None;
        }
        match &ts[i] {
            Token::CloseBrace => {
                proof {
                    assert(fields_view(acc@) + Seq::<(Seq<u8>, FieldRep)>::empty() =~= fields_view(
                        acc@,
                    ));
                }
                return Some((acc, i + 1));
            },
            Token::StrTok(kref) => {
                if ts.len() - i < 2 {
                    return None;
                }
                match &ts[i + 1] {
                    Token::Colon => {},
                    _ => {
                        return None;
                    },
                }
                match value_at(ts, i + 2) {
                    None => {
                        return None;
                    },
                    Some((fv, e)) => {
                        if e >= ts.len() {
                            return None;
                        }
                        let k = copy_range(kref, 0, kref.len());
                        proof {
                            assert(kref@.subrange(0, kref@.len() as int) =~= kref@);
                        }
                        let ghost acc0 = acc@;
                        let ghost pair = (k@, fv@);
                        match &ts[e] {
                            Token::Comma => {
                                acc.push((k, fv));
                                proof {
                                    assert(fields_view(acc@) =~= fields_view(acc0) + seq![pair]);
                                    if spec_fields_from(tsv, e + 1) is Some {
                                        let rest2 = (spec_fields_from(tsv, e + 1)->0).0;
                                        assert((fields_view(acc0) + seq![pair]) + rest2
                                            =~= fields_view(acc0) + (seq![pair] + rest2));
                                    }
                                }
                                i = e + 1;
                            },
                            Token::CloseBrace => {
                                acc.push((k, fv));
                                proof {
                                    assert(fields_view(acc@) =~= fields_view(acc0) + seq![pair]);
                                }
                                return Some((acc, e + 1));
                            },
                            _ => {
                                return None;
                            },
                        }
                    },
                }
            },
            _ => {
                return None;
            },
        }
    }
}

fn records_from(ts: &Vec<Token>, start: usize) -> (r: Option<(Vec<Fields>, usize)>)
    requires
        start <= ts@.len(),
    ensures
        r is Some <==> spec_records_from(toks_view(ts@), start as int) is Some,
        r is Some ==> records_view((r->0).0@) == (spec_records_from(toks_view(ts@), start as int)
            ->0).0,
        r is Some ==> (r->0).1 == (spec_records_from(toks_view(ts@), start as int)->0).1,
{
    proof {
        assert(ts.len() == ts@.len());
    }
    let ghost tsv = toks_view(ts@);
    let mut acc: Vec<Fields> = Vec::new();
    let mut i: usize = start;
    loop
        invariant
            start <= i <= ts@.len(),
            ts.len() == ts@.len(),
            tsv == toks_view(ts@),
            match spec_records_from(tsv, i as int) {
                None => spec_records_from(tsv, start as int) is None,
                Some((rest, e)) => spec_records_from(tsv, start as int) == Some(
                    (records_view(acc@) + rest, e),
                ),
            },
        decreases ts@.len() - i,
    {
        if i >= ts.len() {
            return None;
        }
        match &ts[i] {
            Token::CloseBracket => {
                proof {
                    assert(records_view(acc@) + Seq::<FieldsRep>::empty() =~= records_view(acc@));
                }
                return Some((acc, i + 1));
            },
            Token::OpenBrace => {
                match fields_from(ts, i + 1) {
                    None => {
                        return None;
                    },
                    Some((f, e)) => {
                        if e >= ts.len() {
                            return None;
                        }
                        let ghost acc0 = acc@;
                        let ghost frep = fields_view(f@);
                        match &ts[e] {
                            Token::Comma => {
                                acc.push(f);
                                proof {
                                    assert(records_view(acc@) =~= records_view(acc0) + seq![frep]);
                                    if spec_records_from(tsv, e + 1) is Some {
                                        let rest2 = (spec_records_from(tsv, e + 1)->0).0;
                                        assert((records_view(acc0) + seq![frep]) + rest2
                                            =~= records_view(acc0) + (seq![frep] + rest2));
                                    }
                                }
                                i = e + 1;
                            },
                            Token::CloseBracket => {
                                acc.push(f);
                                proof {
                                    assert(records_view(acc@) =~= records_view(acc0) + seq![frep]);
                                }
                                return Some((acc, e + 1));
                            },
                            _ => {
                                return None;
                            },
                        }
                    },
                }
            },
            _ => {
                return None;
            },
        }
    }
}

fn objmap_from(ts: &Vec<Token>, start: usize) -> (r: Option<(Vec<(Vec<u8>, Fields)>, usize)>)
    requires
        start <= ts@.len(),
    ensures
        r is Some <==> spec_objmap_from(toks_view(ts@), start as int) is Some,
        r is Some ==> objmap_view((r->0).0@) == (spec_objmap_from(toks_view(ts@), start as int)
            ->0).0,
        r is Some ==> (r->0).1 == (spec_objmap_from(toks_view(ts@), start as int)->0).1,
{
    proof {
        assert(ts.len() == ts@.len());
    }
    let ghost tsv = toks_view(ts@);
    let mut acc: Vec<(Vec<u8>, Fields)> = Vec::new();
    let mut i: usize = start;
    loop
        invariant
            start <= i <= ts@.len(),
            ts.len() == ts@.len(),
            tsv == toks_view(ts@),
            match spec_objmap_from(tsv, i as int) {
                None => spec_objmap_from(tsv, start as int) is None,
                Some((rest, e)) => spec_objmap_from(tsv, start as int) == Some(
                    (objmap_view(acc@) + rest, e),
                ),
            },
        decreases ts@.len() - i,
    {
        if i >= ts.len() {
            return None;
        }
        match &ts[i] {
            Token::CloseBrace => {
                proof {
                    assert(objmap_view(acc@) + Seq::<(Seq<u8>, FieldsRep)>::empty() =~= objmap_view(
                        acc@,
                    ));
                }
                return Some((acc, i + 1));
            },
            Token::StrTok(kref) => {
                if ts.len() - i < 3 {
                    return None;
                }
                match &ts[i + 1] {
                    Token::Colon => {},
                    _ => {
                        return None;
                    },
                }
                match &ts[i + 2] {
                    Token::OpenBrace => {},
                    _ => {
                        return None;
                    },
                }
                match fields_from(ts, i + 3) {
                    None => {
                        return None;
                    },
                    Some((f, e)) => {
                        if e >= ts.len() {
                            return None;
                        }
                        let k = copy_range(kref, 0, kref.len());
                        proof {
                            assert(kref@.subrange(0, kref@.len() as int) =~= kref@);
                        }
                        let ghost acc0 = acc@;
                        let ghost pair = (k@, fields_view(f@));
                        match &ts[e] {
                            Token::Comma => {
                                acc.push((k, f));
                                proof {
                                    assert(objmap_view(acc@) =~= objmap_view(acc0) + seq![pair]);
                                    if spec_objmap_from(tsv, e + 1) is Some {
                                        let rest2 = (spec_objmap_from(tsv, e + 1)->0).0;
                                        assert((objmap_view(acc0) + seq![pair]) + rest2
                                            =~= objmap_view(acc0) + (seq![pair] + rest2));
                                    }
                                }
                                i = e + 1;
                            },
                            Token::CloseBrace => {
                                acc.push((k, f));
                                proof {
                                    assert(objmap_view(acc@) =~= objmap_view(acc0) + seq![pair]);
                                }
                                return Some((acc, e + 1));
                            },
                            _ => {
                                return None;
                            },
                        }
                    },
                }
            },
            _ => {
                return None;
            },
        }
    }
}

/// Reads a body that holds exactly one flat record.
pub fn parse_object_doc(v: &Vec<u8>) -> (r: Option<Fields>)
    ensures
        r is Some <==> spec_object_doc(v@) is Some,
        r is Some ==> fields_view(r->0@) == spec_object_doc(v@)->0,
{
    let ts = match tokenize(v) {
        None => {
            return None;
        },
        Some(x) => x,
    };
    if ts.len() == 0 {
        return None;
    }
    match &ts[0] {
        Token::OpenBrace => {},
        _ => {
            return None;
        },
    }
    match fields_from(&ts, 1) {
        None => None,
        Some((f, e)) => {
            if e == ts.len() {
                Some(f)
            } else {
                None
            }
        },
    }
}

/// Reads a body that holds exactly one array of flat records.
pub fn parse_record_array_doc(v: &Vec<u8>) -> (r: Option<Vec<Fields>>)
    ensures
        r is Some <==> spec_record_array_doc(v@) is Some,
        r is Some ==> records_view(r->0@) == spec_record_array_doc(v@)->0,
{
    let ts = match tokenize(v) {
        None => {
            return None;
        },
        Some(x) => x,
    };
    if ts.len() == 0 {
        return None;
    }
    match &ts[0] {
        Token::OpenBracket => {},
        _ => {
            return None;
        },
    }
    match records_from(&ts, 1) {
        None => None,
        Some((rs, e)) => {
            if e == ts.len() {
                Some(rs)
            } else {
                None
            }
        },
    }
}

/// Reads a body that holds exactly one object of flat records.
pub fn parse_objmap_doc(v: &Vec<u8>) -> (r: Option<Vec<(Vec<u8>, Fields)>>)
    ensures
        r is Some <==> spec_objmap_doc(v@) is Some,
        r is Some ==> objmap_view(r->0@) == spec_objmap_doc(v@)->0,
{
    let ts = match tokenize(v) {
        None => {
            return None;
        },
        Some(x) => x,
    };
    if ts.len() == 0 {
        return None;
    }
    match &ts[0] {
        Token::OpenBrace => {},
        _ => {
            return None;
        },
    }
    match objmap_from(&ts, 1) {
        None => None,
        Some((m, e)) => {
            if e == ts.len() {
                Some(m)
            } else {
                None
            }
        },
    }
}

} // verus!
