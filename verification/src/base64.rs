//! Standard base64 (RFC 4648 alphabet, `=` padding), the only encoding that
//! crosses a remote login shell: it is plain ASCII that no shell re-parses.
use vstd::prelude::*;
use crate::text::push_char;

verus! {

/// The alphabet character for a 6-bit value.
pub open spec fn b64_char(v: int) -> char {
    if v < 26 {
        ((v + 'A' as u32) as u32) as char
    } else if v < 52 {
        ((v - 26 + 'a' as u32) as u32) as char
    } else if v < 62 {
        ((v - 52 + '0' as u32) as u32) as char
    } else if v == 62 {
        '+'
    } else {
        '/'
    }
}

/// The 6-bit value of an alphabet character.
pub open spec fn b64_value(c: char) -> Option<int> {
    if 'A' <= c && c <= 'Z' {
        Some(c as u32 - 'A' as u32)
    } else if 'a' <= c && c <= 'z' {
        Some(c as u32 - 'a' as u32 + 26)
    } else if '0' <= c && c <= '9' {
        Some(c as u32 - '0' as u32 + 52)
    } else if c == '+' {
        Some(62)
    } else if c == '/' {
        Some(63)
    } else {
        None
    }
}

/// The four characters for three bytes.
pub open spec fn group3(a: int, b: int, c: int) -> Seq<char> {
    seq![
        b64_char(a / 4),
        b64_char((a % 4) * 16 + b / 16),
        b64_char((b % 16) * 4 + c / 64),
        b64_char(c % 64),
    ]
}

/// The padded encoding of `data`.
pub open spec fn spec_encode(data: Seq<u8>) -> Seq<char>
    decreases data.len(),
{
    if data.len() == 0 {
        seq![]
    } else if data.len() == 1 {
        let a = data[0] as int;
        seq![b64_char(a / 4), b64_char((a % 4) * 16), '=', '=']
    } else if data.len() == 2 {
        let a = data[0] as int;
        let b = data[1] as int;
        seq![b64_char(a / 4), b64_char((a % 4) * 16 + b / 16), b64_char((b % 16) * 4), '=']
    } else {
        group3(data[0] as int, data[1] as int, data[2] as int) + spec_encode(data.subrange(3, data.len() as int))
    }
}

/// Three bytes from four alphabet characters.
pub open spec fn decode_full(g: Seq<char>) -> Option<Seq<u8>> {
    match (b64_value(g[0]), b64_value(g[1]), b64_value(g[2]), b64_value(g[3])) {
        (Some(v0), Some(v1), Some(v2), Some(v3)) => Some(
            seq![
                (v0 * 4 + v1 / 16) as u8,
                ((v1 % 16) * 16 + v2 / 4) as u8,
                ((v2 % 4) * 64 + v3) as u8,
            ],
        ),
        _ => None,
    }
}

/// The final group: three bytes, or two before one `=`, or one before `==`.
/// Bits a padded group does not carry must be zero, so every byte string has
/// exactly one spelling.
pub open spec fn decode_last(g: Seq<char>) -> Option<Seq<u8>> {
    if g[2] == '=' && g[3] == '=' {
        match (b64_value(g[0]), b64_value(g[1])) {
            (Some(v0), Some(v1)) => if v1 % 16 == 0 {
                Some(seq![(v0 * 4 + v1 / 16) as u8])
            } else {
                None
            },
            _ => None,
        }
    } else if g[3] == '=' {
        match (b64_value(g[0]), b64_value(g[1]), b64_value(g[2])) {
            (Some(v0), Some(v1), Some(v2)) => if v2 % 4 == 0 {
                Some(seq![(v0 * 4 + v1 / 16) as u8, ((v1 % 16) * 16 + v2 / 4) as u8])
            } else {
                None
            },
            _ => None,
        }
    } else {
        decode_full(g)
    }
}

/// The bytes a padded base64 text spells, or `None` when it is not one.
pub open spec fn spec_decode(s: Seq<char>) -> Option<Seq<u8>>
    decreases s.len(),
{
    if s.len() == 0 {
        Some(seq![])
    } else if s.len() < 4 {
        None
    } else if s.len() == 4 {
        decode_last(s)
    } else {
        match (decode_full(s.take(4)), spec_decode(s.subrange(4, s.len() as int))) {
            (Some(head), Some(tail)) => Some(head + tail),
            _ => None,
        }
    }
}

proof fn lemma_char_value(v: int)
    requires
        0 <= v < 64,
    ensures
        b64_value(b64_char(v)) == Some(v),
        b64_char(v) != '=',
{
}

proof fn lemma_one(a: u8)
    ensures
        decode_last(spec_encode(seq![a])) == Some(seq![a]),
{
    let x = a as int;
    lemma_char_value(x / 4);
    lemma_char_value((x % 4) * 16);
    assert((x / 4 * 4 + (x % 4) * 16 / 16) == x);
    assert(seq![(x / 4 * 4 + (x % 4) * 16 / 16) as u8] =~= seq![a]);
}

proof fn lemma_two(a: u8, b: u8)
    ensures
        decode_last(spec_encode(seq![a, b])) == Some(seq![a, b]),
{
    let x = a as int;
    let y = b as int;
    lemma_char_value(x / 4);
    lemma_char_value((x % 4) * 16 + y / 16);
    lemma_char_value((y % 16) * 4);
    let v1 = (x % 4) * 16 + y / 16;
    assert(v1 / 16 == x % 4 && v1 % 16 == y / 16);
    assert(x / 4 * 4 + v1 / 16 == x);
    assert((v1 % 16) * 16 + ((y % 16) * 4) / 4 == y);
    assert(((y % 16) * 4) % 4 == 0);
    assert(seq![(x / 4 * 4 + v1 / 16) as u8, ((v1 % 16) * 16 + ((y % 16) * 4) / 4) as u8]
        =~= seq![a, b]);
}

proof fn lemma_three(a: u8, b: u8, c: u8)
    ensures
        decode_full(group3(a as int, b as int, c as int)) == Some(seq![a, b, c]),
        decode_last(group3(a as int, b as int, c as int)) == Some(seq![a, b, c]),
{
    let x = a as int;
    let y = b as int;
    let z = c as int;
    let v1 = (x % 4) * 16 + y / 16;
    let v2 = (y % 16) * 4 + z / 64;
    lemma_char_value(x / 4);
    lemma_char_value(v1);
    lemma_char_value(v2);
    lemma_char_value(z % 64);
    assert(v1 / 16 == x % 4 && v1 % 16 == y / 16);
    assert(v2 / 4 == y % 16 && v2 % 4 == z / 64);
    assert(x / 4 * 4 + v1 / 16 == x);
    assert((v1 % 16) * 16 + v2 / 4 == y);
    assert((v2 % 4) * 64 + z % 64 == z);
    assert(seq![(x / 4 * 4 + v1 / 16) as u8, ((v1 % 16) * 16 + v2 / 4) as u8, ((v2 % 4) * 64 + z
        % 64) as u8] =~= seq![a, b, c]);
}

proof fn lemma_encode_nonempty(data: Seq<u8>)
    requires
        data.len() > 0,
    ensures
        spec_encode(data).len() >= 4,
{
}

proof fn lemma_step(data: Seq<u8>)
    requires
        data.len() >= 3,
        spec_decode(spec_encode(data.subrange(3, data.len() as int))) == Some(
            data.subrange(3, data.len() as int),
        ),
    ensures
        spec_decode(spec_encode(data)) == Some(data),
{
    let rest = data.subrange(3, data.len() as int);
    let g = group3(data[0] as int, data[1] as int, data[2] as int);
    let head = seq![data[0], data[1], data[2]];
    lemma_three(data[0], data[1], data[2]);
    let s = spec_encode(data);
    assert(s == g + spec_encode(rest));
    assert(head + rest =~= data);
    if rest.len() == 0 {
        assert(spec_encode(rest) =~= Seq::<char>::empty());
        assert(s =~= g);
        assert(head =~= data);
    } else {
        lemma_encode_nonempty(rest);
        assert(s.take(4) =~= g);
        assert(s.subrange(4, s.len() as int) =~= spec_encode(rest));
    }
}

/// A character an encoding may hold: one of the alphabet, or `=` padding.
pub open spec fn b64_text_char(c: char) -> bool {
    b64_value(c) is Some || c == '='
}

/// An encoding is made only of alphabet characters and `=` padding, all of
/// them ASCII and none of them a single quote.
pub proof fn lemma_encode_alphabet(data: Seq<u8>)
    ensures
        forall|i: int| 0 <= i < spec_encode(data).len() ==> b64_text_char(#[trigger] spec_encode(data)[i]),
        forall|i: int| 0 <= i < spec_encode(data).len() ==> (#[trigger] spec_encode(data)[i] as u32) < 128
            && spec_encode(data)[i] != '\'',
    decreases data.len(),
{
    if data.len() == 0 {
    } else if data.len() == 1 {
        let x = data[0] as int;
        lemma_char_value(x / 4);
        lemma_char_value((x % 4) * 16);
    } else if data.len() == 2 {
        let x = data[0] as int;
        let y = data[1] as int;
        lemma_char_value(x / 4);
        lemma_char_value((x % 4) * 16 + y / 16);
        lemma_char_value((y % 16) * 4);
    } else {
        let x = data[0] as int;
        let y = data[1] as int;
        let z = data[2] as int;
        lemma_char_value(x / 4);
        lemma_char_value((x % 4) * 16 + y / 16);
        lemma_char_value((y % 16) * 4 + z / 64);
        lemma_char_value(z % 64);
        lemma_encode_alphabet(data.subrange(3, data.len() as int));
        let g = group3(x, y, z);
        let t = spec_encode(data.subrange(3, data.len() as int));
        assert(spec_encode(data) == g + t);
        assert forall|i: int| 0 <= i < spec_encode(data).len() implies b64_text_char(
            #[trigger] spec_encode(data)[i],
        ) by {
            if i >= 4 {
                assert(spec_encode(data)[i] == t[i - 4]);
            }
        }
    }
    assert forall|i: int| 0 <= i < spec_encode(data).len() implies (#[trigger] spec_encode(data)[i] as u32)
        < 128 && spec_encode(data)[i] != '\'' by {
        assert(b64_text_char(spec_encode(data)[i]));
    }
}

/// Decoding an encoding gives the original bytes back.
pub proof fn lemma_decode_encode(data: Seq<u8>)
    ensures
        spec_decode(spec_encode(data)) == Some(data),
    decreases data.len(),
{
    if data.len() == 0 {
    } else if data.len() == 1 {
        lemma_one(data[0]);
        assert(seq![data[0]] =~= data);
    } else if data.len() == 2 {
        lemma_two(data[0], data[1]);
        assert(seq![data[0], data[1]] =~= data);
    } else {
        lemma_decode_encode(data.subrange(3, data.len() as int));
        lemma_step(data);
    }
}

fn char_for(v: u8) -> (c: char)
    requires
        v < 64,
    ensures
        c == b64_char(v as int),
{
    if v < 26 {
        ((v as u32) + ('A' as u32)) as u8 as char
    } else if v < 52 {
        ((v as u32) - 26 + ('a' as u32)) as u8 as char
    } else if v < 62 {
        ((v as u32) - 52 + ('0' as u32)) as u8 as char
    } else if v == 62 {
        '+'
    } else {
        '/'
    }
}

fn value_of(c: char) -> (r: Option<u8>)
    ensures
        match r {
            Some(v) => b64_value(c) == Some(v as int) && v < 64,
            None => b64_value(c) is None,
        },
{
    if 'A' <= c && c <= 'Z' {
        Some(((c as u32) - ('A' as u32)) as u8)
    } else if 'a' <= c && c <= 'z' {
        Some(((c as u32) - ('a' as u32) + 26) as u8)
    } else if '0' <= c && c <= '9' {
        Some(((c as u32) - ('0' as u32) + 52) as u8)
    } else if c == '+' {
        Some(62)
    } else if c == '/' {
        Some(63)
    } else {
        None
    }
}

/// The padded base64 text of `data`.
pub fn encode(data: &[u8]) -> (r: String)
    ensures
        r@ == spec_encode(data@),
{
    let mut out = String::new();
    let mut i: usize = 0;
    assert(data@.subrange(0, data.len() as int) =~= data@);
    assert(out@ + spec_encode(data@) =~= spec_encode(data@));
    while i < data.len()
        invariant
            i <= data.len(),
            out@ + spec_encode(data@.subrange(i as int, data.len() as int)) == spec_encode(data@),
        decreases data.len() - i,
    {
        let rest = data.len() - i;
        let ghost tail = data@.subrange(i as int, data.len() as int);
        let ghost before = out@;
        let a = data[i];
        if rest == 1 {
            push_char(&mut out, char_for(a / 4));
            push_char(&mut out, char_for((a % 4) * 16));
            push_char(&mut out, '=');
            push_char(&mut out, '=');
            assert(data@.subrange(data.len() as int, data.len() as int) =~= Seq::<u8>::empty());
            assert(out@ =~= before + spec_encode(tail));
            i = data.len();
        } else if rest == 2 {
            let b = data[i + 1];
            push_char(&mut out, char_for(a / 4));
            push_char(&mut out, char_for((a % 4) * 16 + b / 16));
            push_char(&mut out, char_for((b % 16) * 4));
            push_char(&mut out, '=');
            assert(out@ =~= before + spec_encode(tail));
            i = data.len();
        } else {
            let b = data[i + 1];
            let c = data[i + 2];
            push_char(&mut out, char_for(a / 4));
            push_char(&mut out, char_for((a % 4) * 16 + b / 16));
            push_char(&mut out, char_for((b % 16) * 4 + c / 64));
            push_char(&mut out, char_for(c % 64));
            assert(tail.subrange(3, tail.len() as int) =~= data@.subrange(i + 3, data.len() as int));
            assert(out@ =~= before + group3(a as int, b as int, c as int));
            i = i + 3;
        }
        assert(data@.subrange(data.len() as int, data.len() as int) =~= Seq::<u8>::empty());
    }
    assert(data@.subrange(i as int, data.len() as int) =~= Seq::<u8>::empty());
    assert(out@ =~= out@ + spec_encode(Seq::<u8>::empty()));
    out
}

/// The bytes a padded base64 text spells, or `None` when it is not one.
pub fn decode(text: &str) -> (r: Option<Vec<u8>>)
    ensures
        match r {
            Some(v) => spec_decode(text@) == Some(v@),
            None => spec_decode(text@) is None,
        },
{
    let s = crate::text::chars_of(text);
    decode_chars(&s)
}

/// [`decode`] for a character slice.
#[verifier::spinoff_prover]
#[verifier::rlimit(40)]
pub fn decode_chars(s: &[char]) -> (r: Option<Vec<u8>>)
    ensures
        match r {
            Some(v) => spec_decode(s@) == Some(v@),
            None => spec_decode(s@) is None,
        },
{
    let mut out: Vec<u8> = Vec::new();
    let mut i: usize = 0;
    assert(s@.subrange(0, s.len() as int) =~= s@);
    assert(out@ + Seq::<u8>::empty() =~= Seq::<u8>::empty());
    while i < s.len()
        invariant
            i <= s.len(),
            match spec_decode(s@) {
                Some(all) => match spec_decode(s@.subrange(i as int, s.len() as int)) {
                    Some(rest) => all == out@ + rest,
                    None => false,
                },
                None => spec_decode(s@.subrange(i as int, s.len() as int)) is None,
            },
        decreases s.len() - i,
    {
        let rest = s.len() - i;
        let ghost tail = s@.subrange(i as int, s.len() as int);
        if rest < 4 {
            return None;
        }
        let v0 = value_of(s[i]);
        let v1 = value_of(s[i + 1]);
        assert(tail.take(4) =~= s@.subrange(i as int, i + 4));
        assert(tail.subrange(4, tail.len() as int) =~= s@.subrange(i + 4, s.len() as int));
        if rest == 4 {
            let c2 = s[i + 2];
            let c3 = s[i + 3];
            let ghost before = out@;
            if c2 == '=' && c3 == '=' {
                match (v0, v1) {
                    (Some(a), Some(b)) => {
                        if b % 16 != 0 {
                            return None;
                        }
                        out.push(a * 4 + b / 16);
                    },
                    _ => {
                        return None;
                    },
                }
            } else if c3 == '=' {
                let v2 = value_of(c2);
                match (v0, v1, v2) {
                    (Some(a), Some(b), Some(c)) => {
                        if c % 4 != 0 {
                            return None;
                        }
                        out.push(a * 4 + b / 16);
                        out.push((b % 16) * 16 + c / 4);
                    },
                    _ => {
                        return None;
                    },
                }
            } else {
                let v2 = value_of(c2);
                let v3 = value_of(c3);
                match (v0, v1, v2, v3) {
                    (Some(a), Some(b), Some(c), Some(d)) => {
                        out.push(a * 4 + b / 16);
                        out.push((b % 16) * 16 + c / 4);
                        out.push((c % 4) * 64 + d);
                    },
                    _ => {
                        return None;
                    },
                }
            }
            assert(out@ =~= before + decode_last(tail)->0);
            i = s.len();
            assert(s@.subrange(i as int, s.len() as int) =~= Seq::<char>::empty());
        } else {
            let v2 = value_of(s[i + 2]);
            let v3 = value_of(s[i + 3]);
            let ghost before = out@;
            match (v0, v1, v2, v3) {
                (Some(a), Some(b), Some(c), Some(d)) => {
                    out.push(a * 4 + b / 16);
                    out.push((b % 16) * 16 + c / 4);
                    out.push((c % 4) * 64 + d);
                },
                _ => {
                    return None;
                },
            }
            assert(out@ =~= before + decode_full(tail.take(4))->0);
            i = i + 4;
        }
    }
    assert(s@.subrange(i as int, s.len() as int) =~= Seq::<char>::empty());
    assert(out@ + Seq::<u8>::empty() =~= out@);
    Some(out)
}

} // verus!
