use vstd::bytes::*;
use vstd::prelude::*;
use vstd::slice::slice_subrange;
use vstd::utf8::*;

verus! {

broadcast use vstd::utf8::encode_utf8_decode_utf8;

/// `p` stands in `b` starting at `pos`.
pub open spec fn prefix_at(p: Seq<u8>, b: Seq<u8>, pos: int) -> bool {
    0 <= pos && pos + p.len() <= b.len() && b.subrange(pos, pos + p.len()) == p
}

/// The UTF-8 bytes of a text fit the 32-bit length prefix.
pub open spec fn text_fits(s: Seq<char>) -> bool {
    encode_utf8(s).len() <= u32::MAX
}

/// A text: its UTF-8 length as a little-endian `u32`, then its UTF-8 bytes.
pub open spec fn text_bytes(s: Seq<char>) -> Seq<u8> {
    spec_u32_to_le_bytes(encode_utf8(s).len() as u32) + encode_utf8(s)
}

/// A flag: one byte, 1 for true and 0 for false.
pub open spec fn bool_bytes(b: bool) -> Seq<u8> {
    seq![if b { 1u8 } else { 0u8 }]
}

/// A signed 64-bit integer in little-endian two's complement.
pub open spec fn i64_bytes(x: i64) -> Seq<u8> {
    spec_u64_to_le_bytes(x as u64)
}

pub proof fn lemma_text_bytes_len(s: Seq<char>)
    ensures
        text_bytes(s).len() == 4 + encode_utf8(s).len(),
{
    lemma_auto_spec_u32_to_from_le_bytes();
}

pub proof fn lemma_i64_bytes_len(x: i64)
    ensures
        i64_bytes(x).len() == 8,
{
    lemma_auto_spec_u64_to_from_le_bytes();
}

/// The encoding of a signed 64-bit integer determines it.
pub proof fn lemma_i64_bytes_injective(x: i64, y: i64)
    requires
        i64_bytes(x) == i64_bytes(y),
    ensures
        x == y,
{
    lemma_auto_spec_u64_to_from_le_bytes();
    let ux = x as u64;
    let uy = y as u64;
    assert(spec_u64_from_le_bytes(spec_u64_to_le_bytes(ux)) == ux);
    assert(spec_u64_from_le_bytes(spec_u64_to_le_bytes(uy)) == uy);
    assert(ux == uy);
    assert(x == y) by (bit_vector)
        requires
            ux == x as u64,
            uy == y as u64,
            ux == uy,
    ;
}

/// Two texts whose encodings both stand at one place are the same text.
pub proof fn lemma_text_unique(a: Seq<char>, c: Seq<char>, b: Seq<u8>, pos: int)
    requires
        text_fits(a),
        text_fits(c),
        prefix_at(text_bytes(a), b, pos),
        prefix_at(text_bytes(c), b, pos),
    ensures
        a == c,
{
    lemma_auto_spec_u32_to_from_le_bytes();
    let la = encode_utf8(a).len() as int;
    let lc = encode_utf8(c).len() as int;
    assert(text_bytes(a).subrange(0, 4) =~= spec_u32_to_le_bytes(la as u32));
    assert(text_bytes(c).subrange(0, 4) =~= spec_u32_to_le_bytes(lc as u32));
    assert(b.subrange(pos, pos + 4) =~= text_bytes(a).subrange(0, 4));
    assert(b.subrange(pos, pos + 4) =~= text_bytes(c).subrange(0, 4));
    assert(la == lc);
    assert(text_bytes(a).subrange(4, 4 + la) =~= encode_utf8(a));
    assert(text_bytes(c).subrange(4, 4 + lc) =~= encode_utf8(c));
    assert(b.subrange(pos + 4, pos + 4 + la) =~= text_bytes(a).subrange(4, 4 + la));
    assert(b.subrange(pos + 4, pos + 4 + lc) =~= text_bytes(c).subrange(4, 4 + lc));
    assert(decode_utf8(encode_utf8(a)) == a);
    assert(decode_utf8(encode_utf8(c)) == c);
}

/// Relies on std::str::from_utf8: it accepts exactly the valid UTF-8 byte strings,
/// and the text it gives back has those bytes.
#[verifier::external_body]
fn utf8_str(b: &[u8]) -> (r: Option<&str>)
    ensures
        r is Some <==> valid_utf8(b@),
        r matches Some(s) ==> encode_utf8(s@) == b@,
{
    std::str::from_utf8(b).ok()
}

/// Appends the bytes of `src` to `out`.
pub fn push_all(out: &mut Vec<u8>, src: &[u8])
    ensures
        final(out)@ == old(out)@ + src@,
{
    let mut i: usize = 0;
    while i < src.len()
        invariant
            i <= src@.len(),
            out@ == old(out)@ + src@.subrange(0, i as int),
        decreases src@.len() - i,
    {
        out.push(src[i]);
        i = i + 1;
        assert(out@ =~= old(out)@ + src@.subrange(0, i as int));
    }
    assert(src@.subrange(0, src@.len() as int) =~= src@);
}

/// Appends the encoding of a text.
pub fn push_text(out: &mut Vec<u8>, s: &str)
    requires
        text_fits(s@),
    ensures
        final(out)@ == old(out)@ + text_bytes(s@),
{
    let bytes = s.as_bytes();
    let len = u32_to_le_bytes(bytes.len() as u32);
    push_all(out, len.as_slice());
    push_all(out, bytes);
    assert(final(out)@ =~= old(out)@ + text_bytes(s@));
}

/// Appends the encoding of a flag.
pub fn push_bool(out: &mut Vec<u8>, b: bool)
    ensures
        final(out)@ == old(out)@ + bool_bytes(b),
{
    out.push(if b { 1u8 } else { 0u8 });
    assert(final(out)@ =~= old(out)@ + bool_bytes(b));
}

/// Appends the encoding of a signed 64-bit integer.
pub fn push_i64(out: &mut Vec<u8>, x: i64)
    ensures
        final(out)@ == old(out)@ + i64_bytes(x),
{
    let bytes = u64_to_le_bytes(x as u64);
    push_all(out, bytes.as_slice());
}

/// Reads a text at `pos`: the text and the position after it, or `None` where no
/// text encoding stands there.
pub fn read_text(b: &[u8], pos: usize) -> (r: Option<(String, usize)>)
    requires
        pos <= b@.len(),
    ensures
        match r {
            Some((s, end)) => {
                &&& text_fits(s@)
                &&& prefix_at(text_bytes(s@), b@, pos as int)
                &&& end == pos + text_bytes(s@).len()
                &&& forall|a: Seq<char>|
                    text_fits(a) && #[trigger] prefix_at(text_bytes(a), b@, pos as int) ==> a
                        == s@
            },
            None => forall|a: Seq<char>|
                text_fits(a) ==> !#[trigger] prefix_at(text_bytes(a), b@, pos as int),
        },
{
    proof {
        lemma_auto_spec_u32_to_from_le_bytes();
    }
    if b.len() - pos < 4 {
        assert forall|a: Seq<char>| text_fits(a) implies !#[trigger] prefix_at(
            text_bytes(a),
            b@,
            pos as int,
        ) by {
            lemma_text_bytes_len(a);
        }
        return None;
    }
    let n = u32_from_le_bytes(slice_subrange(b, pos, pos + 4));
    if b.len() - (pos + 4) < n as usize {
        assert forall|a: Seq<char>| text_fits(a) implies !#[trigger] prefix_at(
            text_bytes(a),
            b@,
            pos as int,
        ) by {
            lemma_text_bytes_len(a);
            if prefix_at(text_bytes(a), b@, pos as int) {
                assert(b@.subrange(pos as int, pos + 4) =~= text_bytes(a).subrange(0, 4));
                assert(text_bytes(a).subrange(0, 4) =~= spec_u32_to_le_bytes(
                    encode_utf8(a).len() as u32,
                ));
            }
        }
        return None;
    }
    let end = pos + 4 + n as usize;
    let body = slice_subrange(b, pos + 4, end);
    match utf8_str(body) {
        Some(t) => {
            let s = t.to_owned();
            proof {
                assert(encode_utf8(s@) == body@);
                assert(b@.subrange(pos as int, pos + 4) == spec_u32_to_le_bytes(n));
                assert(text_bytes(s@) =~= b@.subrange(pos as int, end as int));
                assert forall|a: Seq<char>|
                    text_fits(a) && #[trigger] prefix_at(text_bytes(a), b@, pos as int) implies a
                    == s@ by {
                    lemma_text_unique(a, s@, b@, pos as int);
                }
            }
            Some((s, end))
        },
        None => {
            assert forall|a: Seq<char>| text_fits(a) implies !#[trigger] prefix_at(
                text_bytes(a),
                b@,
                pos as int,
            ) by {
                lemma_text_bytes_len(a);
                if prefix_at(text_bytes(a), b@, pos as int) {
                    assert(b@.subrange(pos as int, pos + 4) =~= text_bytes(a).subrange(0, 4));
                    assert(text_bytes(a).subrange(0, 4) =~= spec_u32_to_le_bytes(
                        encode_utf8(a).len() as u32,
                    ));
                    let la = encode_utf8(a).len() as int;
                    assert(la == n);
                    assert(text_bytes(a).subrange(4, 4 + la) =~= encode_utf8(a));
                    assert(b@.subrange(pos + 4, pos + 4 + la) =~= text_bytes(a).subrange(
                        4,
                        4 + la,
                    ));
                    assert(body@ =~= encode_utf8(a));
                    encode_utf8_valid_utf8(a);
                }
            }
            None
        },
    }
}

/// Reads a flag byte at `pos`, which must be 0 or 1.
pub fn read_bool(b: &[u8], pos: usize) -> (r: Option<bool>)
    requires
        pos < b@.len(),
    ensures
        r is Some <==> b@[pos as int] <= 1,
        r matches Some(v) ==> bool_bytes(v) == b@.subrange(pos as int, pos + 1),
{
    let v = b[pos];
    let r = if v == 0 {
        Some(false)
    } else if v == 1 {
        Some(true)
    } else {
        None
    };
    assert(r matches Some(x) ==> bool_bytes(x) =~= b@.subrange(pos as int, pos + 1));
    r
}

/// Reads a signed 64-bit integer at `pos`.
pub fn read_i64(b: &[u8], pos: usize) -> (r: i64)
    requires
        pos + 8 <= b@.len(),
    ensures
        i64_bytes(r) == b@.subrange(pos as int, pos + 8),
{
    let len = b.len();
    let sub = slice_subrange(b, pos, pos + 8);
    let u = u64_from_le_bytes(sub);
    let r = u as i64;
    proof {
        lemma_auto_spec_u64_to_from_le_bytes();
        assert(spec_u64_to_le_bytes(u) == sub@);
        assert(r as u64 == u) by (bit_vector)
            requires
                r == u as i64,
        ;
    }
    r
}


/// Four texts one after the other.
pub open spec fn texts4_bytes(a: Seq<char>, b: Seq<char>, c: Seq<char>, d: Seq<char>) -> Seq<
    u8,
> {
    text_bytes(a) + text_bytes(b) + text_bytes(c) + text_bytes(d)
}

/// Where each of four consecutive texts stands.
pub proof fn lemma_texts4_layout(
    a: Seq<char>,
    b: Seq<char>,
    c: Seq<char>,
    d: Seq<char>,
    g: Seq<u8>,
    pos: int,
)
    requires
        prefix_at(texts4_bytes(a, b, c, d), g, pos),
    ensures
        prefix_at(text_bytes(a), g, pos),
        prefix_at(text_bytes(b), g, pos + text_bytes(a).len()),
        prefix_at(text_bytes(c), g, pos + text_bytes(a).len() + text_bytes(b).len()),
        prefix_at(
            text_bytes(d),
            g,
            pos + text_bytes(a).len() + text_bytes(b).len() + text_bytes(c).len(),
        ),
{
    let s = texts4_bytes(a, b, c, d);
    let l1 = text_bytes(a).len() as int;
    let l2 = l1 + text_bytes(b).len();
    let l3 = l2 + text_bytes(c).len();
    let l4 = l3 + text_bytes(d).len();
    assert(s.subrange(0, l1) =~= text_bytes(a));
    assert(s.subrange(l1, l2) =~= text_bytes(b));
    assert(s.subrange(l2, l3) =~= text_bytes(c));
    assert(s.subrange(l3, l4) =~= text_bytes(d));
    assert(g.subrange(pos, pos + l1) =~= s.subrange(0, l1));
    assert(g.subrange(pos + l1, pos + l2) =~= s.subrange(l1, l2));
    assert(g.subrange(pos + l2, pos + l3) =~= s.subrange(l2, l3));
    assert(g.subrange(pos + l3, pos + l4) =~= s.subrange(l3, l4));
}

/// Reads four consecutive texts at `pos`, and the position after them.
pub fn read_texts4(b: &[u8], pos: usize) -> (r: Option<(String, String, String, String, usize)>)
    requires
        pos <= b@.len(),
    ensures
        match r {
            Some((s1, s2, s3, s4, end)) => {
                &&& text_fits(s1@) && text_fits(s2@) && text_fits(s3@) && text_fits(s4@)
                &&& prefix_at(texts4_bytes(s1@, s2@, s3@, s4@), b@, pos as int)
                &&& end == pos + texts4_bytes(s1@, s2@, s3@, s4@).len()
                &&& forall|a1: Seq<char>, a2: Seq<char>, a3: Seq<char>, a4: Seq<char>|
                    text_fits(a1) && text_fits(a2) && text_fits(a3) && text_fits(a4)
                        && #[trigger] prefix_at(texts4_bytes(a1, a2, a3, a4), b@, pos as int)
                        ==> a1 == s1@ && a2 == s2@ && a3 == s3@ && a4 == s4@
            },
            None => forall|a1: Seq<char>, a2: Seq<char>, a3: Seq<char>, a4: Seq<char>|
                text_fits(a1) && text_fits(a2) && text_fits(a3) && text_fits(a4)
                    ==> !#[trigger] prefix_at(texts4_bytes(a1, a2, a3, a4), b@, pos as int),
        },
{
    let (s1, at1) = match read_text(b, pos) {
        Some(x) => x,
        None => {
            assert forall|a1: Seq<char>, a2: Seq<char>, a3: Seq<char>, a4: Seq<char>|
                text_fits(a1) && text_fits(a2) && text_fits(a3) && text_fits(
                    a4,
                ) implies !#[trigger] prefix_at(texts4_bytes(a1, a2, a3, a4), b@, pos as int) by {
                if prefix_at(texts4_bytes(a1, a2, a3, a4), b@, pos as int) {
                    lemma_texts4_layout(a1, a2, a3, a4, b@, pos as int);
                }
            }
            return None;
        },
    };
    let (s2, at2) = match read_text(b, at1) {
        Some(x) => x,
        None => {
            assert forall|a1: Seq<char>, a2: Seq<char>, a3: Seq<char>, a4: Seq<char>|
                text_fits(a1) && text_fits(a2) && text_fits(a3) && text_fits(
                    a4,
                ) implies !#[trigger] prefix_at(texts4_bytes(a1, a2, a3, a4), b@, pos as int) by {
                if prefix_at(texts4_bytes(a1, a2, a3, a4), b@, pos as int) {
                    lemma_texts4_layout(a1, a2, a3, a4, b@, pos as int);
                    lemma_text_unique(a1, s1@, b@, pos as int);
                }
            }
            return None;
        },
    };
    let (s3, at3) = match read_text(b, at2) {
        Some(x) => x,
        None => {
            assert forall|a1: Seq<char>, a2: Seq<char>, a3: Seq<char>, a4: Seq<char>|
                text_fits(a1) && text_fits(a2) && text_fits(a3) && text_fits(
                    a4,
                ) implies !#[trigger] prefix_at(texts4_bytes(a1, a2, a3, a4), b@, pos as int) by {
                if prefix_at(texts4_bytes(a1, a2, a3, a4), b@, pos as int) {
                    lemma_texts4_layout(a1, a2, a3, a4, b@, pos as int);
                    lemma_text_unique(a1, s1@, b@, pos as int);
                    lemma_text_unique(a2, s2@, b@, at1 as int);
                }
            }
            return None;
        },
    };
    let (s4, at4) = match read_text(b, at3) {
        Some(x) => x,
        None => {
            assert forall|a1: Seq<char>, a2: Seq<char>, a3: Seq<char>, a4: Seq<char>|
                text_fits(a1) && text_fits(a2) && text_fits(a3) && text_fits(
                    a4,
                ) implies !#[trigger] prefix_at(texts4_bytes(a1, a2, a3, a4), b@, pos as int) by {
                if prefix_at(texts4_bytes(a1, a2, a3, a4), b@, pos as int) {
                    lemma_texts4_layout(a1, a2, a3, a4, b@, pos as int);
                    lemma_text_unique(a1, s1@, b@, pos as int);
                    lemma_text_unique(a2, s2@, b@, at1 as int);
                    lemma_text_unique(a3, s3@, b@, at2 as int);
                }
            }
            return None;
        },
    };
    proof {
        let t = texts4_bytes(s1@, s2@, s3@, s4@);
        assert(b@.subrange(pos as int, at4 as int) =~= b@.subrange(pos as int, at1 as int)
            + b@.subrange(at1 as int, at2 as int) + b@.subrange(at2 as int, at3 as int) + b@.subrange(
            at3 as int,
            at4 as int,
        ));
        assert(b@.subrange(pos as int, at4 as int) =~= t);
        assert forall|a1: Seq<char>, a2: Seq<char>, a3: Seq<char>, a4: Seq<char>|
            text_fits(a1) && text_fits(a2) && text_fits(a3) && text_fits(a4)
                && #[trigger] prefix_at(
                texts4_bytes(a1, a2, a3, a4),
                b@,
                pos as int,
            ) implies a1 == s1@ && a2 == s2@ && a3 == s3@ && a4 == s4@ by {
            lemma_texts4_layout(a1, a2, a3, a4, b@, pos as int);
            lemma_text_unique(a1, s1@, b@, pos as int);
            lemma_text_unique(a2, s2@, b@, at1 as int);
            lemma_text_unique(a3, s3@, b@, at2 as int);
            lemma_text_unique(a4, s4@, b@, at3 as int);
        }
    }
    Some((s1, s2, s3, s4, at4))
}

} // verus!
