//! The on-disk form of a vector index: a header (`A16V`, version 1, the dimension
//! and the number of vectors, each a little-endian `u32`), every vector as
//! little-endian 32-bit words, then every metadata key as a little-endian length
//! followed by its UTF-8 bytes (length 0 for none).
//!
//! Reading takes the same layout: all the vectors, then all the keys, which are
//! paired up in order. What is written reads back as itself (an empty key reads
//! back as none).

use vstd::prelude::*;
use vstd::utf8::encode_utf8;

verus! {

broadcast use vstd::string::group_string_axioms;

/// The four bytes `A16V` that open an index file.
pub open spec fn magic() -> Seq<u8> {
    seq![0x41u8, 0x31u8, 0x36u8, 0x56u8]
}

/// The little-endian bytes of `x`.
pub open spec fn le32(x: u32) -> Seq<u8> {
    seq![
        (x % 256) as u8,
        ((x / 256) % 256) as u8,
        ((x / 65536) % 256) as u8,
        ((x / 16777216) % 256) as u8,
    ]
}

/// The little-endian `u32` at `pos` in `b`.
#[verifier::opaque]
pub open spec fn read_le32(b: Seq<u8>, pos: int) -> u32 {
    (b[pos] + 256 * b[pos + 1] + 65536 * b[pos + 2] + 16777216 * b[pos + 3]) as u32
}

/// The bytes of a vector's words.
pub open spec fn words_bytes(v: Seq<u32>) -> Seq<u8>
    decreases v.len(),
{
    if v.len() == 0 {
        Seq::empty()
    } else {
        words_bytes(v.drop_last()) + le32(v.last())
    }
}

/// The bytes of all vectors, one after the other.
pub open spec fn vectors_bytes(vs: Seq<Seq<u32>>) -> Seq<u8>
    decreases vs.len(),
{
    if vs.len() == 0 {
        Seq::empty()
    } else {
        vectors_bytes(vs.drop_last()) + words_bytes(vs.last())
    }
}

/// The bytes of one metadata key: its length, then its bytes; length 0 for none.
pub open spec fn meta_bytes(m: Option<Seq<u8>>) -> Seq<u8> {
    match m {
        Some(b) => le32(b.len() as u32) + b,
        None => le32(0),
    }
}

/// The bytes of all metadata keys, one after the other.
pub open spec fn metas_bytes(ms: Seq<Option<Seq<u8>>>) -> Seq<u8>
    decreases ms.len(),
{
    if ms.len() == 0 {
        Seq::empty()
    } else {
        metas_bytes(ms.drop_last()) + meta_bytes(ms.last())
    }
}

/// The UTF-8 bytes of an optional key.
pub open spec fn key_bytes(k: Option<String>) -> Option<Seq<u8>> {
    match k {
        Some(s) => Some(encode_utf8(s@)),
        None => None,
    }
}

/// The whole file for an index of dimension `dim`.
pub open spec fn index_file(dim: u32, vs: Seq<Seq<u32>>, ms: Seq<Option<Seq<u8>>>) -> Seq<u8> {
    magic() + le32(1) + le32(dim) + le32(vs.len() as u32) + vectors_bytes(vs) + metas_bytes(ms)
}

/// Why a file cannot be read.
#[derive(Debug, Clone, Copy, PartialEq, Eq, Structural)]
pub enum IndexFileError {
    /// The file ends before what it announces.
    Truncated,
    /// The file does not start with `A16V`.
    BadMagic,
}

/// The `count` vectors of `dim` words each read from position `pos` on, with the
/// position after them; `None` when the bytes run out first.
pub open spec fn parse_vectors(b: Seq<u8>, pos: int, dim: nat, count: nat) -> Option<(Seq<Seq<u32>>, int)>
    decreases count,
{
    if count == 0 {
        Some((Seq::empty(), pos))
    } else if pos < 0 || pos + 4 * dim > b.len() {
        None
    } else {
        let v = Seq::new(dim, |i: int| read_le32(b, pos + 4 * i));
        match parse_vectors(b, pos + 4 * dim, dim, (count - 1) as nat) {
            Some((rest, end)) => Some((seq![v] + rest, end)),
            None => None,
        }
    }
}

/// The key whose length is read at `pos`: its bytes, none when the length is 0.
pub open spec fn key_at(b: Seq<u8>, pos: int) -> Option<Seq<u8>> {
    let len = read_le32(b, pos);
    if len > 0 {
        Some(b.subrange(pos + 4, pos + 4 + len))
    } else {
        None
    }
}

/// `count` metadata keys read from position `pos` on, each a length and then that
/// many bytes (none when the length is 0); `None` when the bytes run out first.
pub open spec fn parse_keys(b: Seq<u8>, pos: int, count: nat) -> Option<Seq<Option<Seq<u8>>>>
    decreases count,
{
    if count == 0 {
        Some(Seq::empty())
    } else if pos < 0 || pos + 4 > b.len() || pos + 4 + read_le32(b, pos) > b.len() {
        None
    } else {
        match parse_keys(b, pos + 4 + read_le32(b, pos), (count - 1) as nat) {
            Some(rest) => Some(seq![key_at(b, pos)] + rest),
            None => None,
        }
    }
}

/// Vectors paired with keys, in order.
pub open spec fn zip_entries(vs: Seq<Seq<u32>>, ks: Seq<Option<Seq<u8>>>) -> Seq<(Seq<u32>, Option<Seq<u8>>)> {
    Seq::new(vs.len(), |i: int| (vs[i], ks[i]))
}

/// Reading a whole file: the magic, the version, the dimension and the count,
/// then the vectors and the keys, paired up.
pub open spec fn parse_index(b: Seq<u8>) -> Result<(u32, Seq<(Seq<u32>, Option<Seq<u8>>)>), IndexFileError> {
    if b.len() < 4 {
        Err(IndexFileError::Truncated)
    } else if b.subrange(0, 4) != magic() {
        Err(IndexFileError::BadMagic)
    } else if b.len() < 16 {
        Err(IndexFileError::Truncated)
    } else {
        let dim = read_le32(b, 8);
        let count = read_le32(b, 12) as nat;
        match parse_vectors(b, 16, dim as nat, count) {
            None => Err(IndexFileError::Truncated),
            Some((vs, end)) => match parse_keys(b, end, count) {
                None => Err(IndexFileError::Truncated),
                Some(ks) => Ok((dim, zip_entries(vs, ks))),
            },
        }
    }
}

/// What `String::from_utf8_lossy` makes of some bytes.
pub uninterp spec fn lossy_utf8(bytes: Seq<u8>) -> Seq<char>;

/// `String::from_utf8_lossy`: the text of the bytes, with each invalid sequence
/// replaced; for valid UTF-8, exactly the text encoded.
#[verifier::external_body]
fn utf8_lossy(bytes: &[u8]) -> (r: String)
    ensures
        r@ == lossy_utf8(bytes@),
        forall|s: Seq<char>| #[trigger] encode_utf8(s) == bytes@ ==> r@ == s,
{
    String::from_utf8_lossy(bytes).to_string()
}

/// A key read back: its text, from its bytes.
pub open spec fn key_read(k: Option<String>, raw: Option<Seq<u8>>) -> bool {
    match (k, raw) {
        (Some(s), Some(b)) => s@ == lossy_utf8(b),
        (None, None) => true,
        _ => false,
    }
}

/// Append the little-endian bytes of `x`.
fn push_le32(out: &mut Vec<u8>, x: u32)
    ensures
        final(out)@ == old(out)@ + le32(x),
{
    out.push((x % 256) as u8);
    out.push(((x / 256) % 256) as u8);
    out.push(((x / 65536) % 256) as u8);
    out.push(((x / 16777216) % 256) as u8);
    assert(out@ =~= old(out)@ + le32(x));
}

/// The little-endian `u32` at `pos`.
fn read_u32_at(b: &[u8], pos: usize) -> (r: u32)
    requires
        pos + 4 <= b.len(),
    ensures
        r == read_le32(b@, pos as int),
{
    let b0 = b[pos] as u32;
    let b1 = b[pos + 1] as u32;
    let b2 = b[pos + 2] as u32;
    let b3 = b[pos + 3] as u32;
    reveal(read_le32);
    b0 + 256 * b1 + 65536 * b2 + 16777216 * b3
}

/// The file for an index of dimension `dim` holding `vectors` (as the bit
/// patterns of their entries) with the metadata keys `metadata`. The vector count
/// and each key's length are written as `u32`s, keeping their low 32 bits.
pub fn encode_index(dim: u32, vectors: &[Vec<u32>], metadata: &[Option<String>]) -> (r: Vec<u8>)
    ensures
        r@ == index_file(
            dim,
            vectors@.map_values(|v: Vec<u32>| v@),
            metadata@.map_values(|k: Option<String>| key_bytes(k)),
        ),
{
    let ghost vs = vectors@.map_values(|v: Vec<u32>| v@);
    let ghost ms = metadata@.map_values(|k: Option<String>| key_bytes(k));
    let mut out: Vec<u8> = Vec::new();
    out.push(0x41);
    out.push(0x31);
    out.push(0x36);
    out.push(0x56);
    push_le32(&mut out, 1);
    push_le32(&mut out, dim);
    push_le32(&mut out, vectors.len() as u32);
    let ghost head = out@;
    assert(head =~= magic() + le32(1) + le32(dim) + le32(vectors.len() as u32));
    let mut i: usize = 0;
    assert(vs.take(0) =~= Seq::<Seq<u32>>::empty());
    while i < vectors.len()
        invariant
            i <= vectors.len(),
            vs == vectors@.map_values(|v: Vec<u32>| v@),
            out@ == head + vectors_bytes(vs.take(i as int)),
        decreases vectors.len() - i,
    {
        let v = &vectors[i];
        let ghost before = out@;
        let mut j: usize = 0;
        assert(v@.take(0) =~= Seq::<u32>::empty());
        while j < v.len()
            invariant
                j <= v.len(),
                out@ == before + words_bytes(v@.take(j as int)),
            decreases v.len() - j,
        {
            push_le32(&mut out, v[j]);
            assert(v@.take(j + 1).drop_last() =~= v@.take(j as int));
            j += 1;
        }
        assert(v@.take(v.len() as int) =~= v@);
        assert(vs.take(i + 1).drop_last() =~= vs.take(i as int));
        assert(vs.take(i + 1).last() == v@);
        i += 1;
    }
    assert(vs.take(vectors.len() as int) =~= vs);
    let ghost mid = out@;
    let mut k: usize = 0;
    assert(ms.take(0) =~= Seq::<Option<Seq<u8>>>::empty());
    while k < metadata.len()
        invariant
            k <= metadata.len(),
            ms == metadata@.map_values(|m: Option<String>| key_bytes(m)),
            out@ == mid + metas_bytes(ms.take(k as int)),
        decreases metadata.len() - k,
    {
        let ghost before = out@;
        match &metadata[k] {
            Some(s) => {
                let bytes = s.as_str().as_bytes();
                assert(metadata@[k as int] matches Some(t) && t == *s);
                push_le32(&mut out, bytes.len() as u32);
                let mut j: usize = 0;
                while j < bytes.len()
                    invariant
                        j <= bytes.len(),
                        out@ == before + le32(bytes.len() as u32) + bytes@.take(j as int),
                    decreases bytes.len() - j,
                {
                    out.push(bytes[j]);
                    assert(bytes@.take(j + 1) =~= bytes@.take(j as int).push(bytes@[j as int]));
                    j += 1;
                }
                assert(bytes@.take(bytes.len() as int) =~= bytes@);
            },
            None => {
                push_le32(&mut out, 0);
            },
        }
        assert(ms.take(k + 1).drop_last() =~= ms.take(k as int));
        assert(ms.take(k + 1).last() == key_bytes(metadata@[k as int]));
        k += 1;
    }
    assert(ms.take(metadata.len() as int) =~= ms);
    out
}

/// Read an index file: its dimension, its vectors (as the bit patterns of their
/// entries) and their metadata keys, in order, as `parse_index` reads it.
pub fn decode_index(bytes: &[u8]) -> (r: Result<(u32, Vec<Vec<u32>>, Vec<Option<String>>), IndexFileError>)
    ensures
        match (r, parse_index(bytes@)) {
            (Ok((d, vs, ks)), Ok((d2, es))) => {
                &&& d == d2
                &&& vs.len() == es.len()
                &&& ks.len() == es.len()
                &&& forall|i: int| 0 <= i < es.len() ==> #[trigger] vs@[i]@ == es[i].0 && key_read(ks@[i], es[i].1)
            },
            (Err(e), Err(e2)) => e == e2,
            _ => false,
        },
{
    if bytes.len() < 4 {
        return Err(IndexFileError::Truncated);
    }
    if !(bytes[0] == 0x41 && bytes[1] == 0x31 && bytes[2] == 0x36 && bytes[3] == 0x56) {
        assert(bytes@.subrange(0, 4) != magic()) by {
            if bytes@.subrange(0, 4) == magic() {
                assert(bytes@.subrange(0, 4)[0] == bytes@[0]);
                assert(bytes@.subrange(0, 4)[1] == bytes@[1]);
                assert(bytes@.subrange(0, 4)[2] == bytes@[2]);
                assert(bytes@.subrange(0, 4)[3] == bytes@[3]);
            }
        }
        return Err(IndexFileError::BadMagic);
    }
    assert(bytes@.subrange(0, 4) =~= magic());
    if bytes.len() < 16 {
        return Err(IndexFileError::Truncated);
    }
    let dim = read_u32_at(bytes, 8);
    let count = read_u32_at(bytes, 12);
    let ghost total_v = parse_vectors(bytes@, 16, dim as nat, count as nat);
    let mut vectors: Vec<Vec<u32>> = Vec::new();
    let mut pos: usize = 16;
    let mut done: u32 = 0;
    while done < count
        invariant
            done <= count,
            16 <= pos <= bytes.len(),
            vectors.len() == done,
            bytes@.subrange(0, 4) == magic(),
            bytes.len() >= 16,
            dim == read_le32(bytes@, 8),
            count == read_le32(bytes@, 12),
            total_v == parse_vectors(bytes@, 16, dim as nat, count as nat),
            total_v == match parse_vectors(bytes@, pos as int, dim as nat, (count - done) as nat) {
                Some((rest, end)) => Some((vectors@.map_values(|v: Vec<u32>| v@) + rest, end)),
                None => None,
            },
        decreases count - done,
    {
        let remaining = bytes.len() - pos;
        let words = dim as usize;
        if words > remaining / 4 {
            assert(pos + 4 * dim > bytes.len());
            assert(parse_vectors(bytes@, pos as int, dim as nat, (count - done) as nat) is None);
            assert(total_v is None);
            assert(parse_index(bytes@) == Err::<(u32, Seq<(Seq<u32>, Option<Seq<u8>>)>), IndexFileError>(
                IndexFileError::Truncated,
            ));
            return Err(IndexFileError::Truncated);
        }
        let ghost start = pos as int;
        let mut v: Vec<u32> = Vec::new();
        let mut w: usize = 0;
        while w < words
            invariant
                w <= words,
                words == dim,
                start == pos,
                pos + 4 * words <= bytes.len(),
                v.len() == w,
                forall|i: int| 0 <= i < w ==> #[trigger] v@[i] == read_le32(bytes@, start + 4 * i),
            decreases words - w,
        {
            let x = read_u32_at(bytes, pos + 4 * w);
            v.push(x);
            w += 1;
        }
        let ghost vspec = Seq::new(dim as nat, |i: int| read_le32(bytes@, start + 4 * i));
        assert(v@ =~= vspec);
        let ghost before = vectors@.map_values(|u: Vec<u32>| u@);
        vectors.push(v);
        assert(vectors@.map_values(|u: Vec<u32>| u@) =~= before.push(vspec));
        pos = pos + 4 * words;
        done = done + 1;
        proof {
            match parse_vectors(bytes@, pos as int, dim as nat, (count - done) as nat) {
                Some((rest, end)) => {
                    assert(before + (seq![vspec] + rest) =~= before.push(vspec) + rest);
                },
                None => {},
            }
        }
    }
    let ghost vs_view = vectors@.map_values(|u: Vec<u32>| u@);
    assert(vs_view + Seq::<Seq<u32>>::empty() =~= vs_view);
    assert(total_v == Some((vs_view, pos as int)));
    let ghost vend = pos as int;
    let ghost total_k = parse_keys(bytes@, vend, count as nat);
    let mut keys: Vec<Option<String>> = Vec::new();
    let ghost mut raw: Seq<Option<Seq<u8>>> = Seq::empty();
    let mut got: u32 = 0;
    while got < count
        invariant
            got <= count,
            vend <= pos <= bytes.len(),
            keys.len() == got,
            raw.len() == got,
            vectors.len() == count,
            total_k == parse_keys(bytes@, vend, count as nat),
            total_v == Some((vs_view, vend)),
            total_v == parse_vectors(bytes@, 16, dim as nat, count as nat),
            bytes@.subrange(0, 4) == magic(),
            bytes.len() >= 16,
            dim == read_le32(bytes@, 8),
            count == read_le32(bytes@, 12),
            forall|i: int| 0 <= i < keys.len() ==> #[trigger] key_read(keys@[i], raw[i]),
            total_k == match parse_keys(bytes@, pos as int, (count - got) as nat) {
                Some(rest) => Some(raw + rest),
                None => None,
            },
        decreases count - got,
    {
        if bytes.len() - pos < 4 {
            assert(parse_keys(bytes@, pos as int, (count - got) as nat) is None);
            assert(total_k is None);
            assert(parse_index(bytes@) == Err::<(u32, Seq<(Seq<u32>, Option<Seq<u8>>)>), IndexFileError>(
                IndexFileError::Truncated,
            ));
            return Err(IndexFileError::Truncated);
        }
        let len = read_u32_at(bytes, pos);
        let after = pos + 4;
        if (len as usize) > bytes.len() - after {
            assert(parse_keys(bytes@, pos as int, (count - got) as nat) is None);
            assert(total_k is None);
            assert(parse_index(bytes@) == Err::<(u32, Seq<(Seq<u32>, Option<Seq<u8>>)>), IndexFileError>(
                IndexFileError::Truncated,
            ));
            return Err(IndexFileError::Truncated);
        }
        let meta = if len > 0 {
            let end = after + len as usize;
            let mut buf: Vec<u8> = Vec::new();
            let mut j: usize = after;
            while j < end
                invariant
                    after <= j <= end,
                    end <= bytes.len(),
                    buf@ == bytes@.subrange(after as int, j as int),
                decreases end - j,
            {
                buf.push(bytes[j]);
                assert(bytes@.subrange(after as int, j + 1) =~= bytes@.subrange(after as int, j as int).push(
                    bytes@[j as int],
                ));
                j += 1;
            }
            Some(utf8_lossy(buf.as_slice()))
        } else {
            None
        };
        let ghost mspec = key_at(bytes@, pos as int);
        assert(key_read(meta, mspec));
        let ghost old_keys = keys@;
        let ghost old_raw = raw;
        proof {
            raw = raw.push(mspec);
        }
        keys.push(meta);
        proof {
            assert forall|i: int| 0 <= i < keys.len() implies #[trigger] key_read(keys@[i], raw[i]) by {
                if i < keys.len() - 1 {
                    assert(keys@[i] == old_keys[i]);
                    assert(raw[i] == old_raw[i]);
                }
            }
        }
        pos = after + len as usize;
        got = got + 1;
        proof {
            match parse_keys(bytes@, pos as int, (count - got) as nat) {
                Some(rest) => {
                    assert(old_raw + (seq![mspec] + rest) =~= raw + rest);
                },
                None => {},
            }
        }
    }
    assert(raw + Seq::<Option<Seq<u8>>>::empty() =~= raw);
    proof {
        let es = zip_entries(vs_view, raw);
        assert forall|i: int| 0 <= i < es.len() implies #[trigger] vectors@[i]@ == es[i].0 && key_read(
            keys@[i],
            es[i].1,
        ) by {
            assert(vs_view[i] == vectors@[i]@);
        }
    }
    Ok((dim, vectors, keys))
}

/// The four bytes of `x` read back give `x`.
pub proof fn lemma_le32_roundtrip(x: u32)
    ensures
        read_le32(le32(x), 0) == x,
{
    reveal(read_le32);
    assert(x == (x % 256) + 256 * ((x / 256) % 256) + 65536 * ((x / 65536) % 256) + 16777216 * ((
    x / 16777216) % 256)) by (bit_vector);
}

/// Reading where the bytes of `x` stand gives `x`.
pub proof fn lemma_read_at(s: Seq<u8>, pos: int, x: u32)
    requires
        0 <= pos,
        pos + 4 <= s.len(),
        s.subrange(pos, pos + 4) == le32(x),
    ensures
        read_le32(s, pos) == x,
{
    lemma_le32_roundtrip(x);
    reveal(read_le32);
    let t = s.subrange(pos, pos + 4);
    assert(t[0] == s[pos] && t[1] == s[pos + 1] && t[2] == s[pos + 2] && t[3] == s[pos + 3]);
}

/// The bytes of a vector: four per word, word `i` at `4 * i`.
pub proof fn lemma_words_bytes(v: Seq<u32>)
    ensures
        words_bytes(v).len() == 4 * v.len(),
        forall|i: int| 0 <= i < v.len() ==> #[trigger] words_bytes(v).subrange(4 * i, 4 * i + 4) == le32(
            v[i],
        ),
    decreases v.len(),
{
    if v.len() > 0 {
        let p = v.drop_last();
        lemma_words_bytes(p);
        let w = words_bytes(v);
        assert forall|i: int| 0 <= i < v.len() implies #[trigger] w.subrange(4 * i, 4 * i + 4) == le32(
            v[i],
        ) by {
            if i < v.len() - 1 {
                assert(w.subrange(4 * i, 4 * i + 4) =~= words_bytes(p).subrange(4 * i, 4 * i + 4));
                assert(p[i] == v[i]);
            } else {
                assert(w.subrange(4 * i, 4 * i + 4) =~= le32(v.last()));
            }
        }
    }
}

/// The bytes of vectors begin with those of the first.
proof fn lemma_vectors_bytes_front(vs: Seq<Seq<u32>>)
    requires
        vs.len() > 0,
    ensures
        vectors_bytes(vs) == words_bytes(vs[0]) + vectors_bytes(vs.drop_first()),
    decreases vs.len(),
{
    if vs.len() == 1 {
        assert(vs.drop_last() =~= Seq::<Seq<u32>>::empty());
        assert(vs.drop_first() =~= Seq::<Seq<u32>>::empty());
        assert(vectors_bytes(vs) =~= words_bytes(vs[0]) + vectors_bytes(vs.drop_first()));
    } else {
        lemma_vectors_bytes_front(vs.drop_last());
        assert(vs.drop_last().drop_first() =~= vs.drop_first().drop_last());
        assert(vs.drop_first().last() == vs.last());
        assert(vs.drop_last()[0] == vs[0]);
        assert(vectors_bytes(vs) =~= words_bytes(vs[0]) + vectors_bytes(vs.drop_first()));
    }
}

/// The bytes of keys begin with those of the first.
proof fn lemma_metas_bytes_front(ms: Seq<Option<Seq<u8>>>)
    requires
        ms.len() > 0,
    ensures
        metas_bytes(ms) == meta_bytes(ms[0]) + metas_bytes(ms.drop_first()),
    decreases ms.len(),
{
    if ms.len() == 1 {
        assert(ms.drop_last() =~= Seq::<Option<Seq<u8>>>::empty());
        assert(ms.drop_first() =~= Seq::<Option<Seq<u8>>>::empty());
        assert(metas_bytes(ms) =~= meta_bytes(ms[0]) + metas_bytes(ms.drop_first()));
    } else {
        lemma_metas_bytes_front(ms.drop_last());
        assert(ms.drop_last().drop_first() =~= ms.drop_first().drop_last());
        assert(ms.drop_first().last() == ms.last());
        assert(ms.drop_last()[0] == ms[0]);
        assert(metas_bytes(ms) =~= meta_bytes(ms[0]) + metas_bytes(ms.drop_first()));
    }
}

/// Vectors of `dim` words written at `pos` read back as themselves, ending where
/// their bytes end.
proof fn lemma_vectors_read(f: Seq<u8>, pos: int, vs: Seq<Seq<u32>>, dim: nat)
    requires
        0 <= pos,
        pos + vectors_bytes(vs).len() <= f.len(),
        f.subrange(pos, pos + vectors_bytes(vs).len()) == vectors_bytes(vs),
        forall|k: int| 0 <= k < vs.len() ==> (#[trigger] vs[k]).len() == dim,
    ensures
        parse_vectors(f, pos, dim, vs.len()) == Some((vs, pos + vectors_bytes(vs).len())),
    decreases vs.len(),
{
    if vs.len() > 0 {
        let v = vs[0];
        let rest = vs.drop_first();
        lemma_vectors_bytes_front(vs);
        let wb = words_bytes(v);
        let rb = vectors_bytes(rest);
        lemma_words_bytes(v);
        let n = vectors_bytes(vs).len() as int;
        let d = dim as int;
        assert(wb.len() == 4 * d);
        let vr = Seq::new(dim, |i: int| read_le32(f, pos + 4 * i));
        assert forall|i: int| 0 <= i < d implies #[trigger] vr[i] == v[i] by {
            assert(f.subrange(pos + 4 * i, pos + 4 * i + 4) =~= f.subrange(pos, pos + n).subrange(4 * i, 4 * i + 4));
            assert(f.subrange(pos, pos + n).subrange(4 * i, 4 * i + 4) =~= wb.subrange(4 * i, 4 * i + 4));
            lemma_read_at(f, pos + 4 * i, v[i]);
        }
        assert(vr =~= v);
        assert(f.subrange(pos + 4 * d, pos + 4 * d + rb.len()) =~= f.subrange(pos, pos + n).subrange(4 * d, n));
        assert(f.subrange(pos, pos + n).subrange(4 * d, n) =~= rb);
        assert forall|k: int| 0 <= k < rest.len() implies (#[trigger] rest[k]).len() == dim by {
            assert(rest[k] == vs[k + 1]);
        }
        lemma_vectors_read(f, pos + 4 * d, rest, dim);
        assert(seq![v] + rest =~= vs);
    }
}

/// Keys written at `pos` read back as themselves, when each key there is none or
/// not empty and its length fits in a `u32`.
proof fn lemma_keys_read(f: Seq<u8>, pos: int, ms: Seq<Option<Seq<u8>>>)
    requires
        0 <= pos,
        pos + metas_bytes(ms).len() <= f.len(),
        f.subrange(pos, pos + metas_bytes(ms).len()) == metas_bytes(ms),
        forall|k: int| 0 <= k < ms.len() ==> (#[trigger] ms[k] matches Some(b) ==> 0 < b.len() <= u32::MAX),
    ensures
        parse_keys(f, pos, ms.len()) == Some(ms),
    decreases ms.len(),
{
    if ms.len() > 0 {
        let m = ms[0];
        let rest = ms.drop_first();
        lemma_metas_bytes_front(ms);
        let mb = meta_bytes(m);
        let rb = metas_bytes(rest);
        let n = metas_bytes(ms).len() as int;
        let whole = f.subrange(pos, pos + n);
        let len: u32 = match m {
            Some(b) => b.len() as u32,
            None => 0,
        };
        assert(mb.subrange(0, 4) =~= le32(len));
        assert(f.subrange(pos, pos + 4) =~= whole.subrange(0, 4));
        assert(whole.subrange(0, 4) =~= mb.subrange(0, 4));
        lemma_read_at(f, pos, len);
        assert(mb.len() == 4 + len);
        match m {
            Some(b) => {
                assert(f.subrange(pos + 4, pos + 4 + len) =~= whole.subrange(4, 4 + len as int));
                assert(whole.subrange(4, 4 + len as int) =~= mb.subrange(4, 4 + len as int));
                assert(mb.subrange(4, 4 + len as int) =~= b);
            },
            None => {},
        }
        assert(key_at(f, pos) == m);
        let after = pos + 4 + len;
        assert(f.subrange(after, after + rb.len()) =~= whole.subrange(4 + len as int, n));
        assert(whole.subrange(4 + len as int, n) =~= rb);
        assert forall|k: int| 0 <= k < rest.len() implies (#[trigger] rest[k] matches Some(b) ==> 0 < b.len()
            <= u32::MAX) by {
            assert(rest[k] == ms[k + 1]);
        }
        lemma_keys_read(f, after, rest);
        assert(seq![m] + rest =~= ms);
    }
}

/// What is written reads back as itself: an index file of vectors of the stated
/// dimension, each with a key that is none or not empty, reads back as that
/// dimension and those vectors paired with those keys, in order. (The vector
/// count and the key lengths must fit in the `u32`s the file stores them in; an
/// empty key is written as length 0 and so reads back as none.)
pub proof fn lemma_index_roundtrip(dim: u32, vs: Seq<Seq<u32>>, ms: Seq<Option<Seq<u8>>>)
    requires
        vs.len() == ms.len(),
        vs.len() <= u32::MAX,
        forall|k: int| 0 <= k < vs.len() ==> (#[trigger] vs[k]).len() == dim,
        forall|k: int| 0 <= k < ms.len() ==> (#[trigger] ms[k] matches Some(b) ==> 0 < b.len() <= u32::MAX),
    ensures
        parse_index(index_file(dim, vs, ms)) == Ok::<(u32, Seq<(Seq<u32>, Option<Seq<u8>>)>), IndexFileError>(
            (dim, zip_entries(vs, ms)),
        ),
{
    let f = index_file(dim, vs, ms);
    let count = vs.len() as u32;
    let head = magic() + le32(1) + le32(dim) + le32(count);
    let vb = vectors_bytes(vs);
    let mb = metas_bytes(ms);
    assert(f =~= head + vb + mb);
    assert(f.subrange(0, 4) =~= magic());
    assert(f.subrange(8, 12) =~= le32(dim));
    lemma_read_at(f, 8, dim);
    assert(f.subrange(12, 16) =~= le32(count));
    lemma_read_at(f, 12, count);
    assert(count as nat == vs.len());
    assert(f.subrange(16, 16 + vb.len() as int) =~= vb);
    lemma_vectors_read(f, 16, vs, dim as nat);
    let end: int = 16 + vb.len() as int;
    assert(f.subrange(end, end + mb.len() as int) =~= mb);
    lemma_keys_read(f, end, ms);
}

} // verus!
