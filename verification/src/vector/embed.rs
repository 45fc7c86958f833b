//! Tokenization and feature hashing for bag-of-words text embeddings.

use vstd::prelude::*;
use vstd::utf8::encode_utf8;
use crate::stdlib::string::string_views;
use crate::stdlib::text::{
    alphanumeric, char_is_alphanumeric, char_width, str_lower, str_to_lowercase, string_of,
};

verus! {

broadcast use vstd::string::group_string_axioms;

/// The tokens of `s` from position `i` on (`cur` is the token begun before `i`): the
/// maximal runs of alphanumeric characters that are longer than one byte.
pub open spec fn tokens_from(s: Seq<char>, i: int, cur: Seq<char>) -> Seq<Seq<char>>
    decreases s.len() - i,
{
    let done: Seq<Seq<char>> = if encode_utf8(cur).len() > 1 {
        seq![cur]
    } else {
        Seq::empty()
    };
    if i < 0 || i >= s.len() {
        done
    } else if !alphanumeric(s[i]) {
        done + tokens_from(s, i + 1, Seq::empty())
    } else {
        tokens_from(s, i + 1, cur.push(s[i]))
    }
}

/// The tokens of a text: the alphanumeric runs, longer than one byte, of its lowercase
/// form.
pub open spec fn tokens_of(text: Seq<char>) -> Seq<Seq<char>> {
    tokens_from(str_lower(text), 0, Seq::empty())
}

/// The tokens from position `i` on, when the token begun before holds only
/// alphanumeric characters: each holds only alphanumeric characters and is longer
/// than one byte.
pub proof fn lemma_tokens_from_alphanumeric(s: Seq<char>, i: int, cur: Seq<char>)
    requires
        forall|j: int| 0 <= j < cur.len() ==> alphanumeric(#[trigger] cur[j]),
    ensures
        forall|k: int, j: int|
            0 <= k < tokens_from(s, i, cur).len() && 0 <= j < tokens_from(s, i, cur)[k].len()
                ==> alphanumeric(#[trigger] tokens_from(s, i, cur)[k][j]),
        forall|k: int|
            0 <= k < tokens_from(s, i, cur).len() ==> encode_utf8(#[trigger] tokens_from(s, i, cur)[k]).len() > 1,
    decreases s.len() - i,
{
    let done: Seq<Seq<char>> = if encode_utf8(cur).len() > 1 {
        seq![cur]
    } else {
        Seq::empty()
    };
    let r = tokens_from(s, i, cur);
    if i < 0 || i >= s.len() || !alphanumeric(s[i]) {
        let rest: Seq<Seq<char>> = if i < 0 || i >= s.len() {
            Seq::empty()
        } else {
            lemma_tokens_from_alphanumeric(s, i + 1, Seq::empty());
            tokens_from(s, i + 1, Seq::empty())
        };
        assert(r =~= done + rest);
        assert forall|k: int| 0 <= k < r.len() implies encode_utf8(#[trigger] r[k]).len() > 1 by {
            if k >= done.len() {
                assert(r[k] == rest[k - done.len()]);
            } else {
                assert(r[k] == cur);
            }
        }
        assert forall|k: int, j: int| 0 <= k < r.len() && 0 <= j < r[k].len() implies alphanumeric(
            #[trigger] r[k][j],
        ) by {
            if k >= done.len() {
                assert(r[k] == rest[k - done.len()]);
            } else {
                assert(r[k] == cur);
            }
        }
    } else {
        let next = cur.push(s[i]);
        assert forall|j: int| 0 <= j < next.len() implies alphanumeric(#[trigger] next[j]) by {
            if j < cur.len() {
                assert(next[j] == cur[j]);
            }
        }
        lemma_tokens_from_alphanumeric(s, i + 1, next);
        assert(r == tokens_from(s, i + 1, next));
    }
}

/// Every token of a text holds only alphanumeric characters (so no `_`, space or
/// punctuation) and is longer than one byte.
pub proof fn lemma_tokens_alphanumeric(text: Seq<char>)
    ensures
        forall|k: int, j: int|
            0 <= k < tokens_of(text).len() && 0 <= j < tokens_of(text)[k].len() ==> alphanumeric(
                #[trigger] tokens_of(text)[k][j],
            ),
        forall|k: int|
            0 <= k < tokens_of(text).len() ==> encode_utf8(#[trigger] tokens_of(text)[k]).len() > 1,
{
    lemma_tokens_from_alphanumeric(str_lower(text), 0, Seq::empty());
}

/// Tokens are read the same after a prefix as in the rest on its own.
pub proof fn lemma_tokens_from_shift(p: Seq<char>, b: Seq<char>, j: int, cur: Seq<char>)
    requires
        0 <= j <= b.len(),
    ensures
        tokens_from(p + b, p.len() + j, cur) == tokens_from(b, j, cur),
    decreases b.len() - j,
{
    let s = p + b;
    if j < b.len() {
        assert(s[p.len() + j] == b[j]);
        lemma_tokens_from_shift(p, b, j + 1, Seq::empty());
        lemma_tokens_from_shift(p, b, j + 1, cur.push(b[j]));
    }
}

/// Up to the end of `a`, the tokens of `a` followed by a separator and `b` are those
/// of `a`, then those of `b`.
pub proof fn lemma_tokens_from_split(a: Seq<char>, c: char, b: Seq<char>, i: int, cur: Seq<char>)
    requires
        !alphanumeric(c),
        0 <= i <= a.len(),
    ensures
        tokens_from(a.push(c) + b, i, cur) == tokens_from(a, i, cur) + tokens_from(b, 0, Seq::empty()),
    decreases a.len() - i,
{
    let s = a.push(c) + b;
    let done: Seq<Seq<char>> = if encode_utf8(cur).len() > 1 {
        seq![cur]
    } else {
        Seq::empty()
    };
    if i == a.len() {
        assert(s[i] == c);
        lemma_tokens_from_shift(a.push(c), b, 0, Seq::empty());
        assert(tokens_from(a, i, cur) == done);
    } else {
        assert(s[i] == a[i]);
        lemma_tokens_from_split(a, c, b, i + 1, Seq::empty());
        lemma_tokens_from_split(a, c, b, i + 1, cur.push(a[i]));
        assert(done + tokens_from(a, i + 1, Seq::empty()) + tokens_from(b, 0, Seq::empty()) =~= done
            + (tokens_from(a, i + 1, Seq::empty()) + tokens_from(b, 0, Seq::empty())));
    }
}

/// A character that is not alphanumeric splits the text: the tokens of `a`, that
/// character and `b` are the tokens of `a` followed by those of `b`.
pub proof fn lemma_tokens_split(a: Seq<char>, c: char, b: Seq<char>)
    requires
        !alphanumeric(c),
    ensures
        tokens_from(a.push(c) + b, 0, Seq::empty()) == tokens_from(a, 0, Seq::empty()) + tokens_from(
            b,
            0,
            Seq::empty(),
        ),
{
    lemma_tokens_from_split(a, c, b, 0, Seq::empty());
}

/// From position `i` on, a run of alphanumeric characters to the end, after the
/// token begun before, makes one token with it, when longer than one byte.
pub proof fn lemma_tokens_from_word(s: Seq<char>, i: int, cur: Seq<char>)
    requires
        0 <= i <= s.len(),
        forall|j: int| i <= j < s.len() ==> alphanumeric(#[trigger] s[j]),
    ensures
        tokens_from(s, i, cur) == if encode_utf8(cur + s.subrange(i, s.len() as int)).len() > 1 {
            seq![cur + s.subrange(i, s.len() as int)]
        } else {
            Seq::empty()
        },
    decreases s.len() - i,
{
    if i == s.len() {
        assert(cur + s.subrange(i, s.len() as int) =~= cur);
    } else {
        lemma_tokens_from_word(s, i + 1, cur.push(s[i]));
        assert(cur.push(s[i]) + s.subrange(i + 1, s.len() as int) =~= cur + s.subrange(i, s.len() as int));
    }
}

/// A text made only of alphanumeric characters, longer than one byte, is one token.
pub proof fn lemma_tokens_word(s: Seq<char>)
    requires
        forall|j: int| 0 <= j < s.len() ==> alphanumeric(#[trigger] s[j]),
        encode_utf8(s).len() > 1,
    ensures
        tokens_from(s, 0, Seq::empty()) == seq![s],
{
    lemma_tokens_from_word(s, 0, Seq::empty());
    assert(Seq::<char>::empty() + s.subrange(0, s.len() as int) =~= s);
}

/// The djb2 hash of a byte sequence (multiply by 33 and add each byte, wrapping).
pub open spec fn djb2(bytes: Seq<u8>) -> u64
    decreases bytes.len(),
{
    if bytes.len() == 0 {
        5381
    } else {
        djb2(bytes.drop_last()).wrapping_mul(33).wrapping_add(bytes.last() as u64)
    }
}

/// Split lowercase text into tokens.
pub fn tokenize_text(text: &str) -> (r: Vec<String>)
    ensures
        string_views(r@) == tokens_of(text@),
{
    let lower = str_to_lowercase(text);
    let v = crate::stdlib::text::chars_of(lower.as_str());
    let mut result: Vec<String> = Vec::new();
    let mut cur: Vec<char> = Vec::new();
    let mut cur_bytes: usize = 0;
    let mut i: usize = 0;
    assert(string_views(result@) =~= Seq::<Seq<char>>::empty());
    assert(encode_utf8(Seq::<char>::empty()) =~= Seq::<u8>::empty());
    while i < v.len()
        invariant
            i <= v.len(),
            v@ == str_lower(text@),
            cur_bytes == if encode_utf8(cur@).len() > 1 { 2 } else { encode_utf8(cur@).len() },
            string_views(result@) + tokens_from(v@, i as int, cur@) == tokens_of(text@),
        decreases v.len() - i,
    {
        let c = v[i];
        let ghost before = string_views(result@);
        let ghost old_cur = cur@;
        if !char_is_alphanumeric(c) {
            if cur_bytes > 1 {
                let tok = string_of(&cur);
                result.push(tok);
                assert(string_views(result@) =~= before.push(old_cur));
            } else {
                assert(string_views(result@) == before);
            }
            cur = Vec::new();
            cur_bytes = 0;
            assert(before + tokens_from(v@, i as int, old_cur) =~= string_views(result@)
                + tokens_from(v@, i + 1, cur@));
        } else {
            cur.push(c);
            proof {
                crate::stdlib::text::lemma_encode_utf8_push_len(old_cur, c);
            }
            let w = char_width(c);
            cur_bytes = if cur_bytes + w > 1 {
                2
            } else {
                cur_bytes + w
            };
        }
        i += 1;
    }
    if cur_bytes > 1 {
        let ghost before = string_views(result@);
        let tok = string_of(&cur);
        result.push(tok);
        assert(string_views(result@) =~= before.push(cur@));
    }
    assert(string_views(result@) =~= tokens_of(text@));
    result
}

/// djb2 hash of a token's UTF-8 bytes, reduced to a bucket index below `dim`.
pub fn hash_to_bucket(token: &str, dim: usize) -> (r: usize)
    requires
        dim > 0,
    ensures
        r == (djb2(encode_utf8(token@)) as usize) % dim,
{
    let bytes = token.as_bytes();
    let mut hash: u64 = 5381;
    let mut i: usize = 0;
    assert(bytes@.take(0) =~= Seq::<u8>::empty());
    while i < bytes.len()
        invariant
            i <= bytes.len(),
            bytes@ == encode_utf8(token@),
            hash == djb2(bytes@.take(i as int)),
        decreases bytes.len() - i,
    {
        assert(bytes@.take(i + 1).drop_last() =~= bytes@.take(i as int));
        hash = hash.wrapping_mul(33).wrapping_add(bytes[i] as u64);
        i += 1;
    }
    assert(bytes@.take(bytes.len() as int) =~= bytes@);
    (hash as usize) % dim
}

/// The bucket of a token among `dim` buckets: its djb2 hash modulo `dim`.
pub open spec fn bucket_of(token: Seq<char>, dim: usize) -> usize {
    (djb2(encode_utf8(token)) as usize) % dim
}

/// How many of `tokens` fall in bucket `b` of `dim`.
pub open spec fn bucket_count(tokens: Seq<Seq<char>>, b: int, dim: usize) -> nat
    decreases tokens.len(),
{
    if tokens.len() == 0 {
        0
    } else {
        bucket_count(tokens.drop_last(), b, dim) + if bucket_of(tokens.last(), dim) == b {
            1nat
        } else {
            0nat
        }
    }
}

/// No bucket holds more tokens than there are.
pub proof fn lemma_bucket_count_bound(tokens: Seq<Seq<char>>, b: int, dim: usize)
    ensures
        bucket_count(tokens, b, dim) <= tokens.len(),
    decreases tokens.len(),
{
    if tokens.len() > 0 {
        lemma_bucket_count_bound(tokens.drop_last(), b, dim);
    }
}

/// Simple bag-of-words embedder (no IDF, just hashed counts).
pub struct BagOfWordsEmbedder {
    dim: usize,
}

impl BagOfWordsEmbedder {
    /// The embedding dimension.
    pub closed spec fn dimension(&self) -> usize {
        self.dim
    }

    /// An embedder producing vectors of `dim` entries.
    pub fn new(dim: usize) -> (r: Self)
        ensures
            r.dimension() == dim,
    {
        BagOfWordsEmbedder { dim }
    }

    /// The embedding dimension.
    pub fn dim(&self) -> (r: usize)
        ensures
            r == self.dimension(),
    {
        self.dim
    }

    /// Split text into lowercase alphanumeric tokens longer than one byte.
    pub fn tokenize(&self, text: &str) -> (r: Vec<String>)
        ensures
            string_views(r@) == tokens_of(text@),
    {
        tokenize_text(text)
    }

    /// The bucket of a token: its djb2 hash modulo the dimension. (A zero dimension
    /// has no buckets; the remainder panics on it.)
    pub fn hash_token(&self, token: &str) -> (r: usize)
        requires
            self.dimension() > 0,
        ensures
            r == (djb2(encode_utf8(token@)) as usize) % self.dimension(),
            r < self.dimension(),
    {
        hash_to_bucket(token, self.dim)
    }
    /// The raw bag of words of `text`: for each of the `dimension()` buckets, how
    /// many of its tokens hash there. (Normalising these counts gives the embedding.)
    pub fn bucket_counts(&self, text: &str) -> (r: Vec<usize>)
        requires
            self.dimension() > 0 || tokens_of(text@).len() == 0,
        ensures
            r.len() == self.dimension(),
            forall|b: int| 0 <= b < r.len() ==> #[trigger] r@[b] == bucket_count(
                tokens_of(text@),
                b,
                self.dimension(),
            ),
    {
        let tokens = tokenize_text(text);
        let ghost toks = tokens_of(text@);
        let mut counts: Vec<usize> = Vec::new();
        let mut k: usize = 0;
        while k < self.dim
            invariant
                k <= self.dim,
                counts.len() == k,
                forall|b: int| 0 <= b < k ==> #[trigger] counts@[b] == 0,
            decreases self.dim - k,
        {
            counts.push(0);
            k += 1;
        }
        let mut i: usize = 0;
        proof {
            assert(string_views(tokens@).len() == tokens.len());
        }
        while i < tokens.len()
            invariant
                i <= tokens.len(),
                string_views(tokens@) == toks,
                toks.len() == tokens.len(),
                self.dim > 0 || tokens.len() == 0,
                counts.len() == self.dim,
                forall|b: int| 0 <= b < counts.len() ==> #[trigger] counts@[b] == bucket_count(
                    toks.take(i as int),
                    b,
                    self.dim,
                ),
            decreases tokens.len() - i,
        {
            assert(toks[i as int] == tokens@[i as int]@);
            let bucket = hash_to_bucket(tokens[i].as_str(), self.dim);
            assert(toks.take(i + 1).drop_last() =~= toks.take(i as int));
            assert(toks.take(i + 1).last() == toks[i as int]);
            proof {
                lemma_bucket_count_bound(toks.take(i as int), bucket as int, self.dim);
            }
            let c = counts[bucket];
            counts.set(bucket, c + 1);
            i += 1;
        }
        assert(toks.take(tokens.len() as int) =~= toks);
        counts
    }
}

} // verus!
