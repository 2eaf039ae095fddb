//! The placeholder substitution engine.
//!
//! A placeholder is a token of the form `##key##`, where `key` is one or
//! more ASCII letters, digits, `-` or `_`. The engine scans a byte
//! buffer left to right; at each position the longest token starting
//! there, if any, is replaced by the dictionary value for its key, or by
//! nothing when the key is unknown. Matches do not overlap: scanning
//! resumes after the closing delimiter. All bytes outside matches are
//! copied unchanged, so buffers that are not valid text pass through
//! intact.

use vstd::prelude::*;
use vstd::slice::{slice_index_get, slice_subrange};

verus! {

/// The delimiter byte, `#`.
pub const DELIM: u8 = 35;

/// Whether `b` may appear in a placeholder key: ASCII letters, digits,
/// `-` and `_`.
pub open spec fn is_key_byte(b: u8) -> bool {
    ||| 97 <= b <= 122  // 'a'..='z'
    ||| 65 <= b <= 90  // 'A'..='Z'
    ||| 48 <= b <= 57  // '0'..='9'
    ||| b == 45  // '-'
    ||| b == 95  // '_'
}

/// The number of consecutive key bytes starting at index `j`.
pub open spec fn key_run(s: Seq<u8>, j: int) -> nat
    decreases s.len() - j when j >= 0
{
    if j < s.len() && is_key_byte(s[j]) {
        1 + key_run(s, j + 1)
    } else {
        0
    }
}

/// Whether a complete placeholder token starts at index `i`:
/// `##`, then a maximal nonempty run of key bytes, then `##`.
pub open spec fn has_token_at(s: Seq<u8>, i: int) -> bool {
    let n = key_run(s, i + 2) as int;
    &&& 0 <= i
    &&& i + n + 4 <= s.len()
    &&& s[i] == DELIM
    &&& s[i + 1] == DELIM
    &&& n >= 1
    &&& s[i + 2 + n] == DELIM
    &&& s[i + 3 + n] == DELIM
}

/// The index just past the token starting at `i`.
pub open spec fn token_end(s: Seq<u8>, i: int) -> int {
    i + key_run(s, i + 2) + 4
}

/// The key enclosed by the token starting at `i`.
pub open spec fn token_key(s: Seq<u8>, i: int) -> Seq<u8> {
    s.subrange(i + 2, i + 2 + key_run(s, i + 2))
}

/// The bytes a matched key contributes: the dictionary value, or
/// nothing when the key is unknown.
pub open spec fn replacement(dict: Map<Seq<u8>, Seq<u8>>, key: Seq<u8>) -> Seq<u8> {
    if dict.contains_key(key) {
        dict[key]
    } else {
        Seq::empty()
    }
}

/// The substituted form of `s` from index `i` on: tokens are replaced,
/// other bytes are kept.
pub open spec fn spec_substitute_from(s: Seq<u8>, dict: Map<Seq<u8>, Seq<u8>>, i: int) -> Seq<u8>
    decreases s.len() - i when i >= 0
{
    if i >= s.len() {
        Seq::empty()
    } else if has_token_at(s, i) {
        replacement(dict, token_key(s, i)) + spec_substitute_from(s, dict, token_end(s, i))
    } else {
        seq![s[i]] + spec_substitute_from(s, dict, i + 1)
    }
}

/// The substituted form of a whole buffer.
pub open spec fn spec_substitute(s: Seq<u8>, dict: Map<Seq<u8>, Seq<u8>>) -> Seq<u8> {
    spec_substitute_from(s, dict, 0)
}

proof fn lemma_substitute_from_no_tokens(s: Seq<u8>, dict: Map<Seq<u8>, Seq<u8>>, i: int)
    requires
        0 <= i <= s.len(),
        forall|j: int| i <= j < s.len() ==> !has_token_at(s, j),
    ensures
        spec_substitute_from(s, dict, i) == s.subrange(i, s.len() as int),
    decreases s.len() - i,
{
    if i < s.len() {
        lemma_substitute_from_no_tokens(s, dict, i + 1);
        assert(seq![s[i]] + s.subrange(i + 1, s.len() as int) =~= s.subrange(i, s.len() as int));
    } else {
        assert(s.subrange(i, s.len() as int) =~= Seq::<u8>::empty());
    }
}

/// A buffer in which no placeholder token occurs anywhere comes out of
/// substitution unchanged, whatever the dictionary holds. In
/// particular, with an empty dictionary every buffer free of
/// placeholder syntax round-trips byte for byte.
pub proof fn lemma_substitute_no_tokens(s: Seq<u8>, dict: Map<Seq<u8>, Seq<u8>>)
    requires
        forall|i: int| 0 <= i < s.len() ==> !has_token_at(s, i),
    ensures
        spec_substitute(s, dict) == s,
{
    lemma_substitute_from_no_tokens(s, dict, 0);
    assert(s.subrange(0, s.len() as int) =~= s);
}

proof fn lemma_substitute_from_len_empty_dict(s: Seq<u8>, i: int)
    requires
        0 <= i <= s.len(),
    ensures
        spec_substitute_from(s, Map::empty(), i).len() <= s.len() - i,
        (exists|j: int| i <= j && has_token_at(s, j)) ==> spec_substitute_from(
            s,
            Map::empty(),
            i,
        ).len() < s.len() - i,
    decreases s.len() - i,
{
    let dict = Map::<Seq<u8>, Seq<u8>>::empty();
    if i >= s.len() {
        assert forall|j: int| i <= j implies !has_token_at(s, j) by {}
    } else if has_token_at(s, i) {
        lemma_substitute_from_len_empty_dict(s, token_end(s, i));
    } else {
        lemma_substitute_from_len_empty_dict(s, i + 1);
        if exists|j: int| i <= j && has_token_at(s, j) {
            let j = choose|j: int| i <= j && has_token_at(s, j);
            assert(i + 1 <= j && has_token_at(s, j));
        }
    }
}

/// With an empty dictionary, substitution is the identity exactly on
/// the buffers that contain no placeholder token: every token a buffer
/// does contain is deleted, which strictly shortens it.
pub proof fn lemma_empty_dict_round_trip_iff(s: Seq<u8>)
    ensures
        spec_substitute(s, Map::empty()) == s <==> (forall|i: int|
            0 <= i < s.len() ==> !has_token_at(s, i)),
{
    if forall|i: int| 0 <= i < s.len() ==> !has_token_at(s, i) {
        lemma_substitute_no_tokens(s, Map::empty());
    } else {
        let i = choose|i: int| !(0 <= i < s.len() ==> !has_token_at(s, i));
        assert(has_token_at(s, i));
        lemma_substitute_from_len_empty_dict(s, 0);
        assert(spec_substitute(s, Map::empty()).len() < s.len());
    }
}

/// Binary passthrough: a buffer holding no `##` byte pair at all — for
/// instance arbitrary binary data free of the delimiter sequence — is
/// returned identical, whatever the dictionary holds.
pub proof fn lemma_substitute_no_delimiters(s: Seq<u8>, dict: Map<Seq<u8>, Seq<u8>>)
    requires
        forall|i: int| 0 <= i && i + 1 < s.len() ==> !(#[trigger] s[i] == DELIM && s[i + 1]
            == DELIM),
    ensures
        spec_substitute(s, dict) == s,
{
    assert forall|i: int| 0 <= i < s.len() implies !has_token_at(s, i) by {
        if has_token_at(s, i) {
            assert(key_run(s, i + 2) >= 1);
            assert(i + 1 < s.len());
            assert(s[i] == DELIM && s[i + 1] == DELIM);
        }
    }
    lemma_substitute_no_tokens(s, dict);
}

/// The map described by a list of key/value pairs, later pairs winning.
pub open spec fn pairs_map(s: Seq<(Vec<u8>, Vec<u8>)>) -> Map<Seq<u8>, Seq<u8>>
    decreases s.len()
{
    if s.len() == 0 {
        Map::empty()
    } else {
        pairs_map(s.drop_last()).insert(s.last().0@, s.last().1@)
    }
}

/// The key/value store driving substitution. Keys and values are byte
/// strings; a key whose bytes are not all key bytes is never looked up,
/// since no token can enclose it. A key inserted twice takes its most
/// recent value.
pub struct TemplateDict {
    pub pairs: Vec<(Vec<u8>, Vec<u8>)>,
}

impl View for TemplateDict {
    type V = Map<Seq<u8>, Seq<u8>>;

    open spec fn view(&self) -> Map<Seq<u8>, Seq<u8>> {
        pairs_map(self.pairs@)
    }
}

proof fn lemma_pairs_map_found(s: Seq<(Vec<u8>, Vec<u8>)>, key: Seq<u8>, j: int)
    requires
        0 <= j < s.len(),
        s[j].0@ == key,
        forall|k: int| j < k < s.len() ==> s[k].0@ != key,
    ensures
        pairs_map(s).contains_key(key),
        pairs_map(s)[key] == s[j].1@,
    decreases s.len(),
{
    if j == s.len() - 1 {
    } else {
        assert(forall|k: int| j < k < s.drop_last().len() ==> s.drop_last()[k].0@ != key);
        lemma_pairs_map_found(s.drop_last(), key, j);
        assert(s.last().0@ != key);
    }
}

proof fn lemma_pairs_map_absent(s: Seq<(Vec<u8>, Vec<u8>)>, key: Seq<u8>)
    requires
        forall|k: int| 0 <= k < s.len() ==> s[k].0@ != key,
    ensures
        !pairs_map(s).contains_key(key),
    decreases s.len(),
{
    if s.len() > 0 {
        lemma_pairs_map_absent(s.drop_last(), key);
        assert(s.last().0@ != key);
    }
}

/// Byte-for-byte equality of two slices.
fn bytes_eq(a: &[u8], b: &[u8]) -> (r: bool)
    ensures
        r == (a@ == b@),
{
    if a.len() != b.len() {
        return false;
    }
    let mut i: usize = 0;
    while i < a.len()
        invariant
            i <= a@.len(),
            a@.len() == b@.len(),
            forall|j: int| 0 <= j < i ==> a@[j] == b@[j],
        decreases a@.len() - i,
    {
        if *slice_index_get(a, i) != *slice_index_get(b, i) {
            return false;
        }
        i = i + 1;
    }
    proof {
        assert(a@ =~= b@);
    }
    true
}

impl TemplateDict {
    /// An empty dictionary.
    pub fn new() -> (r: TemplateDict)
        ensures
            r@ == Map::<Seq<u8>, Seq<u8>>::empty(),
    {
        TemplateDict { pairs: Vec::new() }
    }

    /// Bind `key` to `value`, replacing any earlier binding.
    pub fn insert(&mut self, key: Vec<u8>, value: Vec<u8>)
        ensures
            final(self)@ == old(self)@.insert(key@, value@),
    {
        let ghost before = self.pairs@;
        self.pairs.push((key, value));
        proof {
            assert(self.pairs@.drop_last() =~= before);
        }
    }

    /// The value bound to `key`, if any.
    pub fn get<'a>(&'a self, key: &[u8]) -> (r: Option<&'a Vec<u8>>)
        ensures
            match r {
                Some(v) => self@.contains_key(key@) && v@ == self@[key@],
                None => !self@.contains_key(key@),
            },
    {
        let mut i: usize = self.pairs.len();
        while i > 0
            invariant
                i <= self.pairs@.len(),
                forall|k: int| i <= k < self.pairs@.len() ==> self.pairs@[k].0@ != key@,
            decreases i,
        {
            i = i - 1;
            let pair = &self.pairs[i];
            if bytes_eq(pair.0.as_slice(), key) {
                proof {
                    lemma_pairs_map_found(self.pairs@, key@, i as int);
                }
                return Some(&pair.1);
            }
        }
        proof {
            lemma_pairs_map_absent(self.pairs@, key@);
        }
        None
    }
}

/// `key_run(s, j0)` counts exactly the key bytes between `j0` and the
/// first non-key byte (or the end of the buffer) at `j1`.
proof fn lemma_key_run_value(s: Seq<u8>, j0: int, j1: int)
    requires
        0 <= j0 <= j1 <= s.len(),
        forall|k: int| j0 <= k < j1 ==> is_key_byte(s[k]),
        j1 == s.len() || !is_key_byte(s[j1]),
    ensures
        key_run(s, j0) == j1 - j0,
    decreases j1 - j0,
{
    if j0 < j1 {
        lemma_key_run_value(s, j0 + 1, j1);
    }
}

/// Whether `b` may appear in a placeholder key.
fn is_key_byte_exec(b: u8) -> (r: bool)
    ensures
        r == is_key_byte(b),
{
    (97 <= b && b <= 122) || (65 <= b && b <= 90) || (48 <= b && b <= 57) || b == 45 || b == 95
}

/// Looks for a token starting at `i`; returns the index just past the
/// key (the start of the closing delimiter) when one is there.
fn find_token(content: &[u8], i: usize) -> (r: Option<usize>)
    requires
        i < content@.len(),
    ensures
        match r {
            Some(ke) => has_token_at(content@, i as int) && ke == i + 2 + key_run(
                content@,
                i as int + 2,
            ),
            None => !has_token_at(content@, i as int),
        },
{
    if content.len() - i < 2 {
        return None;
    }
    if *slice_index_get(content, i) != DELIM || *slice_index_get(content, i + 1) != DELIM {
        return None;
    }
    let mut j: usize = i + 2;
    while j < content.len() && is_key_byte_exec(*slice_index_get(content, j))
        invariant
            i + 2 <= j <= content@.len(),
            forall|k: int| i + 2 <= k < j ==> is_key_byte(content@[k]),
        decreases content@.len() - j,
    {
        j = j + 1;
    }
    proof {
        lemma_key_run_value(content@, i as int + 2, j as int);
    }
    if j == i + 2 {
        return None;
    }
    if content.len() - j < 2 {
        return None;
    }
    if *slice_index_get(content, j) != DELIM || *slice_index_get(content, j + 1) != DELIM {
        return None;
    }
    Some(j)
}

/// Appends every byte of `piece` to `out`.
fn append_bytes(out: &mut Vec<u8>, piece: &[u8])
    ensures
        final(out)@ == old(out)@ + piece@,
{
    let mut k: usize = 0;
    while k < piece.len()
        invariant
            k <= piece@.len(),
            out@ == old(out)@ + piece@.subrange(0, k as int),
        decreases piece@.len() - k,
    {
        let ghost prev = out@;
        out.push(*slice_index_get(piece, k));
        k = k + 1;
        proof {
            assert(out@ =~= old(out)@ + piece@.subrange(0, k as int));
        }
    }
    proof {
        assert(piece@.subrange(0, piece@.len() as int) =~= piece@);
    }
}

/// Replaces every placeholder token in `content` by its dictionary
/// value (or by nothing, for an unknown key) and copies every other
/// byte unchanged.
pub fn substitute(content: &[u8], dict: &TemplateDict) -> (r: Vec<u8>)
    ensures
        r@ == spec_substitute(content@, dict@),
{
    let mut out: Vec<u8> = Vec::new();
    let mut i: usize = 0;
    while i < content.len()
        invariant
            i <= content@.len(),
            spec_substitute(content@, dict@) == out@ + spec_substitute_from(
                content@,
                dict@,
                i as int,
            ),
        decreases content@.len() - i,
    {
        let ghost prev = out@;
        match find_token(content, i) {
            Some(ke) => {
                let key = slice_subrange(content, i + 2, ke);
                match dict.get(key) {
                    Some(value) => {
                        append_bytes(&mut out, value.as_slice());
                    },
                    None => {},
                }
                proof {
                    assert(key@ == token_key(content@, i as int));
                    assert(out@ =~= prev + replacement(dict@, token_key(content@, i as int)));
                    assert(out@ + spec_substitute_from(content@, dict@, token_end(content@, i as int))
                        =~= prev + spec_substitute_from(content@, dict@, i as int));
                }
                i = ke + 2;
            },
            None => {
                let b = *slice_index_get(content, i);
                out.push(b);
                proof {
                    assert(out@ + spec_substitute_from(content@, dict@, i as int + 1)
                        =~= prev + spec_substitute_from(content@, dict@, i as int));
                }
                i = i + 1;
            },
        }
    }
    proof {
        assert(out@ + spec_substitute_from(content@, dict@, i as int) =~= out@);
    }
    out
}

/// A handle for running the substitution engine. The matcher needs no
/// compiled state, so construction cannot fail and processing is
/// infallible: both signatures keep their fallible shape only for the
/// callers that expect it.
pub struct TemplateProcessor {}

impl TemplateProcessor {
    /// A ready processor; always succeeds.
    pub fn new() -> (r: Result<TemplateProcessor, crate::error::LatexError>)
        ensures
            r is Ok,
    {
        Ok(TemplateProcessor {})
    }

    /// Substitutes placeholders in `content`; always succeeds, and
    /// returns exactly the substituted form of the buffer.
    pub fn process_placeholders(&self, content: &[u8], dict: &TemplateDict) -> (r: Result<
        Vec<u8>,
        crate::error::LatexError,
    >)
        ensures
            r is Ok,
            r matches Ok(v) ==> v@ == spec_substitute(content@, dict@),
    {
        Ok(substitute(content, dict))
    }
}

} // verus!
