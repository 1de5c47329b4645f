use vstd::prelude::*;
use vstd::string::*;
use vstd::utf8::encode_utf8;

use crate::corpus::CorpusId;
use crate::error::Error;
use crate::text::{decimal_string, decimal_text, hex_string, hex_text, strings_view};

verus! {

/// An input as a sequence of token codes.
#[derive(Debug, Clone, Default, Eq, Hash)]
pub struct EncodedInput {
    codes: Vec<u32>,
}

impl PartialEq for EncodedInput {
    fn eq(&self, other: &EncodedInput) -> (r: bool) {
        let a = self.codes.as_slice();
        let b = other.codes.as_slice();
        if a.len() != b.len() {
            return false;
        }
        let mut i: usize = 0;
        while i < a.len()
            invariant
                a@ == self.codes@,
                b@ == other.codes@,
                a@.len() == b@.len(),
                i <= a@.len(),
                forall|j: int| 0 <= j < i ==> a@[j] == b@[j],
            decreases a@.len() - i,
        {
            if a[i] != b[i] {
                return false;
            }
            i += 1;
        }
        assert(self.codes@ =~= other.codes@);
        true
    }
}

impl vstd::std_specs::cmp::PartialEqSpecImpl for EncodedInput {
    open spec fn obeys_eq_spec() -> bool {
        true
    }

    open spec fn eq_spec(&self, other: &EncodedInput) -> bool {
        self.codes_spec() == other.codes_spec()
    }
}

impl EncodedInput {
    pub closed spec fn codes_spec(&self) -> Seq<u32> {
        self.codes@
    }

    /// The input made of `codes`.
    pub fn new(codes: Vec<u32>) -> (r: EncodedInput)
        ensures
            r.codes_spec() == codes@,
    {
        EncodedInput { codes }
    }

    /// The codes of this input.
    pub fn codes(&self) -> (r: &[u32])
        ensures
            r@ == self.codes_spec(),
    {
        self.codes.as_slice()
    }

    /// The codes of this input, to change in place.
    pub fn codes_mut(&mut self) -> (r: &mut Vec<u32>)
        ensures
            r@ == old(self).codes_spec(),
            final(self).codes_spec() == final(r)@,
    {
        &mut self.codes
    }

    /// A name for this input, made from a hash of its codes with fixed keys.
    pub fn generate_name(&self, id: Option<CorpusId>) -> (r: String)
        ensures
            r@.len() == 16,
            exists|h: u64| r@ == hex_text(h as nat, 16),
    {
        let mut hasher = seeded_hasher(0, 0, 0, 0);
        let mut i: usize = 0;
        while i < self.codes.len()
            decreases self.codes@.len() - i,
        {
            let bytes = le_bytes(self.codes[i]);
            hasher_write(&mut hasher, bytes.as_slice());
            i += 1;
        }
        let hash = hasher_finish(&hasher);
        let r = name_of_hash(hash);
        proof {
            lemma_hex_len(hash as nat, 16);
            assert(r@ == hex_text(hash as nat, 16));
        }
        r
    }

    /// How many codes this input has.
    pub fn len(&self) -> (r: usize)
        ensures
            r == self.codes_spec().len(),
    {
        self.codes.len()
    }
}

#[verifier::external_type_specification]
#[verifier::external_body]
pub struct ExAHasher(ahash::AHasher);

/// Relies on `ahash::RandomState::with_seeds` and its `build_hasher`: a hasher keyed
/// with the given seeds.
#[verifier::external_body]
fn seeded_hasher(k0: u64, k1: u64, k2: u64, k3: u64) -> ahash::AHasher {
    core::hash::BuildHasher::build_hasher(&ahash::RandomState::with_seeds(k0, k1, k2, k3))
}

/// Relies on `ahash::AHasher::write`: feeds bytes to the hasher.
#[verifier::external_body]
fn hasher_write(h: &mut ahash::AHasher, bytes: &[u8]) {
    core::hash::Hasher::write(h, bytes)
}

/// Relies on `ahash::AHasher::finish`: the hash of what was fed so far.
#[verifier::external_body]
fn hasher_finish(h: &ahash::AHasher) -> u64 {
    core::hash::Hasher::finish(h)
}

/// The little-endian bytes of `c`.
fn le_bytes(c: u32) -> (r: [u8; 4])
    ensures
        r@ == seq![(c % 256) as u8, ((c / 256) % 256) as u8, ((c / 65536) % 256) as u8, (c / 16777216) as u8],
{
    let b0 = (c % 256) as u8;
    let b1 = ((c / 256) % 256) as u8;
    let b2 = ((c / 65536) % 256) as u8;
    let b3 = (c / 16777216) as u8;
    let r = [b0, b1, b2, b3];
    assert(r@ =~= seq![b0, b1, b2, b3]);
    r
}

/// The name of an input whose codes hash to `hash`: the hash in sixteen lower-case
/// hexadecimal digits.
pub fn name_of_hash(hash: u64) -> (r: String)
    ensures
        r@ == hex_text(hash as nat, 16),
{
    hex_string(hash, 16)
}

impl From<Vec<u32>> for EncodedInput {
    fn from(codes: Vec<u32>) -> (r: EncodedInput) {
        EncodedInput { codes }
    }
}

impl vstd::std_specs::convert::FromSpecImpl<Vec<u32>> for EncodedInput {
    open spec fn obeys_from_spec() -> bool {
        true
    }

    closed spec fn from_spec(v: Vec<u32>) -> EncodedInput {
        EncodedInput { codes: v }
    }
}

/// Converting codes gives the input made of them, as [`EncodedInput::new`] does.
pub proof fn lemma_from_codes(v: Vec<u32>)
    ensures
        <EncodedInput as vstd::std_specs::convert::FromSpec<Vec<u32>>>::from_spec(v).codes_spec()
            == v@,
{
}

/// Turns bytes into an [`EncodedInput`] with the help of a [`Tokenizer`].
pub trait InputEncoder<T: Tokenizer> {
    /// Whether the encoder is in a state to work from.
    spec fn encoder_ready(&self) -> bool;

    /// What a call of `encode` on `bytes` with `tokenizer`, taking the encoder from
    /// `before` to `after` and returning `r`, does.
    open spec fn encode_done(
        before: &Self,
        after: &Self,
        tokenizer: &T,
        bytes: Seq<u8>,
        r: Result<EncodedInput, Error>,
    ) -> bool {
        true
    }

    fn encode(&mut self, bytes: &[u8], tokenizer: &mut T) -> (r: Result<EncodedInput, Error>)
        requires
            old(self).encoder_ready(),
        ensures
            final(self).encoder_ready(),
            Self::encode_done(old(self), final(self), old(tokenizer), bytes@, r),
    ;
}

/// Turns an [`EncodedInput`] back into bytes.
pub trait InputDecoder {
    /// Whether the decoder is in a state to work from.
    spec fn decoder_ready(&self) -> bool;

    /// What a call of `decode` on `input`, taking the bytes from `b0` to `b1` and
    /// returning `r`, does.
    open spec fn decode_done(&self, input: &EncodedInput, b0: Seq<u8>, b1: Seq<u8>, r: Result<(), Error>) -> bool {
        true
    }

    fn decode(&self, input: &EncodedInput, bytes: &mut Vec<u8>) -> (r: Result<(), Error>)
        requires
            self.decoder_ready(),
        ensures
            self.decode_done(input, old(bytes)@, final(bytes)@, r),
    ;
}

/// The ids of tokens, kept in a hash map.
#[verifier::external_body]
pub struct TokenIds {
    map: hashbrown::HashMap<String, u32>,
}

/// The token each id stands for, kept in a hash map.
#[verifier::external_body]
pub struct IdTokens {
    map: hashbrown::HashMap<u32, String>,
}

/// What a [`TokenIds`] maps each token to.
pub uninterp spec fn token_ids_contents(t: TokenIds) -> Map<Seq<char>, u32>;

/// What an [`IdTokens`] maps each id to.
pub uninterp spec fn id_tokens_contents(t: IdTokens) -> Map<u32, Seq<char>>;

impl TokenIds {
    /// Relies on `hashbrown::HashMap::default`: an empty map.
    #[verifier::external_body]
    fn new() -> (table: TokenIds)
        ensures
            token_ids_contents(table).dom() == Set::<Seq<char>>::empty(),
    {
        TokenIds { map: hashbrown::HashMap::default() }
    }

    /// Relies on `hashbrown::HashMap::get`: the value stored under an equal key.
    #[verifier::external_body]
    fn get(&self, tok: &String) -> (r: Option<u32>)
        ensures
            match r {
                Some(id) => token_ids_contents(*self).contains_key(tok@) && token_ids_contents(
                    *self,
                )[tok@] == id,
                None => !token_ids_contents(*self).contains_key(tok@),
            },
    {
        self.map.get(tok).copied()
    }

    /// Relies on `hashbrown::HashMap::insert`: the key maps to the value afterwards,
    /// every other key as before.
    #[verifier::external_body]
    fn insert(&mut self, tok: String, id: u32)
        ensures
            token_ids_contents(*final(self)) == token_ids_contents(*old(self)).insert(tok@, id),
    {
        self.map.insert(tok, id);
    }
}

impl IdTokens {
    /// Relies on `hashbrown::HashMap::default`: an empty map.
    #[verifier::external_body]
    fn new() -> (table: IdTokens)
        ensures
            id_tokens_contents(table).dom() == Set::<u32>::empty(),
    {
        IdTokens { map: hashbrown::HashMap::default() }
    }

    /// Relies on `hashbrown::HashMap::get`: the value stored under an equal key.
    #[verifier::external_body]
    fn get(&self, id: u32) -> (r: Option<&String>)
        ensures
            match r {
                Some(tok) => id_tokens_contents(*self).contains_key(id) && id_tokens_contents(
                    *self,
                )[id] == tok@,
                None => !id_tokens_contents(*self).contains_key(id),
            },
    {
        self.map.get(&id)
    }

    /// Relies on `hashbrown::HashMap::insert`: the key maps to the value afterwards,
    /// every other key as before.
    #[verifier::external_body]
    fn insert(&mut self, id: u32, tok: String)
        ensures
            id_tokens_contents(*final(self)) == id_tokens_contents(*old(self)).insert(id, tok@),
    {
        self.map.insert(id, tok);
    }
}

proof fn lemma_hex_len(v: nat, n: nat)
    ensures
        hex_text(v, n).len() == n,
    decreases n,
{
    if n > 0 {
        lemma_hex_len(v / 16, (n - 1) as nat);
    }
}

/// No token occurs twice in `v`.
pub open spec fn no_dup(v: Seq<Seq<char>>) -> bool {
    forall|i: int, j: int| 0 <= i < j < v.len() ==> v[i] != v[j]
}

/// The vocabulary `v` after meeting the tokens `toks` in order: each token not yet
/// in it is appended, and so gets the next id.
pub open spec fn grow(v: Seq<Seq<char>>, toks: Seq<Seq<char>>) -> Seq<Seq<char>>
    decreases toks.len(),
{
    if toks.len() == 0 {
        v
    } else {
        let w = grow(v, toks.drop_last());
        if w.contains(toks.last()) {
            w
        } else {
            w.push(toks.last())
        }
    }
}

/// `codes` names `toks` in the vocabulary `v`, one code for each token.
pub open spec fn codes_name(v: Seq<Seq<char>>, codes: Seq<u32>, toks: Seq<Seq<char>>) -> bool {
    &&& codes.len() == toks.len()
    &&& forall|j: int| 0 <= j < codes.len() ==> (#[trigger] codes[j]) < v.len() && v[codes[j] as int] == toks[j]
}

/// The token that `code` stands for in `v`: the one at `code` modulo the size of `v`.
pub open spec fn token_of(v: Seq<Seq<char>>, code: u32) -> Seq<char>
    recommends
        v.len() > 0,
{
    v[(code as int) % (v.len() as int)]
}

/// The bytes of each of `toks`, each followed by one space.
pub open spec fn spaced_bytes(toks: Seq<Seq<char>>) -> Seq<u8>
    decreases toks.len(),
{
    if toks.len() == 0 {
        Seq::empty()
    } else {
        spaced_bytes(toks.drop_last()) + encode_utf8(toks.last()) + seq![32u8]
    }
}

/// What decoding `codes` against the vocabulary `v` writes.
pub open spec fn decoded(v: Seq<Seq<char>>, codes: Seq<u32>) -> Seq<u8>
    recommends
        v.len() > 0,
{
    spaced_bytes(codes.map_values(|c: u32| token_of(v, c)))
}

/// Assigns ids to tokens as they are first met, and turns inputs into codes and back.
pub struct TokenInputEncoderDecoder {
    token_table: TokenIds,
    id_table: IdTokens,
    next_id: u32,
}

impl TokenInputEncoderDecoder {
    /// The tokens known so far, each at its id.
    pub closed spec fn vocab(&self) -> Seq<Seq<char>> {
        Seq::new(self.next_id as nat, |i: int| id_tokens_contents(self.id_table)[i as u32])
    }

    /// The two tables are inverse to each other over the ids given so far.
    pub closed spec fn wf(&self) -> bool {
        let ids = token_ids_contents(self.token_table);
        let toks = id_tokens_contents(self.id_table);
        &&& forall|i: u32| #[trigger] toks.contains_key(i) <==> i < self.next_id
        &&& forall|i: u32|
            i < self.next_id ==> ids.contains_key(#[trigger] toks[i]) && ids[toks[i]] == i
        &&& forall|t: Seq<char>|
            #[trigger] ids.contains_key(t) ==> ids[t] < self.next_id && toks[ids[t]] == t
    }

    /// An encoder with no token known.
    pub fn new() -> (r: TokenInputEncoderDecoder)
        ensures
            r.wf(),
            r.vocab() == Seq::<Seq<char>>::empty(),
    {
        let r = TokenInputEncoderDecoder {
            token_table: TokenIds::new(),
            id_table: IdTokens::new(),
            next_id: 0,
        };
        assert(r.vocab() =~= Seq::<Seq<char>>::empty());
        r
    }

    /// How many tokens are known.
    pub fn next_id(&self) -> (r: u32)
        ensures
            r == self.vocab().len(),
    {
        self.next_id
    }

    /// A well-formed encoder knows no token twice.
    pub proof fn lemma_vocab_no_dup(&self)
        requires
            self.wf(),
        ensures
            no_dup(self.vocab()),
    {
        self.lemma_vocab_facts();
    }

    proof fn lemma_vocab_facts(&self)
        requires
            self.wf(),
        ensures
            no_dup(self.vocab()),
            forall|t: Seq<char>|
                #[trigger] token_ids_contents(self.token_table).contains_key(t)
                    <==> self.vocab().contains(t),
    {
        let v = self.vocab();
        let ids = token_ids_contents(self.token_table);
        let toks = id_tokens_contents(self.id_table);
        assert forall|i: int, j: int| 0 <= i < j < v.len() implies v[i] != v[j] by {
            assert(ids[toks[i as u32]] == i as u32);
            assert(ids[toks[j as u32]] == j as u32);
        }
        assert forall|t: Seq<char>| #[trigger] ids.contains_key(t) <==> v.contains(t) by {
            if ids.contains_key(t) {
                let k = ids[t];
                assert(v[k as int] == t);
            }
            if v.contains(t) {
                let k = choose|k: int| 0 <= k < v.len() && v[k] == t;
                assert(toks[k as u32] == t);
            }
        }
    }

    /// Gives each of `tokens` its id, assigning the next free id to each token not
    /// known yet. Fails, with the vocabulary grown only in part, where the ids would
    /// run out.
    pub fn encode_tokens(&mut self, tokens: &Vec<String>) -> (r: Result<EncodedInput, Error>)
        requires
            old(self).wf(),
        ensures
            final(self).wf(),
            final(self).vocab().len() >= old(self).vocab().len(),
            final(self).vocab().take(old(self).vocab().len() as int) == old(self).vocab(),
            grow(old(self).vocab(), strings_view(tokens@)).len() <= u32::MAX ==> r is Ok,
            r is Err ==> (r matches Err(Error::IllegalState(msg)) && msg@ == "the vocabulary is full"@),
            r is Ok ==> final(self).vocab() == grow(old(self).vocab(), strings_view(tokens@))
                && codes_name(final(self).vocab(), r.unwrap().codes_spec(), strings_view(tokens@)),
    {
        let ghost v0 = self.vocab();
        let ghost toks = strings_view(tokens@);
        let mut codes: Vec<u32> = Vec::new();
        let mut k: usize = 0;
        proof {
            assert(self.vocab().take(v0.len() as int) =~= v0);
        }
        while k < tokens.len()
            invariant
                k <= tokens@.len(),
                toks == strings_view(tokens@),
                v0 == old(self).vocab(),
                self.wf(),
                self.vocab() == grow(v0, toks.take(k as int)),
                self.vocab().len() >= v0.len(),
                self.vocab().take(v0.len() as int) == v0,
                codes_name(self.vocab(), codes@, toks.take(k as int)),
            decreases tokens@.len() - k,
        {
            let tok = &tokens[k];
            let ghost t = tok@;
            let ghost v = self.vocab();
            proof {
                self.lemma_vocab_facts();
                assert(toks.take(k + 1).drop_last() =~= toks.take(k as int));
                assert(toks.take(k + 1).last() == t);
            }
            match self.token_table.get(tok) {
                Some(id) => {
                    proof {
                        assert(self.vocab()[id as int] == t);
                    }
                    codes.push(id);
                    proof {
                        assert forall|j: int| 0 <= j < codes@.len() implies (#[trigger] codes@[j])
                            < v.len() && v[codes@[j] as int] == toks.take(k + 1)[j] by {
                            if j < k {
                                assert(toks.take(k + 1)[j] == toks.take(k as int)[j]);
                            }
                        }
                    }
                },
                None => {
                    if self.next_id == u32::MAX {
                        proof {
                            lemma_grow_prefix(v0, toks, k as int);
                            assert(!v.contains(t));
                            assert(grow(v0, toks.take(k + 1)) == v.push(t));
                            lemma_grow_len(v0, toks, k + 1);
                        }
                        return Err(Error::illegal_state(String::from_str("the vocabulary is full")));
                    }
                    let id = self.next_id;
                    let ghost ids0 = token_ids_contents(self.token_table);
                    let ghost toks0 = id_tokens_contents(self.id_table);
                    self.token_table.insert(tok.clone(), id);
                    self.id_table.insert(id, tok.clone());
                    self.next_id = id + 1;
                    codes.push(id);
                    proof {
                        let ids = token_ids_contents(self.token_table);
                        let tt = id_tokens_contents(self.id_table);
                        assert(!v.contains(t));
                        assert forall|i: u32| i < self.next_id implies ids.contains_key(
                            #[trigger] tt[i],
                        ) && ids[tt[i]] == i by {
                            if i < id {
                                assert(toks0[i] != t) by {
                                    assert(v[i as int] == toks0[i]);
                                }
                            }
                        }
                        assert forall|s: Seq<char>| #[trigger] ids.contains_key(s) implies ids[s]
                            < self.next_id && tt[ids[s]] == s by {
                            if s != t {
                                assert(ids0.contains_key(s));
                            }
                        }
                        assert(self.vocab() =~= v.push(t));
                        assert forall|j: int| 0 <= j < codes@.len() implies (#[trigger] codes@[j])
                            < self.vocab().len() && self.vocab()[codes@[j] as int] == toks.take(
                            k + 1,
                        )[j] by {
                            if j < k {
                                assert(toks.take(k + 1)[j] == toks.take(k as int)[j]);
                            }
                        }
                        assert(self.vocab().take(v0.len() as int) =~= v0);
                    }
                },
            }
            k += 1;
        }
        proof {
            assert(toks.take(tokens@.len() as int) =~= toks);
        }
        Ok(EncodedInput::new(codes))
    }

    /// Runs `tokenizer` over `bytes` and gives each token its id, assigning the next
    /// free id to each token not known yet.
    pub fn encode<T: Tokenizer>(&mut self, bytes: &[u8], tokenizer: &mut T) -> (r: Result<EncodedInput, Error>)
        requires
            old(self).wf(),
        ensures
            final(self).wf(),
            final(self).vocab().len() >= old(self).vocab().len(),
            final(self).vocab().take(old(self).vocab().len() as int) == old(self).vocab(),
            r is Err ==> *final(self) == *old(self) || (r matches Err(Error::IllegalState(msg))
                && msg@ == "the vocabulary is full"@),
            *final(tokenizer) == *old(tokenizer),
            old(tokenizer).tokens_known() ==> encode_post(
                old(self).vocab(),
                final(self).vocab(),
                old(tokenizer).tokens_spec(bytes@),
                *final(self) == *old(self),
                r,
            ),
            r is Ok ==> exists|toks: Seq<Seq<char>>|
                final(self).vocab() == grow(old(self).vocab(), toks) && codes_name(
                    final(self).vocab(),
                    r.unwrap().codes_spec(),
                    toks,
                ),
    {
        let tokens = match tokenizer.tokenize(bytes) {
            Ok(t) => t,
            Err(e) => {
                return Err(e);
            },
        };
        self.encode_tokens(&tokens)
    }

    /// Appends to `bytes` the token of each code, each followed by a space. A code
    /// stands for the token at the code modulo the number of tokens known, so a code
    /// out of range still reads as some token; with no token known, a code cannot be
    /// read and decoding fails.
    pub fn decode(&self, input: &EncodedInput, bytes: &mut Vec<u8>) -> (r: Result<(), Error>)
        requires
            self.wf(),
        ensures
            decode_post(self.vocab(), input.codes_spec(), old(bytes)@, final(bytes)@, r),
    {
        let codes = input.codes();
        let ghost v = self.vocab();
        let ghost b0 = bytes@;
        let mut k: usize = 0;
        while k < codes.len()
            invariant
                k <= codes@.len(),
                codes@ == input.codes_spec(),
                self.wf(),
                v == self.vocab(),
                v.len() > 0 ==> bytes@ == b0 + decoded(v, codes@.take(k as int)),
                v.len() == 0 ==> k == 0 && bytes@ == b0,
                b0 == old(bytes)@,
            decreases codes@.len() - k,
        {
            let id = codes[k];
            if self.next_id == 0 {
                let msg = String::from_str("Id ").concat(decimal_string(id as u64).as_str()).concat(
                    " not in the decoder table",
                );
                return Err(Error::illegal_state(msg));
            }
            let key = id % self.next_id;
            match self.id_table.get(key) {
                None => {
                    let msg = String::from_str("Id ").concat(decimal_string(id as u64).as_str()).concat(
                        " not in the decoder table",
                    );
                    return Err(Error::illegal_state(msg));
                },
                Some(tok) => {
                    let ghost before = bytes@;
                    push_bytes(bytes, tok.as_str().as_bytes());
                    bytes.push(32u8);
                    proof {
                        let pre = codes@.take(k as int);
                        let post = codes@.take(k + 1);
                        assert(post.drop_last() =~= pre);
                        assert(post.map_values(|c: u32| token_of(v, c)).drop_last() =~= pre.map_values(
                            |c: u32| token_of(v, c),
                        ));
                        assert(tok@ == token_of(v, id));
                        assert(bytes@ =~= b0 + decoded(v, post));
                    }
                },
            }
            k += 1;
        }
        proof {
            assert(codes@.take(codes@.len() as int) =~= codes@);
            if codes@.len() == 0 {
                assert(bytes@ =~= b0);
            }
        }
        Ok(())
    }

    /// The bytes that `input` stands for.
    pub fn to_target_bytes(&mut self, input: &EncodedInput) -> (r: Result<Vec<u8>, Error>)
        requires
            old(self).wf(),
        ensures
            *final(self) == *old(self),
            old(self).vocab().len() > 0 ==> r is Ok && r.unwrap()@ == decoded(
                old(self).vocab(),
                input.codes_spec(),
            ),
            old(self).vocab().len() == 0 && input.codes_spec().len() > 0 ==> r is Err,
    {
        let mut bytes: Vec<u8> = Vec::new();
        match self.decode(input, &mut bytes) {
            Ok(()) => {
                proof {
                    assert(bytes@ =~= Seq::<u8>::empty() + bytes@);
                }
                Ok(bytes)
            },
            Err(e) => Err(e),
        }
    }
}

impl<T: Tokenizer> InputEncoder<T> for TokenInputEncoderDecoder {
    open spec fn encoder_ready(&self) -> bool {
        self.wf()
    }

    open spec fn encode_done(
        before: &Self,
        after: &Self,
        tokenizer: &T,
        bytes: Seq<u8>,
        r: Result<EncodedInput, Error>,
    ) -> bool {
        tokenizer.tokens_known() ==> encode_post(
            before.vocab(),
            after.vocab(),
            tokenizer.tokens_spec(bytes),
            *after == *before,
            r,
        )
    }

    fn encode(&mut self, bytes: &[u8], tokenizer: &mut T) -> (r: Result<EncodedInput, Error>) {
        TokenInputEncoderDecoder::encode(self, bytes, tokenizer)
    }
}

impl InputDecoder for TokenInputEncoderDecoder {
    open spec fn decoder_ready(&self) -> bool {
        self.wf()
    }

    open spec fn decode_done(&self, input: &EncodedInput, b0: Seq<u8>, b1: Seq<u8>, r: Result<(), Error>) -> bool {
        decode_post(self.vocab(), input.codes_spec(), b0, b1, r)
    }

    fn decode(&self, input: &EncodedInput, bytes: &mut Vec<u8>) -> (r: Result<(), Error>) {
        TokenInputEncoderDecoder::decode(self, input, bytes)
    }
}

impl Default for TokenInputEncoderDecoder {
    fn default() -> (r: TokenInputEncoderDecoder)
        ensures
            r.wf(),
            r.vocab() == Seq::<Seq<char>>::empty(),
    {
        TokenInputEncoderDecoder::new()
    }
}

fn push_bytes(out: &mut Vec<u8>, b: &[u8])
    ensures
        final(out)@ == old(out)@ + b@,
{
    let mut i: usize = 0;
    while i < b.len()
        invariant
            i <= b@.len(),
            out@ == old(out)@ + b@.take(i as int),
        decreases b@.len() - i,
    {
        out.push(b[i]);
        proof {
            assert(b@.take(i + 1) =~= b@.take(i as int).push(b@[i as int]));
        }
        i += 1;
    }
    proof {
        assert(b@.take(b@.len() as int) =~= b@);
    }
}

proof fn lemma_grow_prefix(v: Seq<Seq<char>>, toks: Seq<Seq<char>>, k: int)
    requires
        0 <= k < toks.len(),
    ensures
        grow(v, toks.take(k + 1)) == (if grow(v, toks.take(k)).contains(toks[k]) {
            grow(v, toks.take(k))
        } else {
            grow(v, toks.take(k)).push(toks[k])
        }),
{
    assert(toks.take(k + 1).drop_last() =~= toks.take(k));
}

proof fn lemma_grow_len(v: Seq<Seq<char>>, toks: Seq<Seq<char>>, k: int)
    requires
        0 <= k <= toks.len(),
    ensures
        grow(v, toks).len() >= grow(v, toks.take(k)).len(),
    decreases toks.len() - k,
{
    if k < toks.len() {
        lemma_grow_prefix(v, toks, k);
        lemma_grow_len(v, toks, k + 1);
    } else {
        assert(toks.take(k) =~= toks);
    }
}

proof fn lemma_grow_facts(v: Seq<Seq<char>>, toks: Seq<Seq<char>>)
    requires
        no_dup(v),
    ensures
        grow(v, toks).len() >= v.len(),
        grow(v, toks).take(v.len() as int) == v,
        no_dup(grow(v, toks)),
        forall|j: int| 0 <= j < toks.len() ==> grow(v, toks).contains(#[trigger] toks[j]),
    decreases toks.len(),
{
    if toks.len() == 0 {
        assert(v.take(v.len() as int) =~= v);
    } else {
        let init = toks.drop_last();
        lemma_grow_facts(v, init);
        let w = grow(v, init);
        let t = toks.last();
        let g = grow(v, toks);
        if !w.contains(t) {
            assert(g == w.push(t));
            assert(g.take(v.len() as int) =~= w.take(v.len() as int));
            assert forall|i: int, j: int| 0 <= i < j < g.len() implies g[i] != g[j] by {
                if j == w.len() {
                    assert(g[i] == w[i]);
                }
            }
            assert(g[w.len() as int] == t);
        }
        assert forall|j: int| 0 <= j < toks.len() implies g.contains(#[trigger] toks[j]) by {
            if j < init.len() {
                assert(init[j] == toks[j]);
                assert(w.contains(init[j]));
                let k = choose|k: int| 0 <= k < w.len() && w[k] == init[j];
                assert(g[k] == w[k]);
            } else if w.contains(t) {
                assert(toks[j] == t);
            } else {
                assert(g[w.len() as int] == t);
            }
        }
    }
}

/// Encoding only ever appends to the vocabulary: a token known before keeps its id,
/// so two inputs that share a token get the same code for it; new tokens get the next
/// ids in the order they are first met; no token is known twice; and every token met
/// is known afterwards.
pub proof fn law_vocabulary_growth(v: Seq<Seq<char>>, toks: Seq<Seq<char>>)
    requires
        no_dup(v),
    ensures
        grow(v, toks).len() >= v.len(),
        forall|i: int| 0 <= i < v.len() ==> #[trigger] grow(v, toks)[i] == v[i],
        no_dup(grow(v, toks)),
        forall|j: int| 0 <= j < toks.len() ==> grow(v, toks).contains(#[trigger] toks[j]),
{
    lemma_grow_facts(v, toks);
    assert forall|i: int| 0 <= i < v.len() implies #[trigger] grow(v, toks)[i] == v[i] by {
        assert(grow(v, toks).take(v.len() as int)[i] == grow(v, toks)[i]);
    }
}

/// Decoding the codes that encoding gave, against the vocabulary as encoding left it,
/// writes each token followed by one space.
pub proof fn law_round_trip(v: Seq<Seq<char>>, toks: Seq<Seq<char>>, codes: Seq<u32>)
    requires
        codes_name(grow(v, toks), codes, toks),
    ensures
        decoded(grow(v, toks), codes) == spaced_bytes(toks),
{
    let g = grow(v, toks);
    assert(codes.map_values(|c: u32| token_of(g, c)) =~= toks) by {
        assert forall|j: int| 0 <= j < codes.len() implies #[trigger] token_of(g, codes[j])
            == toks[j] by {
            assert((codes[j] as int) % (g.len() as int) == codes[j] as int) by {
                vstd::arithmetic::div_mod::lemma_small_mod(codes[j] as nat, g.len());
            }
        }
    }
}

/// Decoding what a successful `encode` returned, against the vocabulary it left,
/// writes the tokenizer's tokens, each followed by one space.
pub proof fn law_encode_decode(
    v0: Seq<Seq<char>>,
    v1: Seq<Seq<char>>,
    toks: Seq<Seq<char>>,
    unchanged: bool,
    input: EncodedInput,
)
    requires
        encode_post(v0, v1, Some(toks), unchanged, Ok(input)),
    ensures
        decoded(v1, input.codes_spec()) == spaced_bytes(toks),
{
    law_round_trip(v0, toks, input.codes_spec());
}

/// A token met by two successful encodings in a row gets the same code both times.
pub proof fn law_shared_token_same_code(
    v0: Seq<Seq<char>>,
    v1: Seq<Seq<char>>,
    v2: Seq<Seq<char>>,
    ta: Seq<Seq<char>>,
    tb: Seq<Seq<char>>,
    ua: bool,
    ub: bool,
    a: EncodedInput,
    b: EncodedInput,
    i: int,
    j: int,
)
    requires
        no_dup(v0),
        encode_post(v0, v1, Some(ta), ua, Ok(a)),
        encode_post(v1, v2, Some(tb), ub, Ok(b)),
        0 <= i < ta.len(),
        0 <= j < tb.len(),
        ta[i] == tb[j],
    ensures
        a.codes_spec()[i] == b.codes_spec()[j],
{
    law_vocabulary_growth(v0, ta);
    law_vocabulary_growth(v1, tb);
    let ca = a.codes_spec()[i];
    let cb = b.codes_spec()[j];
    assert(v1[ca as int] == ta[i]);
    assert(v2[ca as int] == v1[ca as int]);
    assert(v2[cb as int] == tb[j]);
    if ca != cb {
        if ca < cb {
            assert(v2[ca as int] != v2[cb as int]);
        } else {
            assert(v2[cb as int] != v2[ca as int]);
        }
    }
}

/// Splits bytes into tokens.
/// A type that states its tokens sets `tokens_known`; for one that does not, nothing
/// is promised of `tokenize`.
pub trait Tokenizer {
    /// Whether `tokens_spec` gives what `tokenize` returns.
    open spec fn tokens_known(&self) -> bool {
        false
    }

    /// The tokens of `bytes`, or `None` where tokenizing fails.
    open spec fn tokens_spec(&self, bytes: Seq<u8>) -> Option<Seq<Seq<char>>> {
        None
    }

    fn tokenize(&self, bytes: &[u8]) -> (r: Result<Vec<String>, Error>)
        ensures
            self.tokens_known() ==> match self.tokens_spec(bytes@) {
                Some(t) => r is Ok && strings_view(r.unwrap()@) == t,
                None => r is Err,
            },
    ;
}

/// What encoding does to the vocabulary `v0`, leaving `v1`, given the tokens `toks`
/// that the tokenizer gave (`None` where it failed), and whether the encoder was left
/// `unchanged`: a tokenizer failure is passed on and changes nothing; otherwise each
/// token gets its id, new tokens the next ones in the order they are first met,
/// unless the ids run out.
pub open spec fn encode_post(
    v0: Seq<Seq<char>>,
    v1: Seq<Seq<char>>,
    toks: Option<Seq<Seq<char>>>,
    unchanged: bool,
    r: Result<EncodedInput, Error>,
) -> bool {
    match toks {
        None => r is Err && unchanged,
        Some(t) => {
            &&& grow(v0, t).len() <= u32::MAX ==> r is Ok
            &&& r is Ok ==> v1 == grow(v0, t) && codes_name(v1, r.unwrap().codes_spec(), t)
            &&& r is Err ==> (r matches Err(Error::IllegalState(msg)) && msg@
                == "the vocabulary is full"@)
        },
    }
}

/// What decoding `codes` against the vocabulary `v` does to the bytes `b0`, leaving
/// `b1`: each code's token and a space are appended; with no token known, a code
/// cannot be read and an illegal-state error names the first one.
pub open spec fn decode_post(
    v: Seq<Seq<char>>,
    codes: Seq<u32>,
    b0: Seq<u8>,
    b1: Seq<u8>,
    r: Result<(), Error>,
) -> bool {
    &&& v.len() > 0 ==> r is Ok && b1 == b0 + decoded(v, codes)
    &&& v.len() == 0 && codes.len() > 0 ==> b1 == b0 && (r matches Err(Error::IllegalState(msg))
        && msg@ == "Id "@ + decimal_text(codes[0] as nat) + " not in the decoder table"@)
    &&& codes.len() == 0 ==> r is Ok && b1 == b0
}

} // verus!
