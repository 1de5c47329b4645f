use vstd::prelude::*;
use vstd::string::*;
use vstd::utf8::{
    decode_utf8, encode_utf8, encode_utf8_decode_utf8, encode_utf8_valid_utf8, is_char_boundary, is_char_boundary_iff_not_is_continuation_byte,
    is_char_boundary_start_end_of_seq, valid_utf8, valid_utf8_split,
};

use crate::encoded::Tokenizer;
use crate::error::Error;
use crate::text::strings_view;

verus! {

/// Whether `regex::Regex::new` accepts `pattern`.
pub uninterp spec fn regex_compiles(pattern: Seq<char>) -> bool;

/// The matches that the regex of `pattern` finds in `hay`, as byte ranges.
pub uninterp spec fn regex_spans(pattern: Seq<char>, hay: Seq<char>) -> Seq<(usize, usize)>;

/// The pieces of `s` between runs of whitespace.
pub uninterp spec fn whitespace_split(s: Seq<char>) -> Seq<Seq<char>>;

/// `spans` are successive non-overlapping ranges of `b`, each starting and ending on
/// a character boundary.
pub open spec fn spans_ok(spans: Seq<(usize, usize)>, b: Seq<u8>) -> bool {
    &&& forall|i: int|
        0 <= i < spans.len() ==> (#[trigger] spans[i]).0 <= spans[i].1 <= b.len()
            && is_char_boundary(b, spans[i].0 as int) && is_char_boundary(b, spans[i].1 as int)
    &&& forall|i: int| 0 <= i < spans.len() - 1 ==> (#[trigger] spans[i]).1 <= spans[i + 1].0
}

/// Relies on `regex::Regex::new`, which fails exactly on a pattern that does not
/// compile, and on `regex::Regex::find_iter` over the regex it builds: the successive non-overlapping matches in the haystack, each from
/// `start` to `end` with `start <= end`, both on character boundaries.
#[verifier::external_body]
fn find_spans(pattern: &str, hay: &str) -> (r: Option<Vec<(usize, usize)>>)
    ensures
        r is Some <==> regex_compiles(pattern@),
        r is Some ==> r.unwrap()@ == regex_spans(pattern@, hay@),
        r is Some ==> spans_ok(r.unwrap()@, hay.spec_bytes()),
{
    regex::Regex::new(pattern).ok().map(|re| re.find_iter(hay).map(|m| (m.start(), m.end())).collect())
}

/// Relies on `str::split_whitespace`: the pieces of the text between runs of
/// whitespace, none of them empty.
#[verifier::external_body]
fn whitespace_chunks(s: &str) -> (r: Vec<String>)
    ensures
        strings_view(r@) == whitespace_split(s@),
        forall|i: int| 0 <= i < r@.len() ==> (#[trigger] r@[i])@.len() > 0,
{
    s.split_whitespace().map(String::from).collect()
}

/// Relies on `core::str::from_utf8`: the text that the bytes encode, where they are
/// valid UTF-8.
#[verifier::external_body]
fn utf8_str(bytes: &[u8]) -> (r: Option<&str>)
    ensures
        r is Some <==> valid_utf8(bytes@),
        r is Some ==> r.unwrap().spec_bytes() == bytes@,
{
    core::str::from_utf8(bytes).ok()
}

/// The bytes of each of `v`.
pub open spec fn bytes_of(v: Seq<String>) -> Seq<Seq<u8>> {
    v.map_values(|t: String| encode_utf8(t@))
}

/// The pieces of `b` from `prev` on around `spans`: the gap before each span where
/// it is not empty, the span itself, and what is left after the last one.
pub open spec fn split_around(b: Seq<u8>, spans: Seq<(usize, usize)>, prev: int) -> Seq<Seq<u8>>
    decreases spans.len(),
{
    if spans.len() == 0 {
        if prev < b.len() {
            seq![b.subrange(prev, b.len() as int)]
        } else {
            Seq::empty()
        }
    } else {
        let s = spans[0].0 as int;
        let e = spans[0].1 as int;
        (if s > prev {
            seq![b.subrange(prev, s)]
        } else {
            Seq::empty()
        }) + seq![b.subrange(s, e)] + split_around(b, spans.drop_first(), e)
    }
}

/// `b` from `prev` on with the ranges `spans` cut out.
pub open spec fn cut_out(b: Seq<u8>, spans: Seq<(usize, usize)>, prev: int) -> Seq<u8>
    decreases spans.len(),
{
    if spans.len() == 0 {
        b.subrange(prev, b.len() as int)
    } else {
        b.subrange(prev, spans[0].0 as int) + cut_out(b, spans.drop_first(), spans[0].1 as int)
    }
}

proof fn lemma_boundary_prefix(b: Seq<u8>, a: int, e: int)
    requires
        valid_utf8(b),
        0 <= a <= e <= b.len(),
        is_char_boundary(b, a),
        is_char_boundary(b, e),
    ensures
        valid_utf8(b.subrange(0, e)),
        is_char_boundary(b.subrange(0, e), a),
{
    valid_utf8_split(b, e);
    let p = b.subrange(0, e);
    if a == e {
        is_char_boundary_start_end_of_seq(p);
    } else if a > 0 {
        is_char_boundary_iff_not_is_continuation_byte(b, a);
        is_char_boundary_iff_not_is_continuation_byte(p, a);
    }
}

proof fn lemma_encode_append(a: Seq<char>, c: Seq<char>)
    ensures
        encode_utf8(a + c) == encode_utf8(a) + encode_utf8(c),
    decreases a.len(),
{
    if a.len() > 0 {
        assert((a + c).drop_first() =~= a.drop_first() + c);
        assert((a + c)[0] == a[0]);
        lemma_encode_append(a.drop_first(), c);
    } else {
        assert(a + c =~= c);
    }
}

/// The text of `s` between the byte offsets `a` and `e`.
fn slice(s: &str, a: usize, e: usize) -> (r: &str)
    requires
        a <= e <= s.spec_bytes().len(),
        is_char_boundary(s.spec_bytes(), a as int),
        is_char_boundary(s.spec_bytes(), e as int),
    ensures
        r.spec_bytes() == s.spec_bytes().subrange(a as int, e as int),
{
    proof {
        encode_utf8_valid_utf8(s@);
        lemma_boundary_prefix(s.spec_bytes(), a as int, e as int);
    }
    let (left, _) = s.split_at(e);
    let (_, mid) = left.split_at(a);
    proof {
        assert(mid.spec_bytes() =~= s.spec_bytes().subrange(a as int, e as int));
    }
    mid
}

/// Splits `chunk` around `spans`: the text before each span where there is any, the
/// span, and the text after the last one.
pub fn split_around_spans(chunk: &str, spans: &Vec<(usize, usize)>) -> (r: Vec<String>)
    requires
        spans_ok(spans@, chunk.spec_bytes()),
    ensures
        bytes_of(r@) == split_around(chunk.spec_bytes(), spans@, 0),
{
    let ghost b = chunk.spec_bytes();
    let n = chunk.as_bytes().len();
    let mut out: Vec<String> = Vec::new();
    let mut prev: usize = 0;
    let mut i: usize = 0;
    proof {
        encode_utf8_valid_utf8(chunk@);
        is_char_boundary_start_end_of_seq(b);
        assert(spans@.skip(0) =~= spans@);
        assert(bytes_of(out@) + split_around(b, spans@.skip(0), 0) =~= split_around(b, spans@, 0));
    }
    while i < spans.len()
        invariant
            b == chunk.spec_bytes(),
            n == b.len(),
            valid_utf8(b),
            spans_ok(spans@, b),
            i <= spans@.len(),
            prev <= n,
            is_char_boundary(b, prev as int),
            i > 0 ==> prev == spans@[i - 1].1,
            bytes_of(out@) + split_around(b, spans@.skip(i as int), prev as int) == split_around(
                b,
                spans@,
                0,
            ),
        decreases spans@.len() - i,
    {
        let (s, e) = spans[i];
        let ghost before = out@;
        let ghost rest = spans@.skip(i as int);
        proof {
            assert(rest[0] == spans@[i as int]);
            assert(rest.drop_first() =~= spans@.skip(i + 1));
            if i > 0 {
                assert(spans@[i - 1].1 <= spans@[i as int].0);
            }
        }
        if s > prev {
            let gap = slice(chunk, prev, s).to_owned();
            out.push(gap);
        }
        let m = slice(chunk, s, e).to_owned();
        out.push(m);
        proof {
            let piece: Seq<Seq<u8>> = if s > prev {
                seq![b.subrange(prev as int, s as int)]
            } else {
                Seq::empty()
            };
            assert(bytes_of(out@) =~= bytes_of(before) + piece + seq![b.subrange(s as int, e as int)]);
        }
        prev = e;
        i += 1;
    }
    proof {
        assert(spans@.skip(i as int) =~= Seq::<(usize, usize)>::empty());
    }
    if prev < n {
        let ghost before = out@;
        let tail = slice(chunk, prev, n).to_owned();
        out.push(tail);
        proof {
            assert(bytes_of(out@) =~= bytes_of(before) + seq![b.subrange(prev as int, n as int)]);
        }
    } else {
        proof {
            assert(bytes_of(out@) + Seq::<Seq<u8>>::empty() =~= bytes_of(out@));
        }
    }
    out
}

/// `text` with the ranges `spans` taken out.
pub fn cut_spans(text: &str, spans: &Vec<(usize, usize)>) -> (r: String)
    requires
        spans_ok(spans@, text.spec_bytes()),
    ensures
        encode_utf8(r@) == cut_out(text.spec_bytes(), spans@, 0),
{
    let ghost b = text.spec_bytes();
    let n = text.as_bytes().len();
    let mut out = String::new();
    let mut prev: usize = 0;
    let mut i: usize = 0;
    proof {
        encode_utf8_valid_utf8(text@);
        is_char_boundary_start_end_of_seq(b);
        assert(spans@.skip(0) =~= spans@);
        assert(encode_utf8(out@) =~= Seq::<u8>::empty());
    }
    while i < spans.len()
        invariant
            b == text.spec_bytes(),
            n == b.len(),
            valid_utf8(b),
            spans_ok(spans@, b),
            i <= spans@.len(),
            prev <= n,
            is_char_boundary(b, prev as int),
            i > 0 ==> prev == spans@[i - 1].1,
            i == 0 ==> prev == 0,
            encode_utf8(out@) + cut_out(b, spans@.skip(i as int), prev as int) == cut_out(
                b,
                spans@,
                0,
            ),
        decreases spans@.len() - i,
    {
        let (s, e) = spans[i];
        let ghost before = out@;
        let ghost rest = spans@.skip(i as int);
        proof {
            assert(rest[0] == spans@[i as int]);
            assert(rest.drop_first() =~= spans@.skip(i + 1));
            if i > 0 {
                assert(spans@[i - 1].1 <= spans@[i as int].0);
            }
        }
        proof {
            assert(spans@[i as int].0 <= spans@[i as int].1 <= n);
            assert(prev <= s);
        }
        let gap = slice(text, prev, s);
        out.append(gap);
        proof {
            lemma_encode_append(before, gap@);
            assert(encode_utf8(out@) + cut_out(b, spans@.skip(i + 1), e as int) =~= cut_out(
                b,
                spans@,
                0,
            ));
        }
        prev = e;
        i += 1;
    }
    let ghost before = out@;
    let tail = slice(text, prev, n);
    out.append(tail);
    proof {
        lemma_encode_append(before, tail@);
        assert(spans@.skip(i as int) =~= Seq::<(usize, usize)>::empty());
    }
    out
}

/// The pieces of the chunk `c` around the identifiers that `ident` finds in it.
pub open spec fn chunk_pieces(ident: Seq<char>, c: Seq<char>) -> Seq<Seq<u8>> {
    split_around(encode_utf8(c), regex_spans(ident, c), 0)
}

/// The pieces of each of the chunks `cs`, one chunk after another.
pub open spec fn chunks_pieces(ident: Seq<char>, cs: Seq<Seq<char>>) -> Seq<Seq<u8>>
    decreases cs.len(),
{
    if cs.len() == 0 {
        Seq::empty()
    } else {
        chunks_pieces(ident, cs.drop_last()) + chunk_pieces(ident, cs.last())
    }
}

/// The tokens of a stretch `r` of text outside string literals: its
/// whitespace-separated chunks, each split around its identifiers.
pub open spec fn region_pieces(ident: Seq<char>, r: Seq<char>) -> Seq<Seq<u8>> {
    chunks_pieces(ident, whitespace_split(r))
}

/// The tokens of `text` from the byte offset `prev` on, around the string literals
/// `spans`: each literal whole, and the text between them as [`region_pieces`].
pub open spec fn literal_split(
    ident: Seq<char>,
    text: Seq<char>,
    spans: Seq<(usize, usize)>,
    prev: int,
) -> Seq<Seq<u8>>
    decreases spans.len(),
{
    let b = encode_utf8(text);
    if spans.len() == 0 {
        if prev < b.len() {
            region_pieces(ident, decode_utf8(b.subrange(prev, b.len() as int)))
        } else {
            Seq::empty()
        }
    } else {
        let s = spans[0].0 as int;
        let e = spans[0].1 as int;
        (if s > prev {
            region_pieces(ident, decode_utf8(b.subrange(prev, s)))
        } else {
            Seq::empty()
        }) + seq![b.subrange(s, e)] + literal_split(ident, text, spans.drop_first(), e)
    }
}

/// The tokens of `text`, as bytes: the comments that `comment` finds are removed,
/// then each string literal that `string` finds is a token of its own, and the rest
/// is split at whitespace and around what `ident` finds.
pub open spec fn naive_tokens(
    ident: Seq<char>,
    comment: Seq<char>,
    string: Seq<char>,
    text: Seq<char>,
) -> Seq<Seq<u8>> {
    let cleaned = decode_utf8(cut_out(encode_utf8(text), regex_spans(comment, text), 0));
    literal_split(ident, cleaned, regex_spans(string, cleaned), 0)
}

proof fn lemma_bytes_of_append(a: Seq<String>, b: Seq<String>)
    ensures
        bytes_of(a + b) == bytes_of(a) + bytes_of(b),
{
    assert(bytes_of(a + b) =~= bytes_of(a) + bytes_of(b));
}

/// The text that a `&str` holds is what its bytes decode to.
proof fn lemma_str_decodes(s: &str)
    ensures
        s@ == decode_utf8(s.spec_bytes()),
{
    encode_utf8_decode_utf8(s@);
}

/// Splits source-like text into tokens: comments are dropped, string literals kept
/// whole, and the rest split at whitespace and around identifiers. Holds its three
/// patterns, each one that compiles.
#[derive(Debug)]
pub struct NaiveTokenizer {
    ident_re: String,
    comment_re: String,
    string_re: String,
}

impl NaiveTokenizer {
    #[verifier::type_invariant]
    spec fn inv(&self) -> bool {
        &&& regex_compiles(self.ident_re@)
        &&& regex_compiles(self.comment_re@)
        &&& regex_compiles(self.string_re@)
    }

    /// The identifier pattern.
    pub closed spec fn ident_spec(&self) -> Seq<char> {
        self.ident_re@
    }

    /// The comment pattern.
    pub closed spec fn comment_spec(&self) -> Seq<char> {
        self.comment_re@
    }

    /// The string-literal pattern.
    pub closed spec fn string_spec(&self) -> Seq<char> {
        self.string_re@
    }

    /// A tokenizer with the given identifier, comment and string patterns; `None`
    /// where one of them is not a valid pattern.
    pub fn new(ident_re: &str, comment_re: &str, string_re: &str) -> (r: Option<NaiveTokenizer>)
        ensures
            r is Some <==> (regex_compiles(ident_re@) && regex_compiles(comment_re@)
                && regex_compiles(string_re@)),
            r is Some ==> r.unwrap().ident_spec() == ident_re@ && r.unwrap().comment_spec()
                == comment_re@ && r.unwrap().string_spec() == string_re@,
    {
        if find_spans(ident_re, "").is_some() && find_spans(comment_re, "").is_some()
            && find_spans(string_re, "").is_some() {
            Some(
                NaiveTokenizer {
                    ident_re: ident_re.to_owned(),
                    comment_re: comment_re.to_owned(),
                    string_re: string_re.to_owned(),
                },
            )
        } else {
            None
        }
    }

    /// A tokenizer for C-like text: identifiers of letters, digits, `_` and `$`;
    /// `/* */` and `//` comments; strings in double or single quotes.
    pub fn for_c_like() -> Option<NaiveTokenizer> {
        Self::new(
            "[A-Za-z0-9_$]+",
            "(/\\*[^*]*\\*/)|(//[^*]*)",
            "\"(\\\\|\\\\\"|[^\"])*\"|'(\\\\|\\\\'|[^'])*'",
        )
    }

    /// Appends the tokens of `region`: its whitespace-separated chunks, each split
    /// around the identifiers in it.
    fn region_tokens(&self, region: &str, out: &mut Vec<String>)
        ensures
            bytes_of(final(out)@) == bytes_of(old(out)@) + region_pieces(
                self.ident_spec(),
                region@,
            ),
    {
        proof {
            use_type_invariant(self);
        }
        let chunks = whitespace_chunks(region);
        let ghost cs = strings_view(chunks@);
        let ghost start = out@;
        let mut i: usize = 0;
        proof {
            assert(cs.take(0) =~= Seq::<Seq<char>>::empty());
            assert(bytes_of(out@) =~= bytes_of(start) + chunks_pieces(
                self.ident_spec(),
                cs.take(0),
            ));
        }
        while i < chunks.len()
            invariant
                i <= chunks@.len(),
                cs == strings_view(chunks@),
                cs == whitespace_split(region@),
                start == old(out)@,
                regex_compiles(self.ident_re@),
                bytes_of(out@) == bytes_of(start) + chunks_pieces(
                    self.ident_spec(),
                    cs.take(i as int),
                ),
            decreases chunks@.len() - i,
        {
            let chunk = chunks[i].as_str();
            let spans = match find_spans(self.ident_re.as_str(), chunk) {
                Some(sp) => sp,
                None => {
                    proof {
                        assert(false);
                    }
                    Vec::new()
                },
            };
            let mut toks = split_around_spans(chunk, &spans);
            let ghost before = out@;
            let ghost added = toks@;
            out.append(&mut toks);
            proof {
                lemma_bytes_of_append(before, added);
                assert(cs.take(i + 1).drop_last() =~= cs.take(i as int));
                assert(cs.take(i + 1).last() == chunk@);
                assert(bytes_of(out@) =~= bytes_of(start) + chunks_pieces(
                    self.ident_spec(),
                    cs.take(i + 1),
                ));
            }
            i += 1;
        }
        proof {
            assert(cs.take(chunks@.len() as int) =~= cs);
        }
    }

    /// The tokens of `bytes`, which must be valid UTF-8; [`naive_tokens`] gives the
    /// bytes of each.
    pub fn tokens(&self, bytes: &[u8]) -> (r: Result<Vec<String>, Error>)
        ensures
            r is Ok <==> valid_utf8(bytes@),
            r is Ok ==> bytes_of(r.unwrap()@) == naive_tokens(
                self.ident_spec(),
                self.comment_spec(),
                self.string_spec(),
                decode_utf8(bytes@),
            ),
            r is Err ==> (r matches Err(Error::IllegalArgument(msg)) && msg@ == "Invalid UTF-8"@),
    {
        proof {
            use_type_invariant(self);
        }
        let raw = match utf8_str(bytes) {
            Some(s) => s,
            None => {
                return Err(Error::illegal_argument(String::from_str("Invalid UTF-8")));
            },
        };
        proof {
            lemma_str_decodes(raw);
        }
        let comments = match find_spans(self.comment_re.as_str(), raw) {
            Some(sp) => sp,
            None => {
                proof {
                    assert(false);
                }
                Vec::new()
            },
        };
        let cleaned = cut_spans(raw, &comments);
        let text = cleaned.as_str();
        proof {
            lemma_str_decodes(text);
        }
        let strings = match find_spans(self.string_re.as_str(), text) {
            Some(sp) => sp,
            None => {
                proof {
                    assert(false);
                }
                Vec::new()
            },
        };
        let ghost b = text.spec_bytes();
        let ghost ident = self.ident_spec();
        let n = text.as_bytes().len();
        let mut tokens: Vec<String> = Vec::new();
        let mut prev: usize = 0;
        let mut i: usize = 0;
        proof {
            encode_utf8_valid_utf8(text@);
            is_char_boundary_start_end_of_seq(b);
            assert(strings@.skip(0) =~= strings@);
            assert(bytes_of(tokens@) + literal_split(ident, text@, strings@.skip(0), 0)
                =~= literal_split(ident, text@, strings@, 0));
        }
        while i < strings.len()
            invariant
                b == text.spec_bytes(),
                b == encode_utf8(text@),
                ident == self.ident_spec(),
                n == b.len(),
                spans_ok(strings@, b),
                i <= strings@.len(),
                prev <= n,
                is_char_boundary(b, prev as int),
                i > 0 ==> prev == strings@[i - 1].1,
                bytes_of(tokens@) + literal_split(ident, text@, strings@.skip(i as int), prev as int)
                    == literal_split(ident, text@, strings@, 0),
            decreases strings@.len() - i,
        {
            let (s, e) = strings[i];
            let ghost rest = strings@.skip(i as int);
            let ghost before = tokens@;
            proof {
                assert(rest[0] == strings@[i as int]);
                assert(rest.drop_first() =~= strings@.skip(i + 1));
                if i > 0 {
                    assert(strings@[i - 1].1 <= strings@[i as int].0);
                }
                assert(strings@[i as int].0 <= strings@[i as int].1);
            }
            let ghost gap: Seq<Seq<u8>> = if s > prev {
                region_pieces(ident, decode_utf8(b.subrange(prev as int, s as int)))
            } else {
                Seq::empty()
            };
            if s > prev {
                let region = slice(text, prev, s);
                proof {
                    lemma_str_decodes(region);
                }
                self.region_tokens(region, &mut tokens);
            }
            let lit = slice(text, s, e).to_owned();
            tokens.push(lit);
            proof {
                assert(bytes_of(tokens@) =~= bytes_of(before) + gap + seq![
                    b.subrange(s as int, e as int),
                ]);
            }
            prev = e;
            i += 1;
        }
        proof {
            assert(strings@.skip(i as int) =~= Seq::<(usize, usize)>::empty());
        }
        if prev < n {
            let region = slice(text, prev, n);
            proof {
                lemma_str_decodes(region);
            }
            self.region_tokens(region, &mut tokens);
        } else {
            proof {
                assert(bytes_of(tokens@) + Seq::<Seq<u8>>::empty() =~= bytes_of(tokens@));
            }
        }
        Ok(tokens)
    }
}

/// The tokens of `bytes` for `t`, as text; `None` where the bytes are not UTF-8.
pub open spec fn naive_token_texts(t: &NaiveTokenizer, bytes: Seq<u8>) -> Option<Seq<Seq<char>>> {
    if valid_utf8(bytes) {
        Some(
            naive_tokens(t.ident_spec(), t.comment_spec(), t.string_spec(), decode_utf8(bytes)).map_values(
                |b: Seq<u8>| decode_utf8(b),
            ),
        )
    } else {
        None
    }
}

impl Tokenizer for NaiveTokenizer {
    open spec fn tokens_known(&self) -> bool {
        true
    }

    open spec fn tokens_spec(&self, bytes: Seq<u8>) -> Option<Seq<Seq<char>>> {
        naive_token_texts(self, bytes)
    }

    fn tokenize(&self, bytes: &[u8]) -> (r: Result<Vec<String>, Error>) {
        let r = self.tokens(bytes);
        proof {
            if r is Ok {
                let v = r.unwrap()@;
                let want = naive_tokens(
                    self.ident_spec(),
                    self.comment_spec(),
                    self.string_spec(),
                    decode_utf8(bytes@),
                ).map_values(|b: Seq<u8>| decode_utf8(b));
                assert forall|i: int| 0 <= i < v.len() implies #[trigger] strings_view(v)[i]
                    == want[i] by {
                    encode_utf8_decode_utf8(v[i]@);
                    assert(bytes_of(v)[i] == encode_utf8(v[i]@));
                }
                assert(strings_view(v) =~= want);
            }
        }
        r
    }
}

} // verus!
