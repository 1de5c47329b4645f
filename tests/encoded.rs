use libafl_core::encoded::{name_of_hash, EncodedInput, InputDecoder, InputEncoder, TokenInputEncoderDecoder};
use libafl_core::error::Error;
use libafl_core::tokenizer::NaiveTokenizer;

fn setup_encoder_decoder() -> (TokenInputEncoderDecoder, EncodedInput) {
    let mut t = NaiveTokenizer::for_c_like().unwrap();
    let mut ed = TokenInputEncoderDecoder::new();
    let input = ed
        .encode("/* test */a = 'pippo baudo'; b=c+a\n".as_bytes(), &mut t)
        .unwrap();
    (ed, input)
}

#[test]
fn test_input() {
    let (ed, input) = setup_encoder_decoder();
    let mut bytes = vec![];
    ed.decode(&input, &mut bytes).unwrap();
    assert_eq!(
        std::str::from_utf8(&bytes).unwrap(),
        "a = 'pippo baudo' ; b = c + a ".to_owned()
    );
}

#[test]
fn encode_assigns_ids_in_first_seen_order() {
    let (ed, input) = setup_encoder_decoder();
    // a, =, 'pippo baudo', ;, b, c, + : seven distinct tokens
    assert_eq!(input.codes(), &[0, 1, 2, 3, 4, 1, 5, 6, 0]);
    assert_eq!(ed.next_id(), 7);
}

#[test]
fn shared_tokens_keep_their_ids() {
    let mut t = NaiveTokenizer::for_c_like().unwrap();
    let mut ed = TokenInputEncoderDecoder::new();
    let first = ed.encode(b"x = y", &mut t).unwrap();
    let before = ed.next_id();
    let second = ed.encode(b"y = z", &mut t).unwrap();
    assert_eq!(first.codes(), &[0, 1, 2]);
    assert_eq!(second.codes(), &[2, 1, 3]);
    assert!(ed.next_id() >= before);
    assert_eq!(ed.next_id(), 4);
}

#[test]
fn decode_on_empty_vocabulary_fails() {
    let ed = TokenInputEncoderDecoder::new();
    let input = EncodedInput::new(vec![3]);
    let mut bytes = vec![];
    match ed.decode(&input, &mut bytes) {
        Err(Error::IllegalState(msg)) => assert_eq!(msg, "Id 3 not in the decoder table"),
        other => panic!("unexpected {other:?}"),
    }
    assert!(bytes.is_empty());
    let empty = EncodedInput::new(vec![]);
    assert!(ed.decode(&empty, &mut bytes).is_ok());
}

#[test]
fn decode_wraps_codes_modulo_vocabulary() {
    let mut t = NaiveTokenizer::for_c_like().unwrap();
    let mut ed = TokenInputEncoderDecoder::new();
    ed.encode(b"p q", &mut t).unwrap();
    let input = EncodedInput::new(vec![2, 3, 5]);
    let mut bytes = vec![];
    ed.decode(&input, &mut bytes).unwrap();
    assert_eq!(bytes, b"p q q ".to_vec());
}

#[test]
fn decode_changes_after_vocabulary_growth() {
    let mut t = NaiveTokenizer::for_c_like().unwrap();
    let mut ed = TokenInputEncoderDecoder::new();
    let a = ed.encode(b"one two three", &mut t).unwrap();
    let mut first = vec![];
    ed.decode(&a, &mut first).unwrap();
    assert_eq!(first, b"one two three ".to_vec());
    // codes beyond the vocabulary wrap around the current size
    let shifted = EncodedInput::new(vec![3, 4]);
    let mut before = vec![];
    ed.decode(&shifted, &mut before).unwrap();
    assert_eq!(before, b"one two ".to_vec());
    ed.encode(b"four five", &mut t).unwrap();
    let mut after = vec![];
    ed.decode(&shifted, &mut after).unwrap();
    assert_eq!(after, b"four five ".to_vec());
    assert_ne!(before, after);
    let mut again = vec![];
    ed.decode(&a, &mut again).unwrap();
    assert_eq!(again, first);
}

#[test]
fn tokenizer_refuses_invalid_utf8() {
    let t = NaiveTokenizer::for_c_like().unwrap();
    match t.tokens(&[0x61, 0xff, 0x62]) {
        Err(Error::IllegalArgument(msg)) => assert_eq!(msg, "Invalid UTF-8"),
        other => panic!("unexpected {other:?}"),
    }
}

#[test]
fn tokenizer_splits_around_identifiers() {
    let t = NaiveTokenizer::for_c_like().unwrap();
    let toks = t.tokens(b"\"s t\" f(x1,y) // note").unwrap();
    assert_eq!(toks, vec!["\"s t\"", "f", "(", "x1", ",", "y", ")"]);
}

#[test]
fn to_target_bytes_decodes() {
    let (mut ed, input) = setup_encoder_decoder();
    let bytes = ed.to_target_bytes(&input).unwrap();
    assert!(!bytes.is_empty());
    assert_eq!(bytes, b"a = 'pippo baudo' ; b = c + a ".to_vec());
}

#[test]
fn encoded_input_accessors() {
    let mut input = EncodedInput::new(vec![1, 2]);
    input.codes_mut().push(7);
    assert_eq!(input.codes(), &[1, 2, 7]);
    assert_eq!(input.len(), 3);
}

#[test]
fn names_are_sixteen_hex_digits() {
    assert_eq!(name_of_hash(0xab), "00000000000000ab");
    assert_eq!(name_of_hash(u64::MAX), "ffffffffffffffff");
    let input = EncodedInput::new(vec![1, 2, 3]);
    let name = input.generate_name(None);
    assert_eq!(name.len(), 16);
    assert!(name.chars().all(|c| c.is_ascii_hexdigit() && !c.is_ascii_uppercase()));
    assert_eq!(name, EncodedInput::new(vec![1, 2, 3]).generate_name(None));
    assert_ne!(name, EncodedInput::new(vec![3, 2, 1]).generate_name(None));
}

#[test]
fn default_encoder_knows_no_token() {
    let ed = TokenInputEncoderDecoder::default();
    assert_eq!(ed.next_id(), 0);
}

#[test]
fn tokenizer_failure_leaves_vocabulary_alone() {
    let mut t = NaiveTokenizer::for_c_like().unwrap();
    let mut ed = TokenInputEncoderDecoder::new();
    ed.encode(b"a b", &mut t).unwrap();
    assert!(matches!(ed.encode(&[0xff, 0x20], &mut t), Err(Error::IllegalArgument(_))));
    assert_eq!(ed.next_id(), 2);
}

#[test]
fn encoder_traits_and_conversion() {
    let mut t = NaiveTokenizer::for_c_like().unwrap();
    let mut ed = TokenInputEncoderDecoder::new();
    let input = InputEncoder::encode(&mut ed, b"x+y", &mut t).unwrap();
    assert_eq!(input, EncodedInput::from(vec![0, 1, 2]));
    let mut bytes = vec![];
    InputDecoder::decode(&ed, &input, &mut bytes).unwrap();
    assert_eq!(bytes, b"x + y ".to_vec());
    assert!(NaiveTokenizer::new("(", "a", "b").is_none());
}

#[test]
fn encoded_inputs_compare_by_codes() {
    assert_eq!(EncodedInput::new(vec![4, 5]), EncodedInput::from(vec![4, 5]));
    assert_ne!(EncodedInput::new(vec![4, 5]), EncodedInput::new(vec![4]));
    assert_ne!(EncodedInput::new(vec![4, 5]), EncodedInput::new(vec![5, 4]));
}
