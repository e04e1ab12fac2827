use basic_fuzzer::artifact::{args_file_name, decode_args, encode_args, input_file_name};
use basic_fuzzer::command::Command;

#[test]
fn encoding_no_arguments_is_empty() {
    assert!(encode_args(&vec![]).is_empty());
    assert_eq!(decode_args(&vec![]), Some(vec![]));
}

#[test]
fn one_record_is_length_prefix_then_bytes() {
    let encoded = encode_args(&vec![b"ab".to_vec()]);
    assert_eq!(encoded, vec![2, 0, 0, 0, 0, 0, 0, 0, b'a', b'b']);
}

#[test]
fn round_trip_keeps_every_argument() {
    let args = vec![
        b"first".to_vec(),
        vec![],
        vec![0xff, 0x00, 0xfe],
        b"x".to_vec(),
    ];
    let encoded = encode_args(&args);
    assert_eq!(decode_args(&encoded), Some(args));
}

#[test]
fn round_trip_keeps_an_empty_argument_alone() {
    let args = vec![vec![]];
    let encoded = encode_args(&args);
    assert_eq!(encoded, vec![0; 8]);
    assert_eq!(decode_args(&encoded), Some(args));
}

#[test]
fn decoding_a_truncated_prefix_fails() {
    assert_eq!(decode_args(&vec![1, 0, 0]), None);
}

#[test]
fn decoding_a_truncated_record_fails() {
    let mut encoded = encode_args(&vec![b"abc".to_vec()]);
    encoded.pop();
    assert_eq!(decode_args(&encoded), None);
}

#[test]
fn artifact_file_names_carry_the_suffix() {
    assert_eq!(input_file_name("0123456789ab"), "input-0123456789ab");
    assert_eq!(args_file_name("0123456789ab"), "args-0123456789ab");
}

#[test]
fn failing_invocation_argument_vector_round_trips() {
    let command = Command::new(b"target".to_vec())
        .with_args(vec![b"--fixed".to_vec(), b"lead".to_vec()])
        .with_string_args(&vec!["gen one".to_string(), "".to_string(), "g2".to_string()]);
    let encoded = encode_args(&command.args);
    let decoded = decode_args(&encoded).unwrap();
    assert_eq!(decoded, command.args);
    assert_eq!(
        decoded,
        vec![
            b"--fixed".to_vec(),
            b"lead".to_vec(),
            b"gen one".to_vec(),
            vec![],
            b"g2".to_vec(),
        ]
    );
}

#[test]
fn command_builder_keeps_order_and_program() {
    let c = Command::new(b"p".to_vec());
    assert_eq!(c.program, b"p".to_vec());
    assert!(c.args.is_empty());
    let c = c.with_args(vec![b"a".to_vec()]).with_args(vec![b"b".to_vec(), b"c".to_vec()]);
    assert_eq!(c.args, vec![b"a".to_vec(), b"b".to_vec(), b"c".to_vec()]);
}

#[test]
fn string_arguments_enter_as_utf8_bytes() {
    let c = Command::new(b"p".to_vec()).with_string_args(&vec!["héllo".to_string()]);
    assert_eq!(c.args, vec!["héllo".as_bytes().to_vec()]);
}
