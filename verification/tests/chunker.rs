use yargs::iter::{ReadFailure, RegexChunker, Step, READ_BUFF_SIZE};

/// Drives a chunker over `reads`, one read each, then the end of the input.
fn run(pattern: &str, reads: &[&[u8]]) -> Vec<Vec<u8>> {
    let mut chunker = RegexChunker::new(pattern).unwrap();
    let mut items: Vec<Vec<u8>> = Vec::new();
    let mut reads = reads.iter();
    let mut step = chunker.next();
    loop {
        match step {
            Step::Item(item) => {
                items.push(item);
                step = chunker.next();
            }
            Step::NeedRead => {
                step = match reads.next() {
                    Some(data) => chunker.feed(data),
                    None => chunker.feed(&[]),
                };
            }
            Step::Failed(msg) => panic!("unexpected failure: {}", msg),
            Step::Finished => return items,
        }
    }
}

fn bytewise(input: &[u8]) -> Vec<&[u8]> {
    input.chunks(1).collect()
}

fn owned(items: &[&[u8]]) -> Vec<Vec<u8>> {
    items.iter().map(|i| i.to_vec()).collect()
}

#[test]
fn single_newline_is_one_empty_item() {
    assert_eq!(run("\n", &[b"\n"]), owned(&[b""]));
}

#[test]
fn empty_input_has_no_items() {
    assert_eq!(run("\n", &[]), Vec::<Vec<u8>>::new());
}

#[test]
fn delimiter_at_start_gives_empty_leading_item() {
    assert_eq!(run(",", &[b",a,b"]), owned(&[b"", b"a", b"b"]));
}

#[test]
fn delimiter_at_end_gives_no_trailing_item() {
    assert_eq!(run(",", &[b"a,b,"]), owned(&[b"a", b"b"]));
}

#[test]
fn input_without_delimiter_is_one_item() {
    assert_eq!(run(",", &[b"no commas here"]), owned(&[b"no commas here"]));
    assert_eq!(
        run(",", &[b"no ", b"commas", b" here"]),
        owned(&[b"no commas here"])
    );
}

#[test]
fn delimiter_across_two_reads_is_found() {
    assert_eq!(run("--", &[b"a-", b"-b"]), owned(&[b"a", b"b"]));
    assert_eq!(run("\r\n", &[b"one\r", b"\ntwo"]), owned(&[b"one", b"two"]));
}

#[test]
fn default_pattern_splits_both_line_endings() {
    assert_eq!(
        run("\\r?\\n", &[b"a\r\nb\nc"]),
        owned(&[b"a", b"b", b"c"])
    );
}

#[test]
fn several_items_in_one_read_come_out_without_reading() {
    let mut chunker = RegexChunker::new(",").unwrap();
    assert!(matches!(chunker.next(), Step::NeedRead));
    assert!(matches!(chunker.feed(b"a,b,c"), Step::Item(i) if i == b"a"));
    assert!(matches!(chunker.next(), Step::Item(i) if i == b"b"));
    assert!(matches!(chunker.next(), Step::NeedRead));
    assert!(matches!(chunker.feed(b""), Step::Item(i) if i == b"c"));
    assert!(matches!(chunker.next(), Step::Finished));
    assert!(matches!(chunker.feed(b"more"), Step::Finished));
}

#[test]
fn one_byte_reads_give_the_items_of_one_read() {
    let input: &[u8] = b"alpha\r\nbeta\ngamma\r\n\r\ndelta";
    let once = run("\\r?\\n", &[input]);
    let slowly = run("\\r?\\n", &bytewise(input));
    assert_eq!(once, slowly);
    assert_eq!(once, owned(&[b"alpha", b"beta", b"gamma", b"", b"delta"]));
}

#[test]
fn growing_delimiter_depends_on_the_reads() {
    let input: &[u8] = b"a\n\nb";
    assert_eq!(run("\n+", &[input]), owned(&[b"a", b"b"]));
    assert_eq!(run("\n+", &bytewise(input)), owned(&[b"a", b"", b"b"]));
}

#[test]
fn items_and_delimiters_make_up_the_input() {
    let input: &[u8] = b"k1=v1;k2=v2;;k3";
    let items = run(";", &[b"k1=v", b"1;k2=v2;", b";k3"]);
    assert_eq!(items, owned(&[b"k1=v1", b"k2=v2", b"", b"k3"]));
    let mut rebuilt: Vec<u8> = Vec::new();
    for (n, item) in items.iter().enumerate() {
        if n > 0 {
            rebuilt.push(b';');
        }
        rebuilt.extend_from_slice(item);
    }
    assert_eq!(rebuilt, input);
}

#[test]
fn empty_match_at_the_start_is_no_delimiter() {
    assert_eq!(run("x*", &[b"abc"]), owned(&[b"abc"]));
    assert_eq!(run("x*", &[b"abxxcd"]), owned(&[b"abxxcd"]));
    assert_eq!(run("$", &[b"abc"]), owned(&[b"abc"]));
}

#[test]
fn bytes_need_not_be_text() {
    assert_eq!(
        run("\n", &[&[0xff, 0xfe, b'\n', 0x80]]),
        owned(&[&[0xff, 0xfe], &[0x80]])
    );
}

#[test]
fn transient_failures_are_tried_again() {
    let mut chunker = RegexChunker::new(",").unwrap();
    assert!(matches!(chunker.feed(b"a"), Step::NeedRead));
    assert!(matches!(
        chunker.read_failed(ReadFailure::WouldBlock, "would block"),
        Step::NeedRead
    ));
    assert!(matches!(
        chunker.read_failed(ReadFailure::Interrupted, "interrupted"),
        Step::NeedRead
    ));
    assert!(matches!(chunker.feed(b"b,c"), Step::Item(i) if i == b"ab"));
    assert!(matches!(chunker.next(), Step::NeedRead));
    assert!(matches!(chunker.feed(&[]), Step::Item(i) if i == b"c"));
    assert!(matches!(chunker.next(), Step::Finished));
}

#[test]
fn read_error_is_reported_once() {
    let mut chunker = RegexChunker::new(",").unwrap();
    assert!(matches!(chunker.feed(b"a"), Step::NeedRead));
    match chunker.read_failed(ReadFailure::Other, "broken pipe") {
        Step::Failed(msg) => assert_eq!(msg, "error reading input: broken pipe"),
        other => panic!("expected a failure, got {:?}", other),
    }
    assert!(matches!(chunker.next(), Step::Finished));
    assert!(matches!(chunker.feed(b"b,c"), Step::Finished));
    assert!(matches!(chunker.feed(&[]), Step::Finished));
    assert!(matches!(
        chunker.read_failed(ReadFailure::Other, "again"),
        Step::Finished
    ));
}

#[test]
fn invalid_pattern_is_refused_at_once() {
    match RegexChunker::new("a(b") {
        Ok(_) => panic!("the pattern should not compile"),
        Err(msg) => {
            assert!(msg.starts_with("invalid regex pattern \"a(b\": "));
            assert!(msg.len() > "invalid regex pattern \"a(b\": ".len());
            assert!(msg.contains("unclosed group"));
        }
    }
}

#[test]
fn invalid_pattern_message_is_exact() {
    assert_eq!(
        yargs::iter::invalid_pattern_message("[", "unclosed character class"),
        "invalid regex pattern \"[\": unclosed character class"
    );
    assert_eq!(
        yargs::iter::read_error_message("timed out"),
        "error reading input: timed out"
    );
}

#[test]
fn read_buffer_is_one_kibibyte() {
    assert_eq!(READ_BUFF_SIZE, 1024);
}

#[test]
fn long_input_in_buffer_sized_reads() {
    let mut input: Vec<u8> = Vec::new();
    for n in 0..500 {
        input.extend_from_slice(format!("line number {}\n", n).as_bytes());
    }
    let reads: Vec<&[u8]> = input.chunks(READ_BUFF_SIZE).collect();
    let items = run("\n", &reads);
    assert_eq!(items.len(), 500);
    assert_eq!(items[0], b"line number 0");
    assert_eq!(items[499], b"line number 499");
    assert_eq!(items, run("\n", &[&input]));
}

#[test]
fn split_on_caps() {
    let text: &[u8] = b"hard cheesesCheddar is hard.Brie is not, Gouda is in between.\nEdam too";
    let mut buff = String::new();
    for chunk in run("[A-Z]", &text.chunks(7).collect::<Vec<&[u8]>>()) {
        buff.push_str(std::str::from_utf8(&chunk).unwrap());
        buff.push('\n');
    }
    assert_eq!(
        buff,
        "hard cheeses\nheddar is hard.\nrie is not, \nouda is in between.\n\ndam too\n"
    );
}

#[test]
fn anchored_delimiter_depends_on_the_reads() {
    assert_eq!(run("a$", &[b"ab"]), owned(&[b"ab"]));
    assert_eq!(run("a$", &[b"a", b"b"]), owned(&[b"", b"b"]));
}

#[test]
fn end_of_input_does_not_skip_a_pending_delimiter() {
    let mut chunker = RegexChunker::new(",").unwrap();
    assert!(matches!(chunker.feed(b"a,b,c"), Step::Item(i) if i == b"a"));
    assert!(matches!(chunker.feed(&[]), Step::Item(i) if i == b"b"));
    assert!(matches!(chunker.feed(&[]), Step::Item(i) if i == b"c"));
    assert!(matches!(chunker.feed(&[]), Step::Finished));
    assert!(matches!(chunker.next(), Step::Finished));
}

#[test]
fn reads_join_the_pending_buffer() {
    let mut chunker = RegexChunker::new("--").unwrap();
    assert!(matches!(chunker.feed(b"a--b-"), Step::Item(i) if i == b"a"));
    assert!(matches!(chunker.feed(b"-c"), Step::Item(i) if i == b"b"));
    assert!(matches!(chunker.next(), Step::NeedRead));
    assert!(matches!(chunker.feed(&[]), Step::Item(i) if i == b"c"));
}

#[test]
fn well_formed_patterns_give_a_chunker() {
    for pattern in ["", "\n", "\\r?\\n", "[A-Z]", "a|b", "(?i)x+", "\\x00", "(?-u:\\xff)"] {
        assert!(RegexChunker::new(pattern).is_ok(), "{:?}", pattern);
    }
    for pattern in ["(", "[", "a{2", "\\", "(?P<n>", "*"] {
        assert!(RegexChunker::new(pattern).is_err(), "{:?}", pattern);
    }
}

#[test]
fn same_pattern_same_answer() {
    let first = RegexChunker::new("a(b").err();
    let second = RegexChunker::new("a(b").err();
    assert!(first.is_some());
    assert_eq!(first, second);
}
