use minimux::scrollback::{Scrollback, DEFAULT_RAW_CAPACITY};

#[test]
fn new_buffer_replays_nothing() {
    let sb = Scrollback::new(30, 120, 1000);
    assert!(sb.replay().is_empty());
    assert_eq!(sb.size(), (30, 120));
}

#[test]
fn feed_then_replay_returns_everything_within_limits() {
    let mut sb = Scrollback::new(24, 80, 1000);
    sb.feed(b"hello ");
    sb.feed(b"world\r\n");
    assert_eq!(sb.replay(), b"hello world\r\n".to_vec());
}

#[test]
fn escape_sequences_are_kept_verbatim() {
    let mut sb = Scrollback::new(24, 80, 1000);
    let data = b"\x1b[31mred\x1b[0m\x1b[2J";
    sb.feed(data);
    assert_eq!(sb.replay(), data.to_vec());
}

#[test]
fn keeps_the_last_n_lines() {
    let mut sb = Scrollback::new(24, 80, 2);
    sb.feed(b"one\r\ntwo\r\nthree\r\n");
    assert_eq!(sb.replay(), b"two\r\nthree\r\n".to_vec());
    sb.feed(b"four");
    assert_eq!(sb.replay(), b"three\r\nfour".to_vec());
    sb.feed(b" more\r\nfive\r\n");
    assert_eq!(sb.replay(), b"four more\r\nfive\r\n".to_vec());
}

#[test]
fn one_line_keeps_only_the_current_line() {
    let mut sb = Scrollback::new(24, 80, 1);
    sb.feed(b"a\nb\nc");
    assert_eq!(sb.replay(), b"c".to_vec());
    sb.feed(b"\n");
    assert_eq!(sb.replay(), b"c\n".to_vec());
}

#[test]
fn zero_lines_keeps_nothing() {
    let mut sb = Scrollback::new(24, 80, 0);
    sb.feed(b"anything\n");
    assert!(sb.replay().is_empty());
}

#[test]
fn keeps_only_the_last_capacity_bytes() {
    let mut sb = Scrollback::new(24, 80, usize::MAX);
    let chunk: Vec<u8> = (0..4096u32).map(|i| (i % 251) as u8).collect();
    let mut all: Vec<u8> = Vec::new();
    for round in 0..300u32 {
        let mut c = chunk.clone();
        c[0] = (round % 256) as u8;
        sb.feed(&c);
        all.extend_from_slice(&c);
    }
    let replay = sb.replay();
    assert_eq!(replay.len(), DEFAULT_RAW_CAPACITY);
    assert_eq!(replay[..], all[all.len() - DEFAULT_RAW_CAPACITY..]);
}

#[test]
fn chunk_larger_than_capacity_keeps_its_last_bytes() {
    let mut sb = Scrollback::new(24, 80, 1000);
    sb.feed(b"old");
    let mut big = vec![b'x'; DEFAULT_RAW_CAPACITY + 10];
    big[10] = b'y';
    sb.feed(&big);
    let replay = sb.replay();
    assert_eq!(replay.len(), DEFAULT_RAW_CAPACITY);
    assert_eq!(replay[0], b'y');
}

#[test]
fn feeding_in_pieces_equals_feeding_at_once() {
    let text: Vec<u8> = (0..5000u32).flat_map(|i| format!("line {}\r\n", i).into_bytes()).collect();
    let mut whole = Scrollback::new(24, 80, 100);
    whole.feed(&text);
    let mut pieces = Scrollback::new(24, 80, 100);
    for chunk in text.chunks(37) {
        pieces.feed(chunk);
    }
    assert_eq!(whole.replay(), pieces.replay());
    assert_eq!(whole.replay(), text[text.len() - (4900..5000).map(|i| format!("line {}\r\n", i).len()).sum::<usize>()..].to_vec());
}

#[test]
fn resize_changes_size_and_keeps_bytes() {
    let mut sb = Scrollback::new(24, 80, 1000);
    sb.feed(b"abc");
    sb.resize(50, 200);
    assert_eq!(sb.size(), (50, 200));
    assert_eq!(sb.replay(), b"abc".to_vec());
}

#[test]
fn feed_keeps_size() {
    let mut sb = Scrollback::new(10, 20, 1000);
    sb.feed(b"\x1b[8;40;100t some text\r\n");
    assert_eq!(sb.size(), (10, 20));
}

#[test]
fn narrow_screen_takes_wide_characters() {
    let mut sb = Scrollback::new(5, 2, 1000);
    sb.feed("你好🚀".as_bytes());
    assert_eq!(sb.replay(), "你好🚀".as_bytes().to_vec());
}

#[test]
fn narrowing_past_a_wide_character_then_printing() {
    let mut sb = Scrollback::new(1, 4, 1000);
    sb.feed("ab中".as_bytes());
    sb.resize(1, 3);
    assert_eq!(sb.size(), (1, 3));
    sb.feed(b"x");
    assert_eq!(sb.replay(), "ab中x".as_bytes().to_vec());
}

#[test]
fn one_column_terminal_is_tracked_two_wide() {
    let mut sb = Scrollback::new(5, 1, 1000);
    assert_eq!(sb.size(), (5, 2));
    sb.feed("中\t文".as_bytes());
    sb.resize(5, 1);
    assert_eq!(sb.size(), (5, 2));
    sb.feed("宽".as_bytes());
    assert_eq!(sb.replay(), "中\t文宽".as_bytes().to_vec());
}

#[test]
fn very_wide_terminal_is_capped() {
    let mut sb = Scrollback::new(2, u16::MAX, 1000);
    assert_eq!(sb.size(), (2, 65527));
    let mut line = vec![b'x'; 65530];
    line.push(b'\t');
    sb.feed(&line);
    sb.resize(3, 65000);
    assert_eq!(sb.size(), (3, 65000));
    sb.resize(3, 65535);
    assert_eq!(sb.size(), (3, 65527));
    sb.feed(b"\t\t");
}
