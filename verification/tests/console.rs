use pasillo::debug::console::{ends_line, read_line, set_console, ConsoleCell, LineReader};

#[test]
fn line_ends_at_the_first_terminator() {
    assert_eq!(read_line::<96>(b"g0x64\rrest").as_bytes(), b"g0x64");
    assert_eq!(read_line::<96>(b"lm\nrest").as_bytes(), b"lm");
    assert_eq!(read_line::<96>(b"a\x04b").as_bytes(), b"a");
    assert_eq!(read_line::<96>(b"a\0b").as_bytes(), b"a");
    assert_eq!(read_line::<96>(b"\rabc").as_bytes(), b"");
    assert_eq!(read_line::<96>(b"").as_bytes(), b"");
    assert_eq!(read_line::<96>(b"no end").as_str(), "no end");
}

#[test]
fn line_ends_when_the_buffer_is_full() {
    let line = read_line::<4>(b"abcdefgh\r");
    assert_eq!(line.as_bytes(), b"abcd");
    assert_eq!(line.len(), 4);
    assert_eq!(read_line::<1>(b"xy").as_bytes(), b"x");
    assert_eq!(read_line::<1>(b"\rxy").as_bytes(), b"");
    assert_eq!(read_line::<0>(b"xy").as_bytes(), b"");
}

#[test]
fn reader_takes_bytes_one_by_one() {
    let mut reader = LineReader::<3>::new();
    assert!(!reader.is_done());
    reader.accept(b'a');
    assert!(!reader.is_done());
    reader.accept(b'b');
    assert!(!reader.is_done());
    reader.accept(b'c');
    assert!(reader.is_done());
    reader.accept(b'd');
    assert_eq!(reader.into_line().as_bytes(), b"abc");

    let mut reader = LineReader::<3>::new();
    reader.accept(b'a');
    reader.accept(b'\n');
    assert!(reader.is_done());
    reader.accept(b'z');
    assert_eq!(reader.into_line().as_bytes(), b"a");

    assert!(LineReader::<0>::new().is_done());
}

#[test]
fn terminators_are_four() {
    for byte in 0u8..=255 {
        assert_eq!(ends_line(byte), matches!(byte, b'\r' | b'\n' | 4 | 0));
    }
}

#[test]
fn cell_holds_one_console() {
    let mut cell: ConsoleCell<Vec<u8>> = ConsoleCell::new();
    assert!(!cell.is_set());
    let mut calls = 0;
    cell.with_console(|console| {
        calls += 1;
        console
    });
    assert_eq!(calls, 0);
    set_console(&mut cell, vec![1]);
    assert!(cell.is_set());
    cell.with_console(|mut console| {
        console.push(2);
        console
    });
    set_console(&mut cell, vec![9]);
    let mut seen = Vec::new();
    cell.with_console(|console| {
        seen = console.clone();
        console
    });
    assert_eq!(seen, vec![9]);
}

#[test]
fn reader_and_read_line_agree() {
    let inputs: [&[u8]; 8] =
        [b"", b"\r", b"a", b"ab\n", b"abc", b"abcd", b"abcde\r", b"ab\0cd"];
    for incoming in inputs {
        let mut reader = LineReader::<4>::new();
        for byte in incoming {
            reader.accept(*byte);
        }
        let terminated = incoming.iter().any(|byte| ends_line(*byte));
        assert_eq!(reader.is_done(), terminated || incoming.len() >= 4);
        assert_eq!(reader.into_line().as_bytes(), read_line::<4>(incoming).as_bytes());
    }
}
