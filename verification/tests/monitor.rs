use pasillo::debug::command::{helper_parse, parse_command, parse_number, token, trim, Command};
use pasillo::debug::console::read_line;
use pasillo::debug::interactive::{Action, HallwayMonitor, Report, HELP_MESSAGE, LINE_LEN};
use pasillo::debug::memory::MarkerRegistry;

fn run(monitor: &mut HallwayMonitor, line: &str, memory: &mut [u8]) -> (Action, Report) {
    let markers = MarkerRegistry::<4>::new();
    let reply = monitor.interactive(line.as_bytes(), memory, &markers);
    (reply.action, reply.report)
}

#[test]
fn goto_then_advance_then_backtrack() {
    let mut memory = vec![0u8; 256];
    let mut monitor = HallwayMonitor::new();
    assert_eq!(monitor.position(), None);
    run(&mut monitor, "g0x64", &mut memory);
    assert_eq!(monitor.position(), Some(0x64));
    run(&mut monitor, "a0x0a", &mut memory);
    assert_eq!(monitor.position(), Some(0x6e));
    run(&mut monitor, "b0x0a", &mut memory);
    assert_eq!(monitor.position(), Some(0x64));
}

#[test]
fn advance_and_backtrack_wrap_around() {
    let mut memory = vec![0u8; 8];
    let mut monitor = HallwayMonitor::new();
    run(&mut monitor, "g0x2", &mut memory);
    run(&mut monitor, "b0x3", &mut memory);
    assert_eq!(monitor.position(), Some(usize::MAX));
    run(&mut monitor, "a0x3", &mut memory);
    assert_eq!(monitor.position(), Some(2));
    run(&mut monitor, "a", &mut memory);
    assert_eq!(monitor.position(), Some(3));
    run(&mut monitor, "b", &mut memory);
    assert_eq!(monitor.position(), Some(2));
}

#[test]
fn write_of_two_bytes_restores_the_position() {
    let mut memory = vec![0u8; 64];
    let mut monitor = HallwayMonitor::new();
    run(&mut monitor, "g0x10", &mut memory);
    let (action, report) = run(&mut monitor, "w41,42", &mut memory);
    assert_eq!(action, Action::Continue);
    assert_eq!(report, Report::Silent);
    assert_eq!(monitor.position(), Some(0x10));
    assert_eq!(&memory[0x0f..0x13], &[0, 0x41, 0x42, 0]);
    let (_, report) = run(&mut monitor, "r0x01", &mut memory);
    assert_eq!(report, Report::Dump(0x10, vec![0x41, 0x42, 0, 0, 0, 0, 0, 0]));
    assert_eq!(
        String::from_utf8(report.render()).unwrap(),
        "0x41 0x42 0x00 0x00 0x00 0x00 0x00 0x00 <-- @0x18\n"
    );
}

#[test]
fn write_takes_long_and_short_tokens() {
    let mut memory = vec![0u8; 16];
    let mut monitor = HallwayMonitor::new();
    run(&mut monitor, "g0x0", &mut memory);
    run(&mut monitor, "w0x41,0x42", &mut memory);
    assert_eq!(&memory[..3], &[0x41, 0x42, 0]);
    run(&mut monitor, "w0xff,7f,0x0a", &mut memory);
    assert_eq!(&memory[..4], &[0xff, 0x7f, 0x0a, 0]);
    assert_eq!(monitor.position(), Some(0));
}

#[test]
fn write_takes_zero_for_a_token_that_is_no_number() {
    assert_eq!(parse_command(b"w"), Command::Write(vec![0]));
    assert_eq!(parse_command(b"wzz,41"), Command::Write(vec![0, 0x41]));
    assert_eq!(parse_command(b"w41,"), Command::Write(vec![0x41, 0]));
    assert_eq!(parse_command(b"w4"), Command::Write(vec![4]));
}

#[test]
fn write_stops_at_the_end_of_the_arena() {
    let mut memory = vec![0u8; 4];
    let mut monitor = HallwayMonitor::new();
    run(&mut monitor, "g0x3", &mut memory);
    run(&mut monitor, "w11,22,33", &mut memory);
    assert_eq!(memory, vec![0, 0, 0, 0x11]);
    run(&mut monitor, "g0x4", &mut memory);
    run(&mut monitor, "w44", &mut memory);
    assert_eq!(memory, vec![0, 0, 0, 0x11]);
    assert_eq!(monitor.position(), Some(4));
}

#[test]
fn copy_write_repeats_one_byte() {
    let mut memory = vec![0u8; 32];
    let mut monitor = HallwayMonitor::new();
    run(&mut monitor, "g0x4", &mut memory);
    run(&mut monitor, "cw0x41,0x10", &mut memory);
    assert_eq!(&memory[3..21], &[&[0u8][..], &[0x41u8; 16][..], &[0u8][..]].concat()[..]);
    assert_eq!(monitor.position(), Some(4));
    run(&mut monitor, "cw7f,0x2", &mut memory);
    assert_eq!(&memory[4..7], &[0x7f, 0x7f, 0x41]);
    assert_eq!(parse_command(b"cw41"), Command::CopyWrite(0x41, 1));
    assert_eq!(parse_command(b"cw0x141,3"), Command::CopyWrite(0x14, 1));
    assert_eq!(parse_command(b"cw"), Command::CopyWrite(0, 1));
}

#[test]
fn unset_position_makes_commands_do_nothing() {
    let mut memory = vec![7u8; 32];
    let mut monitor = HallwayMonitor::new();
    for line in ["r0x04", "a0x10", "b0x10", "w41,42", "cw0x41,0x10", "j", "g", "gzz"] {
        let (action, report) = run(&mut monitor, line, &mut memory);
        assert_eq!(action, Action::Continue);
        assert_eq!(report, Report::Silent);
        assert_eq!(monitor.position(), None);
        assert_eq!(memory, vec![7u8; 32]);
    }
}

#[test]
fn goto_without_a_number_changes_nothing() {
    let mut memory = vec![0u8; 8];
    let mut monitor = HallwayMonitor::new();
    run(&mut monitor, "g0x5", &mut memory);
    run(&mut monitor, "gxyz", &mut memory);
    assert_eq!(monitor.position(), Some(5));
    run(&mut monitor, "g", &mut memory);
    assert_eq!(monitor.position(), Some(5));
    run(&mut monitor, "gff", &mut memory);
    assert_eq!(monitor.position(), Some(0xff));
}

#[test]
fn read_is_cut_to_the_arena() {
    let mut memory: Vec<u8> = (0u8..20).collect();
    let mut monitor = HallwayMonitor::new();
    run(&mut monitor, "g0x8", &mut memory);
    let (_, report) = run(&mut monitor, "r0x2", &mut memory);
    assert_eq!(report, Report::Dump(8, (8u8..20).collect()));
    assert_eq!(
        String::from_utf8(report.render()).unwrap(),
        "0x08 0x09 0x0a 0x0b 0x0c 0x0d 0x0e 0x0f <-- @0x10\n0x10 0x11 0x12 0x13 "
    );
    let (_, report) = run(&mut monitor, "r", &mut memory);
    assert_eq!(report, Report::Dump(8, (8u8..20).collect()));
    let (_, report) = run(&mut monitor, "r0x0", &mut memory);
    assert_eq!(report, Report::Dump(8, vec![]));
    run(&mut monitor, "g0x100", &mut memory);
    let (_, report) = run(&mut monitor, "r0x1", &mut memory);
    assert_eq!(report, Report::Dump(0x100, vec![]));
    run(&mut monitor, "g0x0", &mut memory);
    let (_, report) = run(&mut monitor, "rffffffff", &mut memory);
    assert_eq!(report, Report::Dump(0, (0u8..20).collect()));
}

#[test]
fn jump_hands_out_the_position() {
    let mut memory = vec![0u8; 8];
    let mut monitor = HallwayMonitor::new();
    run(&mut monitor, "g0x1234", &mut memory);
    let (action, report) = run(&mut monitor, "j", &mut memory);
    assert_eq!(action, Action::Jump(0x1234));
    assert_eq!(report, Report::Silent);
}

#[test]
fn markers_are_listed_and_pointed_to() {
    let mut memory = vec![0u8; 8];
    let mut markers = MarkerRegistry::<4>::new();
    markers.register("main", 0x40);
    markers.register("stack", 0x200);
    let mut monitor = HallwayMonitor::new();
    let reply = monitor.interactive(b"lm", &mut memory, &markers);
    assert_eq!(reply.report, Report::Markers(vec![(0, "main"), (1, "stack")]));
    assert_eq!(String::from_utf8(reply.report.render()).unwrap(), "0 --> main\n1 --> stack\n");
    let reply = monitor.interactive(b"m0x1", &mut memory, &markers);
    assert_eq!(reply.report, Report::Pointing("stack"));
    assert_eq!(String::from_utf8(reply.report.render()).unwrap(), "Pointing to marker `stack`!\n");
    assert_eq!(monitor.position(), Some(0x200));
    let reply = monitor.interactive(b"m2", &mut memory, &markers);
    assert_eq!(reply.report, Report::NotFound);
    assert_eq!(
        String::from_utf8(reply.report.render()).unwrap(),
        "Marker not found\nHINT: Use `lm` to list markers\n"
    );
    assert_eq!(monitor.position(), Some(0x200));
    let reply = monitor.interactive(b"m", &mut memory, &markers);
    assert_eq!(reply.report, Report::Pointing("main"));
    assert_eq!(monitor.position(), Some(0x40));
}

#[test]
fn prefixes_choose_the_command() {
    assert_eq!(parse_command(b"h"), Command::Help);
    assert_eq!(parse_command(b"help"), Command::Help);
    assert_eq!(parse_command(b"e"), Command::Exit);
    assert_eq!(parse_command(b"exit"), Command::Exit);
    assert_eq!(parse_command(b"ena"), Command::EnableInterrupts);
    assert_eq!(parse_command(b"en"), Command::Exit);
    assert_eq!(parse_command(b"cli"), Command::ClearInterrupts);
    assert_eq!(parse_command(b"r0x10"), Command::Read(16));
    assert_eq!(parse_command(b"r"), Command::Read(8));
    assert_eq!(parse_command(b"j"), Command::Jump);
    assert_eq!(parse_command(b"a0xff"), Command::Advance(255));
    assert_eq!(parse_command(b"a"), Command::Advance(1));
    assert_eq!(parse_command(b"b10"), Command::Backtrack(16));
    assert_eq!(parse_command(b"lm"), Command::ListMarkers);
    assert_eq!(parse_command(b"m3"), Command::Marker(3));
    assert_eq!(parse_command(b"g0xBEEF"), Command::Goto(Some(0xbeef)));
    assert_eq!(parse_command(b"g"), Command::Goto(None));
    assert_eq!(parse_command(b"  \tg0x1 \r\n"), Command::Goto(Some(1)));
    assert_eq!(parse_command(b"xyz"), Command::Invalid(b"xyz".to_vec()));
    assert_eq!(parse_command(b" c "), Command::Invalid(b"c".to_vec()));
    assert_eq!(parse_command(b""), Command::Invalid(vec![]));
}

#[test]
fn actions_follow_the_commands() {
    let mut memory = vec![0u8; 8];
    let mut monitor = HallwayMonitor::new();
    assert_eq!(run(&mut monitor, "exit", &mut memory), (Action::Exit, Report::Silent));
    assert_eq!(run(&mut monitor, "cli", &mut memory), (Action::ClearInterrupts, Report::Silent));
    assert_eq!(run(&mut monitor, "ena", &mut memory), (Action::EnableInterrupts, Report::Silent));
    assert_eq!(run(&mut monitor, "help", &mut memory), (Action::Continue, Report::Help));
    let (action, report) = run(&mut monitor, " ?what ", &mut memory);
    assert_eq!(action, Action::Continue);
    assert_eq!(report, Report::Invalid(b"?what".to_vec()));
    assert_eq!(
        String::from_utf8(report.render()).unwrap(),
        "invalid input `?what`\nsee `help`\n"
    );
}

#[test]
fn help_and_status_texts() {
    let mut memory = vec![0u8; 8];
    let mut monitor = HallwayMonitor::new();
    assert_eq!(String::from_utf8(monitor.help()).unwrap(), format!("{}\n", HELP_MESSAGE));
    assert_eq!(Report::Help.render(), monitor.help());
    assert!(HELP_MESSAGE.starts_with("Commands:\nhelp/h - <--\nexit/e - <--\n"));
    assert!(HELP_MESSAGE.ends_with("g<0xPOS> - [g]oto position"));
    assert_eq!(HELP_MESSAGE.lines().count(), 14);
    assert_eq!(
        String::from_utf8(monitor.status()).unwrap(),
        "No position specified.\nHINT: Point to a marker first!\nHINT: See `help`.\n"
    );
    run(&mut monitor, "g0x1f0", &mut memory);
    assert_eq!(String::from_utf8(monitor.status()).unwrap(), "Position: 0x1f0\n");
    run(&mut monitor, "g0x0", &mut memory);
    assert_eq!(String::from_utf8(monitor.status()).unwrap(), "Position: 0x0\n");
    assert_eq!(Report::Silent.render(), Vec::<u8>::new());
}

#[test]
fn greeting_and_prompt_texts() {
    let mut memory = vec![0u8; 8];
    let mut monitor = HallwayMonitor::new();
    assert_eq!(
        String::from_utf8(monitor.greeting()).unwrap(),
        format!("Welcome to Hallway Monitor!\n{}\n", HELP_MESSAGE)
    );
    assert_eq!(
        String::from_utf8(monitor.prompt()).unwrap(),
        "No position specified.\nHINT: Point to a marker first!\nHINT: See `help`.\n> "
    );
    run(&mut monitor, "g0xabc", &mut memory);
    assert_eq!(String::from_utf8(monitor.prompt()).unwrap(), "Position: 0xabc\n> ");
}

#[test]
fn numbers_are_read_in_the_radix() {
    assert_eq!(helper_parse(b"r0x10", 1, 8, 16, 8), 16);
    assert_eq!(helper_parse(b"r10", 1, 8, 16, 8), 16);
    assert_eq!(helper_parse(b"r0x0x10", 1, 8, 16, 8), 16);
    assert_eq!(helper_parse(b"r", 1, 8, 16, 8), 8);
    assert_eq!(helper_parse(b"r", 5, 8, 16, 8), 8);
    assert_eq!(helper_parse(b"r0x", 1, 8, 16, 8), 8);
    assert_eq!(helper_parse(b"r+f", 1, 8, 16, 8), 15);
    assert_eq!(helper_parse(b"r+", 1, 8, 16, 8), 8);
    assert_eq!(helper_parse(b"r-1", 1, 8, 16, 8), 8);
    assert_eq!(helper_parse(b"r1g", 1, 8, 16, 8), 8);
    assert_eq!(helper_parse(b"r123456789", 1, 8, 16, 8), 0x12345678);
    assert_eq!(helper_parse(b"x101", 1, 3, 2, 9), 5);
    assert_eq!(helper_parse(b"x102", 1, 3, 2, 9), 9);
    assert_eq!(helper_parse(b"x255", 1, 3, 10, 9), 255);
    assert_eq!(helper_parse(b"xzz", 1, 2, 36, 9), 35 * 36 + 35);
    assert_eq!(parse_number(b"ffffffffffffffffffffffffffffffffff", 16), None);
    assert_eq!(parse_number(b"DeadBeef", 16), Some(0xdead_beef));
    assert_eq!(parse_number(b"", 16), None);
    assert_eq!(token(b"a0x12", 1, 8), b"12");
    assert_eq!(token(b"a0x12", 1, 3), b"1");
    assert_eq!(token(b"a0x12", 9, 3), b"");
    assert_eq!(trim(b"\t a b \x0b\x0c\r\n"), b"a b");
    assert_eq!(trim(b"   "), b"");
}

#[test]
fn printed_position_is_read_back() {
    let mut memory = vec![0u8; 8];
    for address in [0usize, 9, 0x10, 0xff, 0x21ff, 0xabcdef] {
        let mut monitor = HallwayMonitor::new();
        run(&mut monitor, &format!("g{:x}", address), &mut memory);
        let status = String::from_utf8(monitor.status()).unwrap();
        assert_eq!(status, format!("Position: 0x{:x}\n", address));
        let printed = status.trim_start_matches("Position: ").trim_end();
        let mut other = HallwayMonitor::new();
        run(&mut other, &format!("g{}", printed), &mut memory);
        assert_eq!(other.position(), Some(address));
        assert_eq!(parse_number(&printed.as_bytes()[2..], 16), Some(address));
    }
    assert_eq!(parse_number(format!("{}", usize::MAX).as_bytes(), 10), Some(usize::MAX));
    assert_eq!(parse_number(format!("{}0", usize::MAX).as_bytes(), 10), None);
}

#[test]
fn session_over_a_scripted_console() {
    let mut memory = vec![0u8; 0x100];
    let mut markers = MarkerRegistry::<2>::new();
    markers.register("buf", 0x80);
    let mut monitor = HallwayMonitor::new();
    let mut incoming: &[u8] = b"m0\rw0x48,0x69\rr1\rj\rexit\r";
    let mut printed = monitor.greeting();
    let mut actions = Vec::new();
    loop {
        printed.extend(monitor.prompt());
        let line = read_line::<LINE_LEN>(incoming);
        incoming = &incoming[line.len() + 1..];
        let reply = monitor.interactive(line.as_bytes(), &mut memory, &markers);
        printed.extend(reply.report.render());
        actions.push(reply.action);
        if reply.action == Action::Exit {
            break;
        }
    }
    assert_eq!(
        actions,
        vec![Action::Continue, Action::Continue, Action::Continue, Action::Jump(0x80), Action::Exit]
    );
    assert_eq!(&memory[0x80..0x83], b"Hi\0");
    let expected = format!(
        "Welcome to Hallway Monitor!\n{help}\n{unset}> Pointing to marker `buf`!\n{at}> {at}> \
         0x48 0x69 0x00 0x00 0x00 0x00 0x00 0x00 <-- @0x88\n{at}> {at}> ",
        help = HELP_MESSAGE,
        unset = "No position specified.\nHINT: Point to a marker first!\nHINT: See `help`.\n",
        at = "Position: 0x80\n",
    );
    assert_eq!(String::from_utf8(printed).unwrap(), expected);
}
