use oxd2::command::{Command, Key};

#[test]
fn direct_mapping_table() {
    let mut cmd = Command::new();
    assert_eq!(cmd.process(' '), Some(Key::Pause));
    assert_eq!(cmd.process('q'), Some(Key::Exit));
    assert_eq!(cmd.process('f'), Some(Key::Forward));
    assert_eq!(cmd.process('b'), Some(Key::Backward));
    assert_eq!(cmd.process('n'), Some(Key::Next));
    assert_eq!(cmd.process('p'), Some(Key::Previous));
}

#[test]
fn unmapped_characters_yield_nothing() {
    let mut cmd = Command::new();
    assert_eq!(cmd.process('x'), None);
    assert_eq!(cmd.process('z'), None);
    assert_eq!(cmd.process('1'), None);
    assert_eq!(cmd.process('Q'), None);
    assert_eq!(cmd.process('\t'), None);
    // still in ground state: a mapped key works right after
    assert_eq!(cmd.process('q'), Some(Key::Exit));
}

#[test]
fn arrow_sequences() {
    let mut cmd = Command::new();
    assert_eq!(cmd.process('\x1b'), None);
    assert_eq!(cmd.process('['), None);
    assert_eq!(cmd.process('C'), Some(Key::Forward));
    assert_eq!(cmd.process('\x1b'), None);
    assert_eq!(cmd.process('['), None);
    assert_eq!(cmd.process('D'), Some(Key::Backward));
    assert_eq!(cmd.process('\x1b'), None);
    assert_eq!(cmd.process('['), None);
    assert_eq!(cmd.process('A'), Some(Key::Next));
    assert_eq!(cmd.process('\x1b'), None);
    assert_eq!(cmd.process('['), None);
    assert_eq!(cmd.process('B'), Some(Key::Previous));
}

#[test]
fn wrong_introducer_discards_sequence() {
    let mut cmd = Command::new();
    assert_eq!(cmd.process('\x1b'), None);
    assert_eq!(cmd.process('X'), None);
    // back in ground state: 'C' alone is not a command
    assert_eq!(cmd.process('C'), None);
    // but a direct key is
    assert_eq!(cmd.process('n'), Some(Key::Next));
}

#[test]
fn wrong_terminator_discards_sequence() {
    let mut cmd = Command::new();
    assert_eq!(cmd.process('\x1b'), None);
    assert_eq!(cmd.process('['), None);
    assert_eq!(cmd.process('Z'), None);
    assert_eq!(cmd.process('q'), Some(Key::Exit));
}

#[test]
fn stream_end_after_escape_is_exit() {
    let mut cmd = Command::new();
    assert_eq!(cmd.process('\x1b'), None);
    assert_eq!(cmd.end_of_input(), Some(Key::Exit));
}

#[test]
fn stream_end_after_introducer_discards() {
    let mut cmd = Command::new();
    assert_eq!(cmd.process('\x1b'), None);
    assert_eq!(cmd.process('['), None);
    assert_eq!(cmd.end_of_input(), None);
    // the stream is still gone: the next report is a disconnect
    assert_eq!(cmd.end_of_input(), Some(Key::Exit));
}

#[test]
fn stream_end_at_top_level_is_exit() {
    let mut cmd = Command::new();
    assert_eq!(cmd.end_of_input(), Some(Key::Exit));
}
