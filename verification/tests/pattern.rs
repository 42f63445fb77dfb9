use mini_coreutils::pattern::PidMatcher;

#[test]
fn digits_name_a_process() {
    let m = PidMatcher::new().unwrap();
    assert!(m.is_pid("1"));
    assert!(m.is_pid("4242"));
    assert!(m.is_pid("007"));
}

#[test]
fn other_names_are_no_process() {
    let m = PidMatcher::new().unwrap();
    assert!(!m.is_pid(""));
    assert!(!m.is_pid("self"));
    assert!(!m.is_pid("sys"));
    assert!(!m.is_pid("12a"));
    assert!(!m.is_pid("a12"));
    assert!(!m.is_pid("1 2"));
    assert!(!m.is_pid("12\n"));
    assert!(!m.is_pid("-1"));
    assert!(!m.is_pid("\u{0661}\u{0662}"));
}

#[test]
fn matcher_compiles() {
    assert!(PidMatcher::new().is_ok());
}

#[test]
fn digits_must_fill_every_line_of_the_name() {
    let m = PidMatcher::new().unwrap();
    assert!(!m.is_pid("x\n1"));
    assert!(!m.is_pid("1\nx"));
    assert!(!m.is_pid("1\n2"));
    assert!(!m.is_pid("\n1"));
}
