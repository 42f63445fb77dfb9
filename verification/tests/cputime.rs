use mini_coreutils::cputime::get_time;

#[test]
fn time_is_fixed() {
    assert_eq!(get_time("1"), "00:00:00");
    assert_eq!(get_time("4242"), "00:00:00");
    assert_eq!(get_time(""), "00:00:00");
    assert_eq!(get_time("not a process"), "00:00:00");
}
