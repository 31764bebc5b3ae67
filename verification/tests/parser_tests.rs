use eos_build::util::parse_header_deps;

#[test]
fn parses_marked_lines_and_drops_noise() {
    let out = ". /usr/include/a.h\n.. /usr/include/b.h\nMultiple include guards may be useful for:\n";
    let deps = parse_header_deps(out);
    assert_eq!(deps, vec![" /usr/include/a.h".to_string(), " /usr/include/b.h".to_string()]);
}

#[test]
fn strips_full_depth_marker() {
    let deps = parse_header_deps("...deep.h");
    assert_eq!(deps, vec!["deep.h".to_string()]);
}

#[test]
fn empty_stream_has_no_headers() {
    let deps = parse_header_deps("");
    assert!(deps.is_empty());
}

#[test]
fn unmarked_lines_are_noise() {
    let deps = parse_header_deps("warning: something\nin file included from x\n");
    assert!(deps.is_empty());
}

#[test]
fn handles_carriage_returns() {
    let deps = parse_header_deps(". a.h\r\n.. b.h\r\n");
    assert_eq!(deps, vec![" a.h".to_string(), " b.h".to_string()]);
}

#[test]
fn blank_and_dot_only_lines() {
    let deps = parse_header_deps("\n.\n. x.h\n");
    assert_eq!(deps, vec!["".to_string(), " x.h".to_string()]);
}

#[test]
fn last_line_without_break_is_parsed() {
    let deps = parse_header_deps(". a.h\n. b.h");
    assert_eq!(deps, vec![" a.h".to_string(), " b.h".to_string()]);
}
