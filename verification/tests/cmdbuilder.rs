use termmux::cmdbuilder::{
    append_quoted, contains_nul, encode_wide, first_candidate, must_quote, next_candidate,
    Candidate, CommandBuilder, InvalidArg,
};

fn wide(s: &str) -> Vec<u16> {
    s.encode_utf16().collect()
}

fn quoted(arg: &str) -> String {
    let mut line = wide("x ");
    append_quoted(&wide(arg), &mut line);
    String::from_utf16(&line[2..]).unwrap()
}

#[test]
fn embedded_quotes_are_escaped_inside_outer_quotes() {
    assert_eq!(quoted(r#"a "b" c"#), r#""a \"b\" c""#);
}

#[test]
fn trailing_backslashes_are_doubled_before_the_closing_quote() {
    assert_eq!(quoted(r"a b\\"), r#""a b\\\\""#);
    assert_eq!(quoted(r"a b\"), r#""a b\\""#);
}

#[test]
fn plain_arguments_stay_as_they_are() {
    assert_eq!(quoted("abc"), "abc");
    assert_eq!(quoted(r"C:\dir\prog.exe"), r"C:\dir\prog.exe");
    assert_eq!(quoted(r"a\\b"), r"a\\b");
    assert_eq!(quoted(r"tail\"), r"tail\");
}

#[test]
fn empty_and_white_arguments_are_quoted() {
    assert_eq!(quoted(""), r#""""#);
    assert_eq!(quoted("a b"), r#""a b""#);
    assert_eq!(quoted("a\tb"), "\"a\tb\"");
    assert_eq!(quoted("a\nb"), "\"a\nb\"");
    assert_eq!(quoted("a\x0bb"), "\"a\x0bb\"");
    assert_eq!(quoted("\""), r#""\"""#);
}

#[test]
fn backslashes_double_only_before_a_quote() {
    // one backslash before a quote: 2 * 1 + 1 backslashes
    assert_eq!(quoted(r#"a\"b"#), r#""a\\\"b""#);
    // two before a quote: 2 * 2 + 1
    assert_eq!(quoted(r#"\\""#), r#""\\\\\"""#);
    // before anything else they stay
    assert_eq!(quoted(r"a\b c"), r#""a\b c""#);
    assert_eq!(quoted(r"a\\b c\d"), r#""a\\b c\d""#);
}

#[test]
fn must_quote_looks_for_space_tab_newline_vtab_and_quote() {
    assert!(must_quote(&wide("")));
    assert!(!must_quote(&wide("abc\\def")));
    for special in [" ", "\t", "\n", "\x0b", "\""].iter() {
        assert!(must_quote(&wide(&format!("ab{}cd", special))));
    }
    assert!(!must_quote(&wide("a\rb")));
}

#[test]
fn text_becomes_utf16() {
    assert_eq!(encode_wide(""), Vec::<u16>::new());
    assert_eq!(encode_wide("aé"), vec![0x61, 0xe9]);
    assert_eq!(encode_wide("\u{ffff}"), vec![0xffff]);
    assert_eq!(encode_wide("\u{10000}"), vec![0xd800, 0xdc00]);
    assert_eq!(encode_wide("\u{1f600}"), vec![0xd83d, 0xde00]);
    assert_eq!(encode_wide("\u{10ffff}"), vec![0xdbff, 0xdfff]);
    for text in ["hello", "日本語", "a\u{1f600}b\u{10ffff}"].iter() {
        assert_eq!(encode_wide(text), wide(text));
    }
}

#[test]
fn nul_is_found() {
    assert!(contains_nul(&[1, 0, 2]));
    assert!(contains_nul(&[0]));
    assert!(!contains_nul(&[1, 2]));
    assert!(!contains_nul(&[]));
}

#[test]
fn builder_collects_arguments_and_environment() {
    let mut cmd = CommandBuilder::new("bash");
    cmd.arg("-l");
    cmd.args(&["-c", "echo hi"]);
    cmd.env("TERM", "xterm");
    cmd.env("A", "b");
    assert_eq!(
        cmd.get_argv(),
        &vec![
            "bash".to_string(),
            "-l".to_string(),
            "-c".to_string(),
            "echo hi".to_string()
        ]
    );
    assert_eq!(
        cmd.get_envs(),
        &vec![
            ("TERM".to_string(), "xterm".to_string()),
            ("A".to_string(), "b".to_string())
        ]
    );
}

#[test]
fn command_line_is_nul_terminated_utf16() {
    let mut cmd = CommandBuilder::new("prog");
    cmd.arg("plain");
    cmd.arg(r#"a "b" c"#);
    cmd.arg("");
    let (module, line) = cmd.cmdline(r"C:\Program Files\prog.exe").unwrap();
    let mut expected_module = wide(r"C:\Program Files\prog.exe");
    expected_module.push(0);
    assert_eq!(module, expected_module);
    let mut expected_line = wide(r#""C:\Program Files\prog.exe" plain "a \"b\" c" """#);
    expected_line.push(0);
    assert_eq!(line, expected_line);
}

#[test]
fn command_line_of_a_program_alone() {
    let cmd = CommandBuilder::new("prog");
    let (module, line) = cmd.cmdline("prog.exe").unwrap();
    assert_eq!(module, [wide("prog.exe"), vec![0]].concat());
    assert_eq!(line, [wide("prog.exe"), vec![0]].concat());
}

#[test]
fn an_argument_with_a_nul_is_invalid() {
    let mut cmd = CommandBuilder::new("prog");
    cmd.arg("fine");
    cmd.arg("not\0fine");
    cmd.arg("also\0not");
    assert_eq!(cmd.cmdline("prog.exe"), Err(InvalidArg { index: 2 }));
}

#[test]
fn a_program_with_a_nul_is_invalid() {
    // in its name
    let mut cmd = CommandBuilder::new("pr\0g");
    cmd.arg("fine");
    assert_eq!(cmd.cmdline("prog.exe"), Err(InvalidArg { index: 0 }));
    // in the path that it was resolved to
    let mut cmd = CommandBuilder::new("prog");
    cmd.arg("fine");
    assert_eq!(cmd.cmdline("C:\\pr\0g.exe"), Err(InvalidArg { index: 0 }));
    // the program comes before the arguments
    let mut cmd = CommandBuilder::new("pr\0g");
    cmd.arg("not\0fine");
    assert_eq!(cmd.cmdline("prog.exe"), Err(InvalidArg { index: 0 }));
    // and without a nul anywhere the command line is made
    let mut cmd = CommandBuilder::new("prog");
    cmd.arg("fine");
    let (module, line) = cmd.cmdline("prog.exe").unwrap();
    assert_eq!(module.iter().filter(|u| **u == 0).count(), 1);
    assert_eq!(line.iter().filter(|u| **u == 0).count(), 1);
    assert_eq!(module.last(), Some(&0));
    assert_eq!(line.last(), Some(&0));
}

#[test]
fn candidates_come_directory_by_directory() {
    assert_eq!(first_candidate(0), None);
    let mut seen = Vec::new();
    let mut next = first_candidate(2);
    while let Some(c) = next {
        seen.push((c.dir, c.ext));
        next = next_candidate(c, 2, 3);
    }
    assert_eq!(
        seen,
        vec![
            (0, None),
            (0, Some(0)),
            (0, Some(1)),
            (0, Some(2)),
            (1, None),
            (1, Some(0)),
            (1, Some(1)),
            (1, Some(2)),
        ]
    );
    assert_eq!(
        next_candidate(Candidate { dir: 0, ext: None }, 2, 0),
        Some(Candidate { dir: 1, ext: None })
    );
    assert_eq!(next_candidate(Candidate { dir: 1, ext: None }, 2, 0), None);
}

/// The first argument of a command line, by the rules that Windows splits
/// it with.
fn first_argument(line: &[u16]) -> Vec<u16> {
    let (quote, backslash) = (b'"' as u16, b'\\' as u16);
    let mut out = Vec::new();
    let mut pending = 0;
    let mut in_quotes = false;
    for &c in line {
        if c == backslash {
            pending += 1;
            continue;
        }
        if c == quote {
            out.extend(std::iter::repeat(backslash).take(pending / 2));
            if pending % 2 == 1 {
                out.push(quote);
            } else {
                in_quotes = !in_quotes;
            }
            pending = 0;
            continue;
        }
        out.extend(std::iter::repeat(backslash).take(pending));
        pending = 0;
        if !in_quotes && (c == b' ' as u16 || c == b'\t' as u16) {
            return out;
        }
        out.push(c);
    }
    out.extend(std::iter::repeat(backslash).take(pending));
    out
}

#[test]
fn windows_reads_back_what_was_quoted() {
    let pieces = ["", "a", " ", "\t", "\"", "\\", "\\\\", "b c", "\\\"", "\n", "x\\"];
    let mut args = vec![String::new()];
    for _ in 0..3 {
        args = args
            .iter()
            .flat_map(|head| pieces.iter().map(move |p| format!("{}{}", head, p)))
            .collect();
    }
    assert_eq!(args.len(), 11 * 11 * 11);
    for arg in args.iter() {
        for rest in ["", " next", "\tnext \"x\""].iter() {
            let mut line = Vec::new();
            append_quoted(&wide(arg), &mut line);
            line.extend(wide(rest));
            assert_eq!(first_argument(&line), wide(arg), "{:?}", arg);
        }
    }
}
