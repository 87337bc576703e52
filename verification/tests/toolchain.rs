use masonry::toolchain::{find, is_whitespace, trim, SetupStep, Toolchain};

fn chars(text: &str) -> Vec<char> {
    text.chars().collect()
}

fn text(chars: &Vec<char>) -> String {
    chars.iter().collect()
}

fn components(toolchain: &Toolchain) -> Vec<String> {
    (0..toolchain.num_components())
        .map(|index| text(toolchain.component(index)))
        .collect()
}

fn read(lines: &[&str]) -> Toolchain {
    let lines: Vec<Vec<char>> = lines.iter().map(|line| chars(line)).collect();
    match Toolchain::parse(&lines) {
        Ok(toolchain) => toolchain,
        Err(line) => panic!("line {} is broken", line),
    }
}

#[test]
fn white_space_is_what_std_calls_white_space() {
    let mut code = 0u32;
    while code <= 0x11_0000 {
        if let Some(c) = char::from_u32(code) {
            assert_eq!(is_whitespace(c), c.is_whitespace(), "U+{:04X}", code);
        }
        code += 1;
    }
}

#[test]
fn find_gives_the_first_place_or_the_end() {
    let line = chars("a=b=c");
    assert_eq!(find(&line, '=', 0, 5), 1);
    assert_eq!(find(&line, '=', 2, 5), 3);
    assert_eq!(find(&line, '=', 4, 5), 5);
    assert_eq!(find(&line, '=', 0, 1), 1);
    assert_eq!(find(&line, 'x', 0, 5), 5);
    assert_eq!(find(&line, 'a', 3, 3), 3);
}

#[test]
fn trim_takes_delimiters_off_both_ends() {
    let line = chars("  \"a b\" \t");
    assert_eq!(trim(&line, 0, line.len(), false), (2, 7));
    assert_eq!(trim(&line, 0, line.len(), true), (3, 6));
    assert_eq!(trim(&line, 4, 5, true), (5, 5));
    let blank = chars(" \u{a0}\u{3000} ");
    assert_eq!(trim(&blank, 0, 4, false), (4, 4));
    for word in ["", "x", " x", "x ", "\"\"x\" \"", "a \" b"] {
        let line = chars(word);
        let (start, end) = trim(&line, 0, line.len(), false);
        assert_eq!(line[start..end].iter().collect::<String>(), word.trim());
        let (start, end) = trim(&line, 0, line.len(), true);
        let delimiter = |c: char| c.is_whitespace() || c == '"';
        assert_eq!(
            line[start..end].iter().collect::<String>(),
            word.trim_start_matches(delimiter).trim_end_matches(delimiter)
        );
    }
}

#[test]
fn empty_file_asks_for_nothing() {
    let toolchain = read(&[]);
    assert_eq!(text(toolchain.channel()), "");
    assert_eq!(text(toolchain.profile()), "");
    assert_eq!(toolchain.num_components(), 0);
    assert_eq!(toolchain.setup_steps(), vec![SetupStep::AddTarget]);
    let toolchain = Toolchain::new();
    assert_eq!(toolchain.setup_steps(), vec![SetupStep::AddTarget]);
}

#[test]
fn usual_file_is_read() {
    let toolchain = read(&[
        "[toolchain]",
        "channel = \"nightly-2022-04-01\"",
        "components = [\"rustfmt\", \"clippy\"]",
        "profile = minimal",
        "targets = [\"wasm32-unknown-unknown\"]",
    ]);
    assert_eq!(text(toolchain.channel()), "nightly-2022-04-01");
    assert_eq!(components(&toolchain), vec!["rustfmt", "clippy"]);
    assert_eq!(text(toolchain.profile()), "minimal");
    assert_eq!(
        toolchain.setup_steps(),
        vec![
            SetupStep::InstallToolchain { with_profile: true },
            SetupStep::AddTarget
        ]
    );
}

#[test]
fn channel_loses_quotes_and_white_space() {
    assert_eq!(text(read(&["channel=stable"]).channel()), "stable");
    assert_eq!(text(read(&["  channel\t=  \" stable \"  "]).channel()), "stable");
    assert_eq!(text(read(&["channel = \"\"\"1.60\"\""]).channel()), "1.60");
    assert_eq!(text(read(&["channel = a \" b"]).channel()), "a \" b");
    assert_eq!(text(read(&["channel = a=b"]).channel()), "a=b");
    assert_eq!(text(read(&["channel = \""]).channel()), "");
    assert_eq!(text(read(&["channel ="]).channel()), "");
}

#[test]
fn last_channel_wins() {
    let toolchain = read(&["channel = stable", "channel = \"beta\""]);
    assert_eq!(text(toolchain.channel()), "beta");
    let toolchain = read(&["channel = stable", "channel = \"\""]);
    assert_eq!(text(toolchain.channel()), "");
}

#[test]
fn keys_must_match_exactly() {
    let toolchain = read(&[
        "Channel = stable",
        "channels = stable",
        "\"channel\" = stable",
        "chan nel = stable",
        "channel stable",
        "= stable",
    ]);
    assert_eq!(text(toolchain.channel()), "");
}

#[test]
fn profile_must_be_named_without_quotes() {
    assert_eq!(text(read(&["profile = minimal"]).profile()), "minimal");
    assert_eq!(text(read(&["profile=default"]).profile()), "default");
    assert_eq!(text(read(&["profile =   complete "]).profile()), "complete");
    assert_eq!(text(read(&["profile = \"minimal\""]).profile()), "");
    assert_eq!(text(read(&["profile = full"]).profile()), "");
    assert_eq!(text(read(&["profile = minimal", "profile = none"]).profile()), "minimal");
    assert_eq!(
        text(read(&["profile = minimal", "profile = complete"]).profile()),
        "complete"
    );
}

#[test]
fn components_lose_the_character_before_the_bracket() {
    // The closing bracket and the character before it are cut off: the
    // closing quote of the last item as a rule.
    assert_eq!(components(&read(&["components = [\"a\", \"b\"]"])), vec!["a", "b"]);
    assert_eq!(components(&read(&["components = [a, b]"])), vec!["a", ""]);
    assert_eq!(components(&read(&["components = [a,bc]"])), vec!["a", "b"]);
    assert_eq!(components(&read(&["components = [a]"])), vec![""]);
    assert_eq!(components(&read(&["components = [ ]"])), vec![""]);
    assert_eq!(components(&read(&["components = [\"a\",]"])), vec!["a"]);
    assert_eq!(components(&read(&["components = [\"a\",,]"])), vec!["a", ""]);
    assert_eq!(
        components(&read(&["components = [ \"rust-src\" , \"llvm-tools\" ]"])),
        vec!["rust-src", "llvm-tools"]
    );
}

#[test]
fn components_add_up_over_lines() {
    let toolchain = read(&["components = [\"a\"]", "x = y", "components = [\"b\", \"c\"]"]);
    assert_eq!(components(&toolchain), vec!["a", "b", "c"]);
    assert_eq!(
        toolchain.setup_steps(),
        vec![SetupStep::AddComponents, SetupStep::AddTarget]
    );
}

#[test]
fn components_without_brackets_are_passed_over() {
    assert_eq!(read(&["components = \"a\""]).num_components(), 0);
    assert_eq!(read(&["components = [\"a\""]).num_components(), 0);
    assert_eq!(read(&["components = \"a\"]"]).num_components(), 0);
    assert_eq!(read(&["components = ["]).num_components(), 0);
    assert_eq!(read(&["components ="]).num_components(), 0);
}

#[test]
fn broken_list_is_reported() {
    let lines = vec![chars("channel = stable"), chars("components = []"), chars("x")];
    assert_eq!(Toolchain::parse(&lines).err(), Some(1));
    let lines = vec![chars("components = [\"ä]"), chars("components = []")];
    assert_eq!(Toolchain::parse(&lines).err(), Some(0));
    let mut toolchain = Toolchain::new();
    assert!(toolchain.read_line(&chars("components = [\"a\"]")));
    assert!(!toolchain.read_line(&chars("components = []")));
    assert!(!toolchain.read_line(&chars("components = [é]")));
    assert!(toolchain.read_line(&chars("components = [éa]")));
    assert_eq!(components(&toolchain), vec!["a", "é"]);
}

#[test]
fn setup_installs_a_channel_before_anything_else() {
    let toolchain = read(&["channel = nightly", "components = [\"a\"]"]);
    assert_eq!(
        toolchain.setup_steps(),
        vec![
            SetupStep::InstallToolchain { with_profile: false },
            SetupStep::AddTarget
        ]
    );
}
