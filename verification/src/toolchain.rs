//! The toolchain file of a crate: which channel, components and profile it
//! asks for, and the steps that set them up.
//!
//! A line of the file is an entry if it holds a `=`: a key before it and a
//! value behind it, both without the white space around them. The keys
//! `channel`, `components` and `profile` are read; every other line is passed
//! over. Lines are sequences of characters.

use vstd::prelude::*;

verus! {

/// Whether `c` is white space.
pub open spec fn is_white_space(c: char) -> bool {
    let code = c as u32;
    ||| 0x09 <= code <= 0x0d
    ||| code == 0x20
    ||| code == 0x85
    ||| code == 0xa0
    ||| code == 0x1680
    ||| 0x2000 <= code <= 0x200a
    ||| code == 0x2028
    ||| code == 0x2029
    ||| code == 0x202f
    ||| code == 0x205f
    ||| code == 0x3000
}

/// Whether `c` is taken off the ends of a text: white space, and a double
/// quote where `quotes` is set.
pub open spec fn is_delimiter(c: char, quotes: bool) -> bool {
    is_white_space(c) || (quotes && c == '"')
}

/// The first place in `from..to` at which `s` holds `c`, or `to`.
pub open spec fn find_in(s: Seq<char>, c: char, from: int, to: int) -> int
    decreases to - from,
{
    if from >= to {
        to
    } else if s[from] == c {
        from
    } else {
        find_in(s, c, from + 1, to)
    }
}

/// The first place in `from..to` at which `s` holds no delimiter, or `to`.
pub open spec fn trim_start(s: Seq<char>, from: int, to: int, quotes: bool) -> int
    decreases to - from,
{
    if from >= to {
        to
    } else if !is_delimiter(s[from], quotes) {
        from
    } else {
        trim_start(s, from + 1, to, quotes)
    }
}

/// The place behind the last place in `from..to` at which `s` holds no
/// delimiter, or `from`.
pub open spec fn trim_end(s: Seq<char>, from: int, to: int, quotes: bool) -> int
    decreases to - from,
{
    if from >= to {
        from
    } else if !is_delimiter(s[to - 1], quotes) {
        to
    } else {
        trim_end(s, from, to - 1, quotes)
    }
}

/// `s` in `from..to` without the delimiters at its two ends.
pub open spec fn trimmed(s: Seq<char>, from: int, to: int, quotes: bool) -> Seq<char> {
    let start = trim_start(s, from, to, quotes);
    s.subrange(start, trim_end(s, start, to, quotes))
}

/// The items of a list: `s` in `from..to`, cut at every comma, each piece
/// without the white space and the quotes at its ends.
pub open spec fn list_items(s: Seq<char>, from: int, to: int) -> Seq<Seq<char>>
    decreases to - from,
{
    let comma = find_in(s, ',', from, to);
    if from <= comma < to {
        seq![trimmed(s, from, comma, true)] + list_items(s, comma + 1, to)
    } else {
        seq![trimmed(s, from, to, true)]
    }
}

/// The key `channel`.
pub open spec fn key_channel() -> Seq<char> {
    seq!['c', 'h', 'a', 'n', 'n', 'e', 'l']
}

/// The key `components`.
pub open spec fn key_components() -> Seq<char> {
    seq!['c', 'o', 'm', 'p', 'o', 'n', 'e', 'n', 't', 's']
}

/// The key `profile`.
pub open spec fn key_profile() -> Seq<char> {
    seq!['p', 'r', 'o', 'f', 'i', 'l', 'e']
}

/// Whether `value` names a profile: `minimal`, `default` or `complete`.
pub open spec fn is_profile(value: Seq<char>) -> bool {
    ||| value == seq!['m', 'i', 'n', 'i', 'm', 'a', 'l']
    ||| value == seq!['d', 'e', 'f', 'a', 'u', 'l', 't']
    ||| value == seq!['c', 'o', 'm', 'p', 'l', 'e', 't', 'e']
}

/// What a line of the file says.
pub struct Line {
    pub text: Seq<char>,
}

impl Line {
    /// The place of the `=` that parts key and value, or the length of the
    /// line where it has none.
    pub open spec fn equals_sign(self) -> int {
        find_in(self.text, '=', 0, self.text.len() as int)
    }

    /// Whether the line is an entry: it holds a `=`.
    pub open spec fn is_entry(self) -> bool {
        self.equals_sign() < self.text.len()
    }

    /// The key of an entry.
    pub open spec fn key(self) -> Seq<char> {
        trimmed(self.text, 0, self.equals_sign(), false)
    }

    /// Where the value of an entry starts.
    pub open spec fn value_start(self) -> int {
        trim_start(self.text, self.equals_sign() + 1, self.text.len() as int, false)
    }

    /// Where the value of an entry ends.
    pub open spec fn value_end(self) -> int {
        trim_end(self.text, self.value_start(), self.text.len() as int, false)
    }

    /// The value of an entry.
    pub open spec fn value(self) -> Seq<char> {
        self.text.subrange(self.value_start(), self.value_end())
    }

    /// The value of an entry without the quotes around it.
    pub open spec fn unquoted_value(self) -> Seq<char> {
        trimmed(self.text, self.value_start(), self.value_end(), true)
    }

    /// Whether the value of an entry is a list: it stands in square
    /// brackets.
    pub open spec fn value_is_list(self) -> bool {
        &&& self.value().len() >= 2
        &&& self.value()[0] == '['
        &&& self.value().last() == ']'
    }

    /// Whether a list is cut where it cannot be. The closing bracket and the
    /// character before it are taken off the list: that character, as a rule
    /// the quote behind the last item, has to be there and to be an ASCII
    /// character.
    pub open spec fn list_is_broken(self) -> bool {
        self.value().len() < 3 || self.text[self.value_end() - 2] as u32 >= 0x80
    }

    /// Whether the line is an entry `components` whose list is broken.
    pub open spec fn is_broken(self) -> bool {
        &&& self.is_entry()
        &&& self.key() == key_components()
        &&& self.value_is_list()
        &&& self.list_is_broken()
    }

    /// The items of the list of an entry: what stands between the opening
    /// bracket and the character before the closing one, cut at the commas.
    pub open spec fn items(self) -> Seq<Seq<char>> {
        list_items(self.text, self.value_start() + 1, self.value_end() - 2)
    }
}

/// The value of a `Toolchain`.
pub struct ToolchainView {
    pub channel: Seq<char>,
    pub components: Seq<Seq<char>>,
    pub profile: Seq<char>,
}

impl ToolchainView {
    /// What is known before any line is read: nothing.
    pub open spec fn empty() -> ToolchainView {
        ToolchainView { channel: seq![], components: seq![], profile: seq![] }
    }

    /// What is known once `line`, which is not broken, is read as well: a
    /// channel replaces the one before, the items of a list of components
    /// are added, and a profile replaces the one before if it names one.
    pub open spec fn with_line(self, line: Line) -> ToolchainView {
        if !line.is_entry() {
            self
        } else if line.key() == key_channel() {
            ToolchainView { channel: line.unquoted_value(), ..self }
        } else if line.key() == key_components() {
            if line.value_is_list() {
                ToolchainView { components: self.components + line.items(), ..self }
            } else {
                self
            }
        } else if line.key() == key_profile() {
            if is_profile(line.value()) {
                ToolchainView { profile: line.value(), ..self }
            } else {
                self
            }
        } else {
            self
        }
    }

    /// What is known once the first `n` of `lines` are read.
    pub open spec fn with_lines(self, lines: Seq<Seq<char>>, n: int) -> ToolchainView
        decreases n,
    {
        if n <= 0 {
            self
        } else {
            self.with_lines(lines, n - 1).with_line(Line { text: lines[n - 1] })
        }
    }
}

/// Whether one of the first `n` of `lines` is broken.
pub open spec fn any_broken(lines: Seq<Seq<char>>, n: int) -> bool {
    exists|i: int| 0 <= i < n && #[trigger] (Line { text: lines[i] }).is_broken()
}

/// Whether `c` is white space.
pub fn is_whitespace(c: char) -> (white: bool)
    ensures
        white == is_white_space(c),
{
    let code = c as u32;
    (0x09 <= code && code <= 0x0d) || code == 0x20 || code == 0x85 || code == 0xa0 || code
        == 0x1680 || (0x2000 <= code && code <= 0x200a) || code == 0x2028 || code == 0x2029
        || code == 0x202f || code == 0x205f || code == 0x3000
}

/// The first place in `from..to` at which `s` holds `c`, or `to`.
pub fn find(s: &Vec<char>, c: char, from: usize, to: usize) -> (at: usize)
    requires
        from <= to <= s@.len(),
    ensures
        at == find_in(s@, c, from as int, to as int),
        from <= at <= to,
{
    let mut at = from;
    while at < to && s[at] != c
        invariant
            from <= at <= to <= s@.len(),
            find_in(s@, c, from as int, to as int) == find_in(s@, c, at as int, to as int),
        decreases to - at,
    {
        at += 1;
    }
    at
}

/// The bounds of `s` in `from..to` without the delimiters at its two ends.
pub fn trim(s: &Vec<char>, from: usize, to: usize, quotes: bool) -> (bounds: (usize, usize))
    requires
        from <= to <= s@.len(),
    ensures
        bounds.0 == trim_start(s@, from as int, to as int, quotes),
        bounds.1 == trim_end(s@, bounds.0 as int, to as int, quotes),
        from <= bounds.0 <= bounds.1 <= to,
        s@.subrange(bounds.0 as int, bounds.1 as int) == trimmed(
            s@,
            from as int,
            to as int,
            quotes,
        ),
{
    let mut start = from;
    while start < to && (is_whitespace(s[start]) || (quotes && s[start] == '"'))
        invariant
            from <= start <= to <= s@.len(),
            trim_start(s@, from as int, to as int, quotes) == trim_start(
                s@,
                start as int,
                to as int,
                quotes,
            ),
        decreases to - start,
    {
        start += 1;
    }
    let mut end = to;
    while start < end && (is_whitespace(s[end - 1]) || (quotes && s[end - 1] == '"'))
        invariant
            start <= end <= to <= s@.len(),
            trim_end(s@, start as int, to as int, quotes) == trim_end(
                s@,
                start as int,
                end as int,
                quotes,
            ),
        decreases end - start,
    {
        end -= 1;
    }
    (start, end)
}

/// Whether `s` in `from..to` reads `word`.
fn reads<const N: usize>(s: &Vec<char>, from: usize, to: usize, word: &[char; N]) -> (same: bool)
    requires
        from <= to <= s@.len(),
    ensures
        same == (s@.subrange(from as int, to as int) == word@),
{
    if to - from != N {
        assert(word@.len() == N);
        return false;
    }
    let mut i: usize = 0;
    while i < N
        invariant
            i <= N,
            to - from == N,
            to <= s@.len(),
            forall|k: int| 0 <= k < i ==> s@[from + k] == word@[k],
        decreases N - i,
    {
        if s[from + i] != word[i] {
            assert(s@.subrange(from as int, to as int)[i as int] != word@[i as int]);
            return false;
        }
        i += 1;
    }
    assert(s@.subrange(from as int, to as int) =~= word@);
    true
}

/// A copy of `s` in `from..to`.
fn copy_range(s: &Vec<char>, from: usize, to: usize) -> (copy: Vec<char>)
    requires
        from <= to <= s@.len(),
    ensures
        copy@ == s@.subrange(from as int, to as int),
{
    let mut copy: Vec<char> = Vec::new();
    let mut i = from;
    while i < to
        invariant
            from <= i <= to <= s@.len(),
            copy@ == s@.subrange(from as int, i as int),
        decreases to - i,
    {
        copy.push(s[i]);
        i += 1;
        assert(copy@ =~= s@.subrange(from as int, i as int));
    }
    copy
}

/// What a toolchain file asks for: a channel, components and a profile;
/// each is empty where the file does not name it.
pub struct Toolchain {
    channel: Vec<char>,
    components: Vec<Vec<char>>,
    profile: Vec<char>,
}

impl View for Toolchain {
    type V = ToolchainView;

    closed spec fn view(&self) -> ToolchainView {
        ToolchainView {
            channel: self.channel@,
            components: self.components@.map_values(|item: Vec<char>| item@),
            profile: self.profile@,
        }
    }
}

/// A step of setting a toolchain up.
#[derive(Clone, Copy, Debug, PartialEq, Eq, Structural)]
pub enum SetupStep {
    /// Install the toolchain of the channel, with the profile if
    /// `with_profile` is set.
    InstallToolchain { with_profile: bool },
    /// Add the components to the toolchain that is in use.
    AddComponents,
    /// Add the target that the packages are built for.
    AddTarget,
}

impl ToolchainView {
    /// The steps that set up what the file asks for. A channel is
    /// installed, with the profile if there is one; only without a channel
    /// are the components added to the toolchain in use. The target is
    /// always added last.
    pub open spec fn setup_steps(self) -> Seq<SetupStep> {
        if self.channel.len() > 0 {
            seq![
                SetupStep::InstallToolchain { with_profile: self.profile.len() > 0 },
                SetupStep::AddTarget,
            ]
        } else if self.components.len() > 0 {
            seq![SetupStep::AddComponents, SetupStep::AddTarget]
        } else {
            seq![SetupStep::AddTarget]
        }
    }
}

impl Toolchain {
    /// What is known before any line is read: nothing.
    pub fn new() -> (toolchain: Toolchain)
        ensures
            toolchain@ == ToolchainView::empty(),
    {
        let toolchain = Toolchain {
            channel: Vec::new(),
            components: Vec::new(),
            profile: Vec::new(),
        };
        assert(toolchain@.components =~= Seq::<Seq<char>>::empty());
        toolchain
    }

    /// The channel, or nothing.
    pub fn channel(&self) -> (channel: &Vec<char>)
        ensures
            channel@ == self@.channel,
    {
        &self.channel
    }

    /// The profile, or nothing.
    pub fn profile(&self) -> (profile: &Vec<char>)
        ensures
            profile@ == self@.profile,
    {
        &self.profile
    }

    /// The number of components.
    pub fn num_components(&self) -> (len: usize)
        ensures
            len == self@.components.len(),
    {
        self.components.len()
    }

    /// Component `index`.
    pub fn component(&self, index: usize) -> (component: &Vec<char>)
        requires
            index < self@.components.len(),
        ensures
            component@ == self@.components[index as int],
    {
        &self.components[index]
    }

    /// Reads one line of the file. A broken line is not read: nothing
    /// changes, and `false` is returned.
    pub fn read_line(&mut self, line: &Vec<char>) -> (read: bool)
        ensures
            read == !(Line { text: line@ }).is_broken(),
            read ==> final(self)@ == old(self)@.with_line(Line { text: line@ }),
            !read ==> final(self)@ == old(self)@,
    {
        let ghost entry = Line { text: line@ };
        let len = line.len();
        let equals_sign = find(line, '=', 0, len);
        if equals_sign >= len {
            return true;
        }
        let (key_start, key_end) = trim(line, 0, equals_sign, false);
        let (value_start, value_end) = trim(line, equals_sign + 1, len, false);
        assert(line@.subrange(key_start as int, key_end as int) == entry.key());
        assert(line@.subrange(value_start as int, value_end as int) == entry.value());
        if reads(line, key_start, key_end, &['c', 'h', 'a', 'n', 'n', 'e', 'l']) {
            let (start, end) = trim(line, value_start, value_end, true);
            self.channel = copy_range(line, start, end);
            true
        } else if reads(
            line,
            key_start,
            key_end,
            &['c', 'o', 'm', 'p', 'o', 'n', 'e', 'n', 't', 's'],
        ) {
            if value_end - value_start >= 2 && line[value_start] == '[' && line[value_end - 1]
                == ']' {
                if value_end - value_start < 3 || line[value_end - 2] as u32 >= 0x80 {
                    return false;
                }
                self.read_items(line, value_start + 1, value_end - 2);
            }
            true
        } else if reads(line, key_start, key_end, &['p', 'r', 'o', 'f', 'i', 'l', 'e']) {
            if reads(line, value_start, value_end, &['m', 'i', 'n', 'i', 'm', 'a', 'l']) || reads(
                line,
                value_start,
                value_end,
                &['d', 'e', 'f', 'a', 'u', 'l', 't'],
            ) || reads(line, value_start, value_end, &['c', 'o', 'm', 'p', 'l', 'e', 't', 'e']) {
                self.profile = copy_range(line, value_start, value_end);
            }
            true
        } else {
            true
        }
    }

    /// Adds the items of the list in `from..to` of `line` to the components.
    fn read_items(&mut self, line: &Vec<char>, from: usize, to: usize)
        requires
            from <= to <= line@.len(),
        ensures
            final(self)@ == (ToolchainView {
                components: old(self)@.components + list_items(line@, from as int, to as int),
                ..old(self)@
            }),
    {
        let mut at = from;
        loop
            invariant_except_break
                from <= at <= to <= line@.len(),
                self.channel == old(self).channel,
                self.profile == old(self).profile,
                self@.components + list_items(line@, at as int, to as int) == old(
                    self,
                )@.components + list_items(line@, from as int, to as int),
            ensures
                self.channel == old(self).channel,
                self.profile == old(self).profile,
                self@.components == old(self)@.components + list_items(
                    line@,
                    from as int,
                    to as int,
                ),
            decreases to - at,
        {
            let ghost before = self@.components;
            let comma = find(line, ',', at, to);
            let (start, end) = trim(line, at, comma, true);
            let item = copy_range(line, start, end);
            self.components.push(item);
            assert(self@.components =~= before.push(trimmed(
                line@,
                at as int,
                comma as int,
                true,
            )));
            if comma >= to {
                assert(before.push(trimmed(line@, at as int, to as int, true)) =~= before
                    + list_items(line@, at as int, to as int));
                break;
            }
            assert(before.push(trimmed(line@, at as int, comma as int, true)) + list_items(
                line@,
                comma + 1,
                to as int,
            ) =~= before + list_items(line@, at as int, to as int));
            at = comma + 1;
        }
    }

    /// Reads a toolchain file, line by line. The result is what the file
    /// asks for, or, where a line is broken, the number of the first such
    /// line.
    pub fn parse(lines: &Vec<Vec<char>>) -> (result: Result<Toolchain, usize>)
        ensures
            match result {
                Ok(toolchain) => {
                    &&& !any_broken(lines@.map_values(|l: Vec<char>| l@), lines@.len() as int)
                    &&& toolchain@ == ToolchainView::empty().with_lines(
                        lines@.map_values(|l: Vec<char>| l@),
                        lines@.len() as int,
                    )
                },
                Err(broken) => {
                    &&& broken < lines@.len()
                    &&& (Line { text: lines@[broken as int]@ }).is_broken()
                    &&& !any_broken(lines@.map_values(|l: Vec<char>| l@), broken as int)
                },
            },
    {
        let ghost texts = lines@.map_values(|l: Vec<char>| l@);
        let mut toolchain = Toolchain::new();
        let mut i: usize = 0;
        while i < lines.len()
            invariant
                i <= lines@.len(),
                texts == lines@.map_values(|l: Vec<char>| l@),
                !any_broken(texts, i as int),
                toolchain@ == ToolchainView::empty().with_lines(texts, i as int),
            decreases lines@.len() - i,
        {
            assert(texts[i as int] == lines@[i as int]@);
            if !toolchain.read_line(&lines[i]) {
                return Err(i);
            }
            i += 1;
        }
        Ok(toolchain)
    }

    /// The steps that set up what the file asks for.
    pub fn setup_steps(&self) -> (steps: Vec<SetupStep>)
        ensures
            steps@ == self@.setup_steps(),
    {
        let mut steps: Vec<SetupStep> = Vec::new();
        if self.channel.len() > 0 {
            steps.push(SetupStep::InstallToolchain { with_profile: self.profile.len() > 0 });
        } else if self.components.len() > 0 {
            steps.push(SetupStep::AddComponents);
        }
        steps.push(SetupStep::AddTarget);
        assert(steps@ =~= self@.setup_steps());
        steps
    }
}

} // verus!
