//! The in-game console: reading a typed line as a command, and the history of
//! typed lines.

use vstd::prelude::*;
use vstd::string::StringExecFns;
use vstd::string::StrSliceExecFns;

use crate::text::{chars_of, parse_usize, range_is};

verus! {

/// The characters with the Unicode `White_Space` property.
pub open spec fn is_ws(c: char) -> bool {
    let u = c as u32;
    ||| 0x09 <= u <= 0x0D
    ||| u == 0x20
    ||| u == 0x85
    ||| u == 0xA0
    ||| u == 0x1680
    ||| 0x2000 <= u <= 0x200A
    ||| u == 0x2028
    ||| u == 0x2029
    ||| u == 0x202F
    ||| u == 0x205F
    ||| u == 0x3000
}

/// True for a whitespace character.
pub fn is_whitespace(c: char) -> (r: bool)
    ensures
        r == is_ws(c),
{
    let u = c as u32;
    (0x09 <= u && u <= 0x0D) || u == 0x20 || u == 0x85 || u == 0xA0 || u == 0x1680 || (0x2000 <= u
        && u <= 0x200A) || u == 0x2028 || u == 0x2029 || u == 0x202F || u == 0x205F || u == 0x3000
}

pub open spec fn flush(cur: Seq<char>) -> Seq<Seq<char>> {
    if cur.len() > 0 {
        seq![cur]
    } else {
        Seq::empty()
    }
}

/// Words of `s` after a word `cur` that is still open.
pub open spec fn words_after(s: Seq<char>, cur: Seq<char>) -> Seq<Seq<char>>
    decreases s.len(),
{
    if s.len() == 0 {
        flush(cur)
    } else if is_ws(s[0]) {
        flush(cur) + words_after(s.drop_first(), Seq::empty())
    } else {
        words_after(s.drop_first(), cur.push(s[0]))
    }
}

/// The words of `s`: its maximal runs of non-whitespace characters, in order.
pub open spec fn words(s: Seq<char>) -> Seq<Seq<char>> {
    words_after(s, Seq::empty())
}

pub open spec fn ranges_text(s: Seq<char>, r: Seq<(usize, usize)>) -> Seq<Seq<char>> {
    r.map_values(|p: (usize, usize)| s.subrange(p.0 as int, p.1 as int))
}

/// Where the words of `chars` start and end.
pub fn split_whitespace(chars: &Vec<char>) -> (r: Vec<(usize, usize)>)
    ensures
        ranges_text(chars@, r@) == words(chars@),
        forall|k: int| 0 <= k < r@.len() ==> #[trigger] r@[k].0 <= r@[k].1 <= chars@.len(),
{
    let ghost s = chars@;
    let mut out: Vec<(usize, usize)> = Vec::new();
    let mut start: usize = 0;
    let mut i: usize = 0;
    assert(s.skip(0) =~= s);
    assert(s.subrange(0, 0) =~= Seq::<char>::empty());
    while i < chars.len()
        invariant
            s == chars@,
            start <= i <= s.len(),
            ranges_text(s, out@) + words_after(s.skip(i as int), s.subrange(start as int, i as int))
                == words(s),
            forall|k: int| 0 <= k < out@.len() ==> #[trigger] out@[k].0 <= out@[k].1 <= s.len(),
        decreases s.len() - i,
    {
        let ghost rest = s.skip(i as int);
        let ghost cur = s.subrange(start as int, i as int);
        assert(rest.drop_first() =~= s.skip(i as int + 1));
        assert(rest[0] == s[i as int]);
        if is_whitespace(chars[i]) {
            let ghost before = ranges_text(s, out@);
            if start < i {
                out.push((start, i));
                assert(ranges_text(s, out@) =~= before + flush(cur));
            } else {
                assert(ranges_text(s, out@) =~= before + flush(cur));
            }
            assert(words_after(rest, cur) == flush(cur) + words_after(
                s.skip(i as int + 1),
                Seq::empty(),
            ));
            assert((before + flush(cur)) + words_after(s.skip(i as int + 1), Seq::empty()) =~= before
                + (flush(cur) + words_after(s.skip(i as int + 1), Seq::empty())));
            i = i + 1;
            start = i;
            assert(s.subrange(start as int, i as int) =~= Seq::<char>::empty());
        } else {
            assert(cur.push(s[i as int]) =~= s.subrange(start as int, i as int + 1));
            i = i + 1;
        }
    }
    let ghost cur = s.subrange(start as int, i as int);
    let ghost before = ranges_text(s, out@);
    assert(s.skip(i as int) =~= Seq::<char>::empty());
    if start < i {
        out.push((start, i));
    }
    assert(ranges_text(s, out@) =~= before + flush(cur));
    out
}

/// What a typed console line asks for.
#[derive(Debug)]
pub enum ConsoleCommand {
    /// The line does not start with `/`: not a command.
    Ignored,
    /// `/tp X Y`: move the controlled body to the tile `X`, `Y` (as typed).
    Teleport(String, String),
    /// `/size S`: scale the controlled body by `S` (as typed).
    Resize(String),
    /// `/get ammo N`: give `N` rounds.
    GiveAmmo(usize),
    /// A known command without the arguments it needs: nothing happens.
    Incomplete,
    /// Anything else that starts with `/`.
    Unknown,
}

/// The command a line asks for, from its words.
pub open spec fn command_matches(text: Seq<char>, r: ConsoleCommand) -> bool {
    let w = words(text);
    if text.len() == 0 || text[0] != '/' {
        r is Ignored
    } else if w[0] == "/tp"@ {
        if w.len() >= 3 {
            r matches ConsoleCommand::Teleport(x, y) && x@ == w[1] && y@ == w[2]
        } else {
            r is Incomplete
        }
    } else if w[0] == "/size"@ {
        if w.len() >= 2 {
            r matches ConsoleCommand::Resize(x) && x@ == w[1]
        } else {
            r is Incomplete
        }
    } else if w[0] == "/get"@ {
        if w.len() >= 3 {
            if w[1] == "ammo"@ {
                match crate::text::spec_parse_usize(w[2]) {
                    Some(n) => r matches ConsoleCommand::GiveAmmo(m) && m == n,
                    None => r is Incomplete,
                }
            } else {
                r is Unknown
            }
        } else {
            r is Incomplete
        }
    } else {
        r is Unknown
    }
}

/// A line that starts with `/` has a first word, and it starts there.
proof fn lemma_first_word(s: Seq<char>)
    requires
        s.len() > 0,
        !is_ws(s[0]),
    ensures
        words(s).len() > 0,
{
    lemma_words_after_nonempty(s.drop_first(), seq![s[0]]);
}

proof fn lemma_words_after_nonempty(s: Seq<char>, cur: Seq<char>)
    requires
        cur.len() > 0,
    ensures
        words_after(s, cur).len() > 0,
    decreases s.len(),
{
    if s.len() == 0 {
    } else if is_ws(s[0]) {
    } else {
        lemma_words_after_nonempty(s.drop_first(), cur.push(s[0]));
    }
}

fn word_string(text: &str, w: (usize, usize)) -> (r: String)
    requires
        w.0 <= w.1 <= text@.len(),
    ensures
        r@ == text@.subrange(w.0 as int, w.1 as int),
{
    let part = text.substring_char(w.0, w.1);
    String::from_str(part)
}

/// Reads a console line as a command.
pub fn parse_command(text: &str) -> (r: ConsoleCommand)
    ensures
        command_matches(text@, r),
{
    let chars = chars_of(text);
    if chars.len() == 0 || chars[0] != '/' {
        return ConsoleCommand::Ignored;
    }
    proof {
        assert(!is_ws(chars@[0]));
        lemma_first_word(chars@);
    }
    let ws = split_whitespace(&chars);
    let ghost w = words(chars@);
    assert(ws@.len() == w.len());
    assert(ranges_text(chars@, ws@)[0] == w[0]);
    let first = ws[0];
    if range_is(&chars, first.0, first.1, "/tp") {
        if ws.len() >= 3 {
            assert(ranges_text(chars@, ws@)[1] == w[1]);
            assert(ranges_text(chars@, ws@)[2] == w[2]);
            let x = word_string(text, ws[1]);
            let y = word_string(text, ws[2]);
            ConsoleCommand::Teleport(x, y)
        } else {
            ConsoleCommand::Incomplete
        }
    } else if range_is(&chars, first.0, first.1, "/size") {
        if ws.len() >= 2 {
            assert(ranges_text(chars@, ws@)[1] == w[1]);
            let x = word_string(text, ws[1]);
            ConsoleCommand::Resize(x)
        } else {
            ConsoleCommand::Incomplete
        }
    } else if range_is(&chars, first.0, first.1, "/get") {
        if ws.len() >= 3 {
            assert(ranges_text(chars@, ws@)[1] == w[1]);
            assert(ranges_text(chars@, ws@)[2] == w[2]);
            let what = ws[1];
            if range_is(&chars, what.0, what.1, "ammo") {
                let amount = ws[2];
                match parse_usize(&chars, amount.0, amount.1) {
                    Some(n) => ConsoleCommand::GiveAmmo(n),
                    None => ConsoleCommand::Incomplete,
                }
            } else {
                ConsoleCommand::Unknown
            }
        } else {
            ConsoleCommand::Incomplete
        }
    } else {
        ConsoleCommand::Unknown
    }
}

} // verus!

verus! {

/// The console's typed line and the lines typed before.
#[derive(Debug)]
pub struct Console {
    line_input: String,
    input_buffer: Vec<String>,
    select_index: usize,
}

impl Console {
    /// The line being typed.
    pub closed spec fn line(&self) -> Seq<char> {
        self.line_input@
    }

    /// The lines sent so far, oldest first.
    pub closed spec fn history(&self) -> Seq<Seq<char>> {
        self.input_buffer@.map_values(|s: String| s@)
    }

    /// Which history line the arrow keys are at.
    pub closed spec fn selected(&self) -> int {
        self.select_index as int
    }

    /// The selection points into the history, or is 0.
    pub closed spec fn wf(&self) -> bool {
        self.select_index == 0 || self.select_index < self.input_buffer@.len()
    }

    /// An empty console.
    pub fn new() -> (r: Self)
        ensures
            r.wf(),
            r.line() == Seq::<char>::empty(),
            r.history() == Seq::<Seq<char>>::empty(),
            r.selected() == 0,
    {
        let c = Console { line_input: String::new(), input_buffer: Vec::new(), select_index: 0 };
        assert(c.history() =~= Seq::<Seq<char>>::empty());
        c
    }

    /// The line being typed.
    pub fn line_input(&self) -> (r: &String)
        ensures
            r@ == self.line(),
    {
        &self.line_input
    }

    /// Replaces the line being typed.
    pub fn set_line(&mut self, text: String)
        requires
            old(self).wf(),
        ensures
            final(self).wf(),
            final(self).line() == text@,
            final(self).history() == old(self).history(),
            final(self).selected() == old(self).selected(),
    {
        self.line_input = text;
    }

    /// Sends the typed line: a non-empty line is handed out, kept as the newest
    /// history entry and cleared; an empty line sends nothing.
    pub fn submit(&mut self) -> (r: Option<String>)
        requires
            old(self).wf(),
        ensures
            final(self).wf(),
            final(self).selected() == old(self).selected(),
            old(self).line().len() > 0 ==> {
                &&& r matches Some(t) && t@ == old(self).line()
                &&& final(self).history() == old(self).history().push(old(self).line())
                &&& final(self).line() == Seq::<char>::empty()
            },
            old(self).line().len() == 0 ==> r is None && final(self).history() == old(self).history()
                && final(self).line() == old(self).line(),
    {
        if self.line_input.as_str().is_empty() {
            return None;
        }
        let text = self.line_input.clone();
        self.input_buffer.push(self.line_input.clone());
        self.line_input = String::new();
        assert(self.history() =~= old(self).history().push(old(self).line()));
        Some(text)
    }

    /// Steps to the next newer history entry, stopping at the newest, and puts
    /// it on the line.
    pub fn history_up(&mut self)
        requires
            old(self).wf(),
            old(self).history().len() > 0,
        ensures
            final(self).wf(),
            final(self).history() == old(self).history(),
            final(self).selected() == (if old(self).selected() < old(self).history().len() - 1 {
                old(self).selected() + 1
            } else {
                old(self).selected()
            }),
            final(self).line() == final(self).history()[final(self).selected()],
    {
        if self.select_index < self.input_buffer.len() - 1 {
            self.select_index = self.select_index + 1;
        }
        let picked = self.input_buffer[self.select_index].clone();
        self.line_input = picked;
    }

    /// Steps to the next older history entry, stopping at the oldest, and puts it
    /// on the line.
    pub fn history_down(&mut self)
        requires
            old(self).wf(),
            old(self).history().len() > 0,
        ensures
            final(self).wf(),
            final(self).history() == old(self).history(),
            final(self).selected() == (if old(self).selected() > 0 {
                old(self).selected() - 1
            } else {
                0
            }),
            final(self).line() == final(self).history()[final(self).selected()],
    {
        if self.select_index > 0 {
            self.select_index = self.select_index - 1;
        }
        let picked = self.input_buffer[self.select_index].clone();
        self.line_input = picked;
    }

    /// Closing the console drops a half-typed line.
    pub fn close(&mut self)
        requires
            old(self).wf(),
        ensures
            final(self).wf(),
            final(self).line() == Seq::<char>::empty(),
            final(self).history() == old(self).history(),
            final(self).selected() == old(self).selected(),
    {
        if !self.line_input.as_str().is_empty() {
            self.line_input = String::new();
        }
    }
}

impl Default for Console {
    fn default() -> (r: Self)
        ensures
            r.wf(),
            r.line() == Seq::<char>::empty(),
            r.history() == Seq::<Seq<char>>::empty(),
            r.selected() == 0,
    {
        Console::new()
    }
}

} // verus!
