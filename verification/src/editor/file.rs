use crate::editor::engine::{Editor, State};
use crate::text::{text_wf, Row, Text};
use crate::types::line::{grapheme_clusters, Line};
use crate::types::point::Pos;
use crate::types::status::Status;
use vstd::prelude::*;
use vstd::string::StringExecFns;

verus! {

/// The index of the first line feed of `s`; the length of `s` where it
/// holds none.
pub open spec fn first_line_feed(s: Seq<char>) -> nat
    decreases s.len(),
{
    if s.len() == 0 || s[0] == '\n' {
        0
    } else {
        1 + first_line_feed(s.drop_first())
    }
}

/// `line` without a carriage return at its end.
pub open spec fn without_carriage_return(line: Seq<char>) -> Seq<char> {
    if line.len() > 0 && line.last() == '\r' {
        line.drop_last()
    } else {
        line
    }
}

/// The lines of the text `s`. A line ends at a line feed, or at the end of
/// the text where something follows the last line feed. The line feed is
/// no part of the line, nor is a carriage return just before it.
pub open spec fn lines_of(s: Seq<char>) -> Seq<Seq<char>>
    decreases s.len(),
{
    let n = first_line_feed(s);
    if s.len() == 0 {
        Seq::empty()
    } else if n >= s.len() {
        seq![s]
    } else {
        seq![without_carriage_return(s.take(n as int))] + lines_of(s.skip(n as int + 1))
    }
}

/// The rows of a document that is loaded from the lines `lines`: the
/// grapheme clusters of each; one empty row where there is no line.
pub open spec fn rows_of(lines: Seq<Seq<char>>) -> Text {
    if lines.len() == 0 {
        seq![Seq::<Seq<char>>::empty()]
    } else {
        Seq::new(lines.len(), |i: int| grapheme_clusters(lines[i]))
    }
}

/// The first `n` graphemes of `row`, one after the other.
pub open spec fn row_text(row: Row, n: nat) -> Seq<char>
    decreases n,
{
    if n == 0 {
        Seq::empty()
    } else {
        row_text(row, (n - 1) as nat) + row[n - 1]
    }
}

/// The first `n` rows of `t` as one text: the graphemes of each row one
/// after the other, and a line feed between two rows.
pub open spec fn joined(t: Text, n: nat) -> Seq<char>
    decreases n,
{
    if n == 0 {
        Seq::empty()
    } else if n == 1 {
        row_text(t[0], t[0].len())
    } else {
        joined(t, (n - 1) as nat) + seq!['\n'] + row_text(t[n - 1], t[n - 1].len())
    }
}

/// The message that reports how saving went.
pub open spec fn save_message(filename: Option<Seq<char>>, failure: Option<Seq<char>>) -> Seq<
    char,
> {
    match filename {
        Some(name) => match failure {
            Some(error) => "Error saving file: "@ + error,
            None => "Saved to "@ + name,
        },
        None => "No filename specified"@,
    }
}

impl State {
    /// The state after a file was loaded: its lines are the document, or
    /// one empty row where the file could not be read, and its name is
    /// kept.
    pub open spec fn loaded(self, filename: Seq<char>, source: Option<Seq<char>>) -> State {
        State {
            content: match source {
                Some(text) => rows_of(lines_of(text)),
                None => rows_of(Seq::empty()),
            },
            filename: Some(filename),
            ..self
        }
    }

    /// The text that saving writes.
    pub open spec fn file_text(self) -> Seq<char> {
        joined(self.content, self.content.len())
    }
}

/// Calls `str::lines` of std and copies each line into a `String` of its
/// own. Trusted: the lines are those between the line feeds of `text`,
/// each without its line feed and without a carriage return before it; a
/// line feed at the very end starts no further line.
#[verifier::external_body]
fn split_lines(text: &str) -> (lines: Vec<String>)
    ensures
        lines.deep_view() == lines_of(text@),
{
    text.lines().map(|line| line.to_string()).collect()
}

impl Editor {
    /// Takes the text of a file as the document. `source` is what was read
    /// from the file `filename`, `None` where it could not be read: the
    /// document is then one empty row. Cursor, history and the rest stay
    /// as they are.
    pub fn load_file(&mut self, filename: &str, source: Option<&str>)
        ensures
            final(self)@ == old(self)@.loaded(
                filename@,
                match source {
                    Some(text) => Some(text@),
                    None => None,
                },
            ),
            text_wf(final(self)@.content),
            final(self)@.content.len() >= 1,
            old(self).wf() && old(self)@.cursor == (Pos { x: 0, y: 0 })
                && old(self)@.history.nodes.len() == 0 ==> final(self).wf(),
    {
        let mut content: Vec<Line> = Vec::new();
        if let Some(text) = source {
            let lines = split_lines(text);
            let mut i: usize = 0;
            while i < lines.len()
                invariant
                    i <= lines.len(),
                    content.len() == i,
                    forall|j: int|
                        0 <= j < i ==> (#[trigger] content[j])@ == grapheme_clusters(lines[j]@)
                            && content[j].wf(),
                decreases lines.len() - i,
            {
                content.push(Line::from_string(lines[i].clone()));
                i += 1;
            }
            assert(lines.len() > 0 ==> content.deep_view() =~= rows_of(lines.deep_view()));
        }
        if content.len() == 0 {
            content.push(Line::new());
            assert(content.deep_view() =~= rows_of(Seq::empty()));
        }
        assert(text_wf(content.deep_view())) by {
            assert forall|j: int| 0 <= j < content.len() implies crate::types::line::line_wf(
                #[trigger] content.deep_view()[j],
            ) by {
                assert(content[j].wf());
            }
        }
        self.content = content;
        self.filename = Some(filename.to_owned());
    }

    /// The document as the text of a file: the graphemes of each row one
    /// after the other, and a line feed between two rows.
    pub fn file_text(&self) -> (text: String)
        ensures
            text@ == self@.file_text(),
    {
        let ghost t = self@.content;
        let mut text = String::new();
        let mut y: usize = 0;
        while y < self.content.len()
            invariant
                y <= self.content.len(),
                t == self.content.deep_view(),
                text@ == joined(t, y as nat),
            decreases self.content.len() - y,
        {
            if y > 0 {
                proof {
                    reveal_strlit("\n");
                }
                text.append("\n");
                assert(text@ =~= joined(t, y as nat) + seq!['\n']);
            }
            let ghost start = text@;
            let row = &self.content[y].graphemes;
            assert(row.deep_view() == t[y as int]);
            let mut x: usize = 0;
            while x < row.len()
                invariant
                    x <= row.len(),
                    row.deep_view() == t[y as int],
                    text@ == start + row_text(t[y as int], x as nat),
                decreases row.len() - x,
            {
                text.append(row[x].as_str());
                assert(row[x as int]@ == t[y as int][x as int]);
                assert(text@ =~= start + row_text(t[y as int], (x + 1) as nat));
                x += 1;
            }
            assert(text@ =~= joined(t, (y + 1) as nat));
            y += 1;
        }
        text
    }

    /// Reports how saving went in the status line. `failure` is the error
    /// of the write, `None` where it succeeded or where there was no
    /// filename to write to.
    pub fn save_file(&mut self, failure: Option<&str>)
        ensures
            final(self).status matches Some(status) && status.text@ == save_message(
                old(self)@.filename,
                match failure {
                    Some(error) => Some(error@),
                    None => None,
                },
            ),
            final(self)@ == (State { status: final(self).status, ..old(self)@ }),
    {
        let message = match &self.filename {
            Some(name) => match failure {
                Some(error) => {
                    let mut message = "Error saving file: ".to_owned();
                    message.append(error);
                    message
                },
                None => {
                    let mut message = "Saved to ".to_owned();
                    message.append(name.as_str());
                    message
                },
            },
            None => "No filename specified".to_owned(),
        };
        self.status = Some(Status::new(message));
    }
}

} // verus!
