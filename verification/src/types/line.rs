use unicode_segmentation::UnicodeSegmentation;
use unicode_width::UnicodeWidthStr;
use vstd::prelude::*;
use vstd::string::StrSliceExecFns;

verus! {

/// Distance between tab stops, in display columns.
pub const TAB_WIDTH: usize = 4;

/// The display width, in terminal columns, that `unicode_width` assigns to
/// the string `s`.
pub uninterp spec fn str_width(s: Seq<char>) -> nat;

/// The extended grapheme clusters into which `unicode_segmentation` splits
/// the string `s`, in order.
pub uninterp spec fn grapheme_clusters(s: Seq<char>) -> Seq<Seq<char>>;

/// Calls `UnicodeWidthStr::width` of `unicode_width`. Trusted: the result is
/// the width that the crate computes from the characters of `s` alone.
#[verifier::external_body]
pub(crate) fn display_width(s: &str) -> (w: usize)
    ensures
        w == str_width(s@),
{
    s.width()
}

/// Calls `UnicodeSegmentation::graphemes` of `unicode_segmentation` with
/// extended clusters, and copies each cluster into a `String` of its own.
/// Trusted: the result is the crate's segmentation of `s`, and no cluster is
/// empty: the iterator hands out a slice only after it has moved on by at
/// least one character.
#[verifier::external_body]
pub(crate) fn segment(s: &str) -> (clusters: Vec<String>)
    ensures
        clusters.deep_view() == grapheme_clusters(s@),
        forall|i: int| 0 <= i < clusters.len() ==> (#[trigger] clusters[i])@.len() > 0,
{
    s.graphemes(true).map(|g| g.to_string()).collect()
}

/// Calls `char::to_string` of std. Trusted: the result is the string of that
/// one character.
#[verifier::external_body]
pub(crate) fn char_to_string(c: char) -> (s: String)
    ensures
        s@ == seq![c],
{
    c.to_string()
}

/// Whether the grapheme is the tab character.
pub open spec fn is_tab(g: Seq<char>) -> bool {
    g =~= seq!['\t']
}

/// The column reached from `column` by one more grapheme: the next tab
/// stop for a tab, `width` columns further for anything else.
pub open spec fn next_column(column: nat, tab: bool, width: nat) -> nat {
    if tab {
        (column + TAB_WIDTH - column % (TAB_WIDTH as nat)) as nat
    } else {
        column + width
    }
}

/// The column reached from column `w` by one more grapheme `g`: a tab moves
/// to the next tab stop, anything else adds its display width.
pub open spec fn advance(w: nat, g: Seq<char>) -> nat {
    next_column(w, is_tab(g), str_width(g))
}

/// The display width of the first `n` graphemes of `line` (of the whole
/// line where `n` is beyond its end).
pub open spec fn width_of(line: Seq<Seq<char>>, n: nat) -> nat
    decreases n,
{
    if n == 0 {
        0
    } else if n > line.len() {
        width_of(line, line.len())
    } else {
        advance(width_of(line, (n - 1) as nat), line[n - 1])
    }
}

/// `n`, or `len` where `n` lies beyond it.
pub open spec fn clamp_index(n: int, len: int) -> int {
    if n < len {
        n
    } else {
        len
    }
}

/// `n` as a `usize`, or `usize::MAX` where it does not fit.
pub open spec fn saturated(n: nat) -> usize {
    if n <= usize::MAX {
        n as usize
    } else {
        usize::MAX
    }
}

/// What is drawn for a grapheme: as many blanks as a tab is wide for a
/// tab, the grapheme itself for anything else.
pub open spec fn shown(g: Seq<char>) -> Seq<char> {
    if is_tab(g) {
        Seq::new(TAB_WIDTH as nat, |i: int| ' ')
    } else {
        g
    }
}

/// The index `i` lies in the highlighted range, both ends included.
pub open spec fn highlighted(i: int, highlight: Option<[usize; 2]>) -> bool {
    highlight matches Some(range) && range[0] <= i <= range[1]
}

/// A line of the model holds no empty grapheme.
pub open spec fn line_wf(line: Seq<Seq<char>>) -> bool {
    forall|i: int| 0 <= i < line.len() ==> (#[trigger] line[i]).len() > 0
}

/// The width of a prefix never shrinks as the prefix grows.
pub proof fn lemma_width_monotonic(line: Seq<Seq<char>>, i: nat, j: nat)
    requires
        i <= j,
    ensures
        width_of(line, i) <= width_of(line, j),
    decreases j,
{
    if i < j {
        if j > line.len() {
            if i <= line.len() {
                lemma_width_monotonic(line, i, line.len());
            } else {
                assert(width_of(line, i) == width_of(line, line.len()));
            }
        } else {
            lemma_width_monotonic(line, i, (j - 1) as nat);
        }
    }
}

/// The grapheme `i` of `line` covers the display column `goal`: the
/// graphemes before it end at or before `goal`, and it ends behind `goal`.
pub open spec fn covers(line: Seq<Seq<char>>, i: nat, goal: nat) -> bool {
    i < line.len() && width_of(line, i) <= goal < width_of(line, i + 1)
}

/// The grapheme of `line` that covers the display column `goal`; none
/// where the whole line is no wider than `goal`.
pub open spec fn column_at_width(line: Seq<Seq<char>>, goal: nat) -> Option<nat> {
    if width_of(line, line.len()) <= goal {
        None
    } else {
        Some(choose|i: nat| covers(line, i, goal))
    }
}

/// At most one grapheme covers a display column: one that does is the one
/// that `column_at_width` gives.
pub proof fn lemma_column_at_width_unique(line: Seq<Seq<char>>, goal: nat, i: nat)
    requires
        covers(line, i, goal),
    ensures
        column_at_width(line, goal) == Some(i),
{
    lemma_width_monotonic(line, i + 1, line.len());
    let j = choose|j: nat| covers(line, j, goal);
    if j < i {
        lemma_width_monotonic(line, j + 1, i);
    }
    if j > i {
        lemma_width_monotonic(line, i + 1, j);
    }
}

proof fn lemma_crossing_exists(line: Seq<Seq<char>>, goal: nat, n: nat)
    requires
        n <= line.len(),
        goal < width_of(line, n),
    ensures
        exists|i: nat| covers(line, i, goal),
    decreases n,
{
    if n > 0 {
        let m = (n - 1) as nat;
        if goal < width_of(line, m) {
            lemma_crossing_exists(line, goal, m);
        } else {
            assert(covers(line, m, goal));
        }
    }
}

/// For a display column within the width of the line, `column_at_width`
/// gives the smallest index `i` at which the width of the first `i + 1`
/// graphemes exceeds the column; the first `i` graphemes do not exceed it.
pub proof fn lemma_column_at_width_is_least(line: Seq<Seq<char>>, goal: nat)
    requires
        goal < width_of(line, line.len()),
    ensures
        column_at_width(line, goal) matches Some(i) && {
            &&& i < line.len()
            &&& width_of(line, i) <= goal < width_of(line, i + 1)
            &&& forall|j: nat| j <= i ==> #[trigger] width_of(line, j) <= goal
        },
{
    lemma_crossing_exists(line, goal, line.len());
    let i = column_at_width(line, goal)->0;
    assert forall|j: nat| j <= i implies #[trigger] width_of(line, j) <= goal by {
        lemma_width_monotonic(line, j, i);
    }
}

/// One line of text: its grapheme clusters, in order.
pub struct Line {
    pub graphemes: Vec<String>,
}

impl View for Line {
    type V = Seq<Seq<char>>;

    open spec fn view(&self) -> Seq<Seq<char>> {
        self.graphemes.deep_view()
    }
}

impl DeepView for Line {
    type V = Seq<Seq<char>>;

    open spec fn deep_view(&self) -> Seq<Seq<char>> {
        self.view()
    }
}

impl Clone for Line {
    fn clone(&self) -> (copy: Self)
        ensures
            copy@ == self@,
    {
        let graphemes = self.graphemes.clone();
        assert(graphemes.deep_view() =~= self.graphemes.deep_view());
        Line { graphemes }
    }
}

/// The column reached from `column` by one more grapheme that is a tab, or
/// else is `width` columns wide; `None` where that column is beyond
/// `usize::MAX`.
pub fn step_column(column: usize, tab: bool, width: usize) -> (next: Option<usize>)
    ensures
        match next {
            Some(n) => n == next_column(column as nat, tab, width as nat),
            None => next_column(column as nat, tab, width as nat) > usize::MAX,
        },
{
    let step = if tab {
        TAB_WIDTH - column % TAB_WIDTH
    } else {
        width
    };
    if column > usize::MAX - step {
        None
    } else {
        Some(column + step)
    }
}

/// The column reached from `column` by the grapheme `g`; `None` where that
/// column is beyond `usize::MAX`.
fn step_over(column: usize, g: &String) -> (next: Option<usize>)
    ensures
        match next {
            Some(n) => n == advance(column as nat, g@),
            None => advance(column as nat, g@) > usize::MAX,
        },
{
    if is_tab_str(g) {
        step_column(column, true, 0)
    } else {
        step_column(column, false, display_width(g.as_str()))
    }
}

fn is_tab_str(g: &String) -> (b: bool)
    ensures
        b == is_tab(g@),
{
    let s = g.as_str();
    s.unicode_len() == 1 && s.get_char(0) == '\t'
}

impl Line {
    /// No grapheme of the line is empty.
    pub open spec fn wf(&self) -> bool {
        line_wf(self@)
    }

    /// The empty line.
    pub fn new() -> (line: Self)
        ensures
            line@ == Seq::<Seq<char>>::empty(),
            line.wf(),
    {
        let line = Self { graphemes: Vec::new() };
        assert(line@ =~= Seq::<Seq<char>>::empty());
        line
    }

    /// The line whose graphemes are the extended grapheme clusters of `s`.
    pub fn from_string(s: String) -> (line: Self)
        ensures
            line@ == grapheme_clusters(s@),
            line.wf(),
    {
        let graphemes = segment(s.as_str());
        let line = Self { graphemes };
        assert forall|i: int| 0 <= i < line@.len() implies (#[trigger] line@[i]).len() > 0 by {
            assert(line@[i] == line.graphemes[i]@);
        }
        line
    }

    /// The number of graphemes.
    pub fn len(&self) -> (n: usize)
        ensures
            n == self@.len(),
    {
        self.graphemes.len()
    }

    /// The display width of the graphemes before `index`, capped at
    /// `usize::MAX`.
    pub fn width_to(&self, index: usize) -> (width: usize)
        ensures
            width == saturated(width_of(self@, index as nat)),
    {
        let len = self.graphemes.len();
        let n = if index < len { index } else { len };
        let mut width: usize = 0;
        let mut i: usize = 0;
        while i < n
            invariant
                i <= n <= self.graphemes.len(),
                width == saturated(width_of(self@, i as nat)),
            decreases n - i,
        {
            let g = &self.graphemes[i];
            assert(self@[i as int] == g@);
            width = match step_over(width, g) {
                Some(next) => next,
                None => usize::MAX,
            };
            i += 1;
        }
        width
    }

    /// What to draw of the line: for each grapheme from `offset` on (from
    /// the first where there is no offset), the text to draw and whether it
    /// is highlighted. A tab is drawn as blanks; `highlight` gives the first
    /// and the last highlighted index.
    pub fn cells(&self, offset: Option<usize>, highlight: Option<[usize; 2]>) -> (cells: Vec<
        (String, bool),
    >)
        ensures
            cells.len() == self@.skip(
                match offset {
                    Some(n) => clamp_index(n as int, self@.len() as int),
                    None => 0,
                },
            ).len(),
            forall|j: int|
                0 <= j < cells.len() ==> {
                    let i = self@.len() - cells.len() + j;
                    &&& (#[trigger] cells[j]).0@ == shown(self@[i])
                    &&& cells[j].1 == highlighted(i, highlight)
                },
    {
        let len = self.graphemes.len();
        let start = match offset {
            Some(n) => if n < len {
                n
            } else {
                len
            },
            None => 0,
        };
        let mut cells: Vec<(String, bool)> = Vec::new();
        let mut i: usize = start;
        while i < len
            invariant
                start <= i <= len == self.graphemes.len(),
                cells.len() == i - start,
                forall|j: int|
                    0 <= j < cells.len() ==> {
                        &&& (#[trigger] cells[j]).0@ == shown(self@[start + j])
                        &&& cells[j].1 == highlighted(start + j, highlight)
                    },
            decreases len - i,
        {
            let g = &self.graphemes[i];
            assert(self@[i as int] == g@);
            let text = if is_tab_str(g) {
                proof {
                    reveal_strlit("    ");
                }
                let blanks = "    ".to_owned();
                assert(blanks@ =~= shown(g@));
                blanks
            } else {
                g.clone()
            };
            let lit = match highlight {
                Some(range) => i >= range[0] && i <= range[1],
                None => false,
            };
            cells.push((text, lit));
            i += 1;
        }
        cells
    }

    /// The first grapheme index at which the cumulative display width
    /// exceeds `width_goal`; `None` where the whole line is no wider than
    /// `width_goal`.
    pub fn x_at_width(&self, width_goal: usize) -> (x: Option<usize>)
        ensures
            match x {
                Some(i) => {
                    &&& column_at_width(self@, width_goal as nat) == Some(i as nat)
                    &&& i < self@.len()
                    &&& width_of(self@, i as nat) <= width_goal < width_of(self@, (i + 1) as nat)
                    &&& forall|j: nat| j <= i ==> #[trigger] width_of(self@, j) <= width_goal
                },
                None => {
                    &&& column_at_width(self@, width_goal as nat) is None
                    &&& width_of(self@, self@.len()) <= width_goal
                },
            },
    {
        let len = self.graphemes.len();
        let mut width: usize = 0;
        let mut i: usize = 0;
        while i < len
            invariant
                i <= len == self.graphemes.len(),
                width == width_of(self@, i as nat),
                width <= width_goal,
                forall|j: nat| j <= i ==> #[trigger] width_of(self@, j) <= width_goal,
            decreases len - i,
        {
            let g = &self.graphemes[i];
            assert(self@[i as int] == g@);
            match step_over(width, g) {
                Some(next) if next <= width_goal => {
                    width = next;
                },
                _ => {
                    proof {
                        lemma_column_at_width_unique(self@, width_goal as nat, i as nat);
                    }
                    return Some(i);
                },
            }
            i += 1;
        }
        None
    }
}

} // verus!
