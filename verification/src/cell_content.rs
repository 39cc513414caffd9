//! Cell content as a sequence of display lines: the capability every content
//! type offers, and the owning line-list type behind most cells.

use vstd::prelude::*;
use vstd::string::StrSliceExecFns;
use vstd::string::StringExecFns;
use crate::utils::{display_width, lines_width, nat_max};

verus! {

/// Well-formed content lines: at least one line, none holding a line break.
pub open spec fn wf_lines(lines: Seq<Seq<char>>) -> bool {
    &&& lines.len() >= 1
    &&& forall|i: int| 0 <= i < lines.len() ==> !(#[trigger] lines[i]).contains('\n')
}

/// The line at an index, or the empty line past the end.
pub open spec fn line_at(lines: Seq<Seq<char>>, i: nat) -> Seq<char> {
    if i < lines.len() {
        lines[i as int]
    } else {
        Seq::empty()
    }
}

/// The lines of a text, split at every line break: one break yields two
/// lines, and the empty text is one empty line.
pub open spec fn split_lines(s: Seq<char>) -> Seq<Seq<char>>
    decreases s.len(),
{
    if s.len() == 0 {
        seq![Seq::<char>::empty()]
    } else if s[0] == '\n' {
        seq![Seq::<char>::empty()] + split_lines(s.drop_first())
    } else {
        let rest = split_lines(s.drop_first());
        seq![seq![s[0]] + rest[0]] + rest.drop_first()
    }
}

/// The lines joined back into one text, a line break between each two.
pub open spec fn join_lines(lines: Seq<Seq<char>>) -> Seq<char>
    decreases lines.len(),
{
    if lines.len() == 0 {
        Seq::empty()
    } else if lines.len() == 1 {
        lines[0]
    } else {
        lines[0] + seq!['\n'] + join_lines(lines.drop_first())
    }
}

/// Splitting always yields well-formed lines.
pub proof fn lemma_split_wf(s: Seq<char>)
    ensures
        wf_lines(split_lines(s)),
    decreases s.len(),
{
    if s.len() == 0 {
    } else if s[0] == '\n' {
        lemma_split_wf(s.drop_first());
        let r = split_lines(s.drop_first());
        assert forall|i: int| 0 <= i < split_lines(s).len() implies !(#[trigger] split_lines(
            s,
        )[i]).contains('\n') by {
            if i > 0 {
                assert(split_lines(s)[i] == r[i - 1]);
            }
        }
    } else {
        lemma_split_wf(s.drop_first());
        let r = split_lines(s.drop_first());
        assert forall|i: int| 0 <= i < split_lines(s).len() implies !(#[trigger] split_lines(
            s,
        )[i]).contains('\n') by {
            if i == 0 {
                let head = seq![s[0]] + r[0];
                assert forall|j: int| 0 <= j < head.len() implies head[j] != '\n' by {
                    if j == 0 {
                    } else {
                        assert(head[j] == r[0][j - 1]);
                        assert(!r[0].contains('\n'));
                    }
                }
                assert(!head.contains('\n'));
            } else {
                assert(split_lines(s)[i] == r.drop_first()[i - 1]);
                assert(r.drop_first()[i - 1] == r[i]);
            }
        }
    }
}

/// Appending a line break to a text appends one empty line to its split.
pub proof fn lemma_split_snoc_nl(s: Seq<char>)
    ensures
        split_lines(s.push('\n')) == split_lines(s) + seq![Seq::<char>::empty()],
    decreases s.len(),
{
    if s.len() == 0 {
        assert(s.push('\n')[0] == '\n');
        assert(s.push('\n').drop_first() =~= Seq::<char>::empty());
        assert(split_lines(s.push('\n').drop_first()) =~= seq![Seq::<char>::empty()]);
        assert(split_lines(s.push('\n')) =~~= split_lines(s) + seq![Seq::<char>::empty()]);
    } else {
        assert(s.push('\n')[0] == s[0]);
        assert(s.push('\n').drop_first() =~= s.drop_first().push('\n'));
        lemma_split_snoc_nl(s.drop_first());
        let q = split_lines(s.drop_first());
        let r = split_lines(s.drop_first().push('\n'));
        assert(r == q + seq![Seq::<char>::empty()]);
        if s[0] == '\n' {
            assert(split_lines(s.push('\n')) =~= split_lines(s) + seq![Seq::<char>::empty()]);
        } else {
            assert(r[0] == q[0]);
            assert(r.drop_first() =~= q.drop_first() + seq![Seq::<char>::empty()]);
            assert(split_lines(s.push('\n')) =~= split_lines(s) + seq![Seq::<char>::empty()]);
        }
    }
}

/// Appending any other character extends the last line of the split.
pub proof fn lemma_split_snoc_ch(s: Seq<char>, c: char)
    requires
        c != '\n',
    ensures
        split_lines(s.push(c)) == split_lines(s).drop_last().push(split_lines(s).last().push(c)),
    decreases s.len(),
{
    lemma_split_wf(s);
    if s.len() == 0 {
        assert(s.push(c)[0] == c);
        assert(s.push(c).drop_first() =~= Seq::<char>::empty());
        let r = split_lines(s.push(c).drop_first());
        assert(split_lines(s.push(c)) == seq![seq![c] + r[0]] + r.drop_first());
        assert(seq![c] + r[0] =~= Seq::<char>::empty().push(c));
        assert(r.drop_first() =~= Seq::<Seq<char>>::empty());
        assert(split_lines(s.push(c)) =~= split_lines(s).drop_last().push(
            split_lines(s).last().push(c),
        ));
    } else {
        assert(s.push(c)[0] == s[0]);
        assert(s.push(c).drop_first() =~= s.drop_first().push(c));
        lemma_split_snoc_ch(s.drop_first(), c);
        lemma_split_wf(s.drop_first());
        let q = split_lines(s.drop_first());
        let r = split_lines(s.drop_first().push(c));
        assert(r == q.drop_last().push(q.last().push(c)));
        if s[0] == '\n' {
            assert(split_lines(s) == seq![Seq::<char>::empty()] + q);
            assert(split_lines(s.push(c)) == seq![Seq::<char>::empty()] + r);
            assert(split_lines(s).last() == q.last());
            assert(seq![Seq::<char>::empty()] + r =~= split_lines(s).drop_last().push(
                split_lines(s).last().push(c),
            ));
        } else {
            assert(split_lines(s) == seq![seq![s[0]] + q[0]] + q.drop_first());
            assert(split_lines(s.push(c)) == seq![seq![s[0]] + r[0]] + r.drop_first());
            if q.len() == 1 {
                assert(r =~= seq![q[0].push(c)]);
                assert(r[0] == q[0].push(c));
                assert(seq![s[0]] + r[0] =~= (seq![s[0]] + q[0]).push(c));
                assert(split_lines(s.push(c)) =~= split_lines(s).drop_last().push(
                    split_lines(s).last().push(c),
                ));
            } else {
                assert(r[0] == q.drop_last()[0]);
                assert(q.drop_last()[0] == q[0]);
                assert(r.drop_first() =~= q.drop_first().drop_last().push(q.last().push(c)));
                assert(split_lines(s).last() == q.last());
                assert(split_lines(s.push(c)) =~= split_lines(s).drop_last().push(
                    split_lines(s).last().push(c),
                ));
            }
        }
    }
}

/// A text without a line break splits into itself alone.
pub proof fn lemma_split_single(l: Seq<char>)
    requires
        !l.contains('\n'),
    ensures
        split_lines(l) == seq![l],
    decreases l.len(),
{
    if l.len() == 0 {
        assert(l =~= Seq::<char>::empty());
        assert(split_lines(l) =~~= seq![l]);
    } else {
        assert(l[0] != '\n');
        assert forall|j: int| 0 <= j < l.drop_first().len() implies l.drop_first()[j] != '\n' by {
            assert(l.drop_first()[j] == l[j + 1]);
        }
        assert(!l.drop_first().contains('\n'));
        lemma_split_single(l.drop_first());
        let r = split_lines(l.drop_first());
        assert(r[0] == l.drop_first());
        assert(r.drop_first() =~= Seq::<Seq<char>>::empty());
        assert(seq![l[0]] + l.drop_first() =~= l);
        assert(split_lines(l) =~~= seq![l]);
    }
}

/// Splitting a break-free line, a line break and a remainder yields that
/// line followed by the split of the remainder.
pub proof fn lemma_split_line_prefix(l: Seq<char>, t: Seq<char>)
    requires
        !l.contains('\n'),
    ensures
        split_lines(l + seq!['\n'] + t) == seq![l] + split_lines(t),
    decreases l.len(),
{
    let s = l + seq!['\n'] + t;
    if l.len() == 0 {
        assert(s[0] == '\n');
        assert(s.drop_first() =~= t);
        assert(l =~= Seq::<char>::empty());
        assert(split_lines(s) =~~= seq![l] + split_lines(t));
    } else {
        assert(s[0] == l[0]);
        assert(l[0] != '\n');
        assert forall|j: int| 0 <= j < l.drop_first().len() implies l.drop_first()[j] != '\n' by {
            assert(l.drop_first()[j] == l[j + 1]);
        }
        assert(!l.drop_first().contains('\n'));
        assert(s.drop_first() =~= l.drop_first() + seq!['\n'] + t);
        lemma_split_line_prefix(l.drop_first(), t);
        let r = split_lines(s.drop_first());
        assert(r == seq![l.drop_first()] + split_lines(t));
        assert(r[0] == l.drop_first());
        assert(seq![s[0]] + r[0] =~= l);
        lemma_split_wf(t);
        assert(r.drop_first() =~= split_lines(t));
        assert(split_lines(s) =~~= seq![l] + split_lines(t));
    }
}

/// Joining well-formed lines and splitting the result gives the lines back.
pub proof fn lemma_split_join(lines: Seq<Seq<char>>)
    requires
        wf_lines(lines),
    ensures
        split_lines(join_lines(lines)) == lines,
    decreases lines.len(),
{
    if lines.len() == 1 {
        assert(join_lines(lines) == lines[0]);
        assert(!lines[0].contains('\n'));
        lemma_split_single(lines[0]);
        assert(split_lines(join_lines(lines)) =~= lines);
    } else {
        let rest = lines.drop_first();
        assert forall|i: int| 0 <= i < rest.len() implies !(#[trigger] rest[i]).contains('\n') by {
            assert(rest[i] == lines[i + 1]);
        }
        lemma_split_join(rest);
        assert(!lines[0].contains('\n'));
        lemma_split_line_prefix(lines[0], join_lines(rest));
        assert(join_lines(lines) == lines[0] + seq!['\n'] + join_lines(rest));
        assert(seq![lines[0]] + rest =~= lines);
    }
}

/// Joining one more line appends a line break and that line.
pub proof fn lemma_join_snoc(lines: Seq<Seq<char>>, l: Seq<char>)
    requires
        lines.len() >= 1,
    ensures
        join_lines(lines.push(l)) == join_lines(lines) + seq!['\n'] + l,
    decreases lines.len(),
{
    if lines.len() == 1 {
        assert(lines.push(l)[0] == lines[0]);
        assert(lines.push(l).drop_first() =~= seq![l]);
        assert(join_lines(seq![l]) == l);
    } else {
        assert(lines.push(l)[0] == lines[0]);
        assert(lines.push(l).drop_first() =~= lines.drop_first().push(l));
        lemma_join_snoc(lines.drop_first(), l);
        assert(join_lines(lines.push(l)) =~= join_lines(lines) + seq!['\n'] + l);
    }
}

/// What a content type offers a cell: a fixed list of display lines, with a
/// measurable width and height.
pub trait CellContent {
    /// The display lines of this content.
    spec fn lines_view(&self) -> Seq<Seq<char>>;

    /// The display width of this content: the widest of its lines.
    fn get_width(&self) -> (w: usize)
        ensures
            w == lines_width(self.lines_view()),
    ;

    /// The number of display lines, always at least one.
    fn get_height(&self) -> (h: usize)
        ensures
            h == self.lines_view().len(),
            h >= 1,
    ;

    /// The display lines themselves, well-formed: at least one, and none
    /// holding a line break.
    fn get_lines(&self) -> (v: Vec<String>)
        ensures
            v.deep_view() == self.lines_view(),
            wf_lines(self.lines_view()),
    ;
}

/// Owning content: a list of display lines.
#[derive(Debug)]
pub struct CellLines {
    lines: Vec<String>,
}

impl View for CellLines {
    type V = Seq<Seq<char>>;

    closed spec fn view(&self) -> Seq<Seq<char>> {
        self.lines.deep_view()
    }
}

impl CellLines {
    /// Every value holds well-formed lines.
    #[verifier::type_invariant]
    spec fn inv(self) -> bool {
        wf_lines(self.lines.deep_view())
    }

    /// Builds content from a text, split at every line break.
    pub fn new(s: &str) -> (r: CellLines)
        ensures
            r@ == split_lines(s@),
    {
        let n = s.unicode_len();
        let mut parts: Vec<String> = Vec::new();
        parts.push(String::new());
        proof {
            assert(parts.deep_view() =~= split_lines(s@.take(0)));
        }
        let mut i: usize = 0;
        while i < n
            invariant
                i <= n,
                n == s@.len(),
                parts.deep_view() == split_lines(s@.take(i as int)),
            decreases n - i,
        {
            proof {
                lemma_split_wf(s@.take(i as int));
            }
            let c = s.get_char(i);
            if c == '\n' {
                parts.push(String::new());
            } else {
                let mut last = parts.pop().unwrap();
                last.push(c);
                parts.push(last);
            }
            i = i + 1;
            proof {
                let prev = s@.take(i - 1);
                assert(s@.take(i as int) =~= prev.push(s@[i - 1]));
                if c == '\n' {
                    lemma_split_snoc_nl(prev);
                    assert(parts.deep_view() =~= split_lines(prev) + seq![Seq::<char>::empty()]);
                } else {
                    lemma_split_snoc_ch(prev, c);
                    assert(parts.deep_view() =~= split_lines(prev).drop_last().push(
                        split_lines(prev).last().push(c),
                    ));
                }
            }
        }
        proof {
            assert(s@.take(n as int) =~= s@);
            lemma_split_wf(s@);
        }
        CellLines { lines: parts }
    }

    /// Builds content directly from well-formed lines.
    pub fn from_lines(lines: Vec<String>) -> (r: CellLines)
        requires
            wf_lines(lines.deep_view()),
        ensures
            r@ == lines.deep_view(),
    {
        CellLines { lines }
    }

    /// The line at an index, or the empty line past the end.
    pub fn line_or_empty(&self, idx: usize) -> (r: &str)
        ensures
            r@ == line_at(self@, idx as nat),
    {
        if idx < self.lines.len() {
            self.lines[idx].as_str()
        } else {
            let r = "";
            proof {
                reveal_strlit("");
                assert(r@ =~= Seq::<char>::empty());
            }
            r
        }
    }

    /// The whole content as one text, its lines joined by line breaks.
    pub fn get_content(&self) -> (r: String)
        ensures
            r@ == join_lines(self@),
    {
        proof {
            use_type_invariant(self);
        }
        let mut out = String::new();
        let n = self.lines.len();
        let mut i: usize = 0;
        while i < n
            invariant
                1 <= n,
                i <= n,
                n == self@.len(),
                self@ == self.lines.deep_view(),
                i == 0 ==> out@ == Seq::<char>::empty(),
                i >= 1 ==> out@ == join_lines(self@.take(i as int)),
            decreases n - i,
        {
            if i > 0 {
                out.push('\n');
            }
            out.append(self.lines[i].as_str());
            i = i + 1;
            proof {
                let t = self@.take(i as int);
                if i == 1 {
                    assert(t =~= seq![self@[0]]);
                    assert(join_lines(t) == self@[0]);
                    assert(out@ =~= join_lines(t));
                } else {
                    assert(t.drop_last() =~= self@.take(i - 1));
                    assert(t =~= self@.take(i - 1).push(self@[i - 1]));
                    lemma_join_snoc(self@.take(i - 1), self@[i - 1]);
                    assert(out@ =~= join_lines(t));
                }
            }
        }
        proof {
            assert(self@.take(n as int) =~= self@);
        }
        out
    }
}

impl Clone for CellLines {
    /// A clone holds the same lines.
    fn clone(&self) -> (r: CellLines)
        ensures
            r@ == self@,
    {
        proof {
            use_type_invariant(self);
        }
        CellLines { lines: clone_string_vec(&self.lines) }
    }
}

impl Default for CellLines {
    /// The default content: one empty line.
    fn default() -> (r: CellLines)
        ensures
            r@ == seq![Seq::<char>::empty()],
    {
        let mut lines: Vec<String> = Vec::new();
        lines.push(String::new());
        proof {
            assert(lines.deep_view() =~= seq![Seq::<char>::empty()]);
        }
        CellLines { lines }
    }
}

/// Clones a vector of strings, element by element.
fn clone_string_vec(v: &Vec<String>) -> (r: Vec<String>)
    ensures
        r.deep_view() == v.deep_view(),
{
    let mut r: Vec<String> = Vec::new();
    let n = v.len();
    let mut i: usize = 0;
    while i < n
        invariant
            i <= n,
            n == v@.len(),
            r@.len() == i,
            forall|k: int| 0 <= k < i ==> (#[trigger] r@[k])@ == v@[k]@,
        decreases n - i,
    {
        r.push(v[i].clone());
        i = i + 1;
    }
    proof {
        assert forall|k: int| 0 <= k < n implies r.deep_view()[k] == v.deep_view()[k] by {
            assert(r@[k]@ == v@[k]@);
        }
        assert(r.deep_view() =~= v.deep_view());
    }
    r
}

impl CellContent for CellLines {
    open spec fn lines_view(&self) -> Seq<Seq<char>> {
        self@
    }

    fn get_width(&self) -> (w: usize)
        ensures
            w == lines_width(self.lines_view()),
    {
        let mut w: usize = 0;
        let n = self.lines.len();
        let mut i: usize = 0;
        while i < n
            invariant
                i <= n,
                n == self@.len(),
                self@ == self.lines.deep_view(),
                w == lines_width(self@.take(i as int)),
            decreases n - i,
        {
            let lw = crate::utils::str_display_width(self.lines[i].as_str());
            if lw > w {
                w = lw;
            }
            i = i + 1;
            proof {
                let t = self@.take(i as int);
                assert(t.drop_last() =~= self@.take(i - 1));
                assert(t.last() == self@[i - 1]);
                assert(w == lines_width(t));
            }
        }
        proof {
            assert(self@.take(n as int) =~= self@);
        }
        w
    }

    fn get_height(&self) -> (h: usize)
        ensures
            h == self.lines_view().len(),
            h >= 1,
    {
        proof {
            use_type_invariant(self);
        }
        self.lines.len()
    }

    fn get_lines(&self) -> (v: Vec<String>)
        ensures
            v.deep_view() == self.lines_view(),
            wf_lines(self.lines_view()),
    {
        proof {
            use_type_invariant(self);
        }
        clone_string_vec(&self.lines)
    }
}

impl CellContent for String {
    /// A string's display lines are its text split at every line break.
    open spec fn lines_view(&self) -> Seq<Seq<char>> {
        split_lines(self@)
    }

    fn get_width(&self) -> (w: usize)
        ensures
            w == lines_width(self.lines_view()),
    {
        let cl = CellLines::new(self.as_str());
        cl.get_width()
    }

    fn get_height(&self) -> (h: usize)
        ensures
            h == self.lines_view().len(),
            h >= 1,
    {
        proof {
            lemma_split_wf(self@);
        }
        let cl = CellLines::new(self.as_str());
        cl.get_height()
    }

    fn get_lines(&self) -> (v: Vec<String>)
        ensures
            v.deep_view() == self.lines_view(),
            wf_lines(self.lines_view()),
    {
        proof {
            lemma_split_wf(self@);
        }
        let cl = CellLines::new(self.as_str());
        cl.get_lines()
    }
}

} // verus!
