//! Fitting text into columns.

use crate::text::{chars_of, code, is_space, space, text_between, text_of, texts};
use vstd::prelude::*;

verus! {

/// A character with lower-case ASCII letters made upper case.
pub open spec fn upper_char(c: char) -> char {
    if 97 <= c as int <= 122 {
        (c as int - 32) as char
    } else {
        c
    }
}

pub open spec fn uppered(s: Seq<char>) -> Seq<char> {
    s.map_values(|c: char| upper_char(c))
}

pub fn upper(s: &str) -> (r: String)
    ensures
        r@ == uppered(s@),
{
    let c = chars_of(s);
    let mut out = String::new();
    let mut i: usize = 0;
    while i < c.len()
        invariant
            i <= c.len(),
            out@ == uppered(c@.take(i as int)),
        decreases c.len() - i,
    {
        let x: char = c[i];
        let n: u32 = code(x);
        let y: char = if 97 <= n && n <= 122 {
            (n as u8 - 32) as char
        } else {
            x
        };
        assert(uppered(c@.take(i as int + 1)) =~= uppered(c@.take(i as int)).push(upper_char(x)));
        out.push(y);
        i += 1;
    }
    assert(c@.take(c@.len() as int) =~= c@);
    out
}

/// A text cut to a number of columns, with dots for what is left out.
pub open spec fn shortened(s: Seq<char>, cols: int) -> Seq<char> {
    if s.len() <= cols {
        s
    } else if cols <= 3 {
        Seq::new(cols as nat, |i: int| '.')
    } else {
        s.take(cols - 3) + "..."@
    }
}

pub fn truncate(s: &str, cols: usize) -> (r: String)
    ensures
        r@ == shortened(s@, cols as int),
        r@.len() <= cols,
{
    proof {
        reveal_strlit("...");
    }
    let c = chars_of(s);
    if c.len() <= cols {
        return s.to_owned();
    }
    let mut out = String::new();
    if cols <= 3 {
        let mut i: usize = 0;
        while i < cols
            invariant
                i <= cols,
                out@ == Seq::new(i as nat, |k: int| '.'),
            decreases cols - i,
        {
            out.push('.');
            assert(out@ =~= Seq::new((i + 1) as nat, |k: int| '.'));
            i += 1;
        }
        return out;
    }
    out = text_between(&c, 0, cols - 3);
    out.push_str("...");
    out
}

/// The words that the first `n` characters complete, and the word that they leave open.
pub struct Splitting {
    pub words: Seq<Seq<char>>,
    pub open: Seq<char>,
}

pub open spec fn closed_words(s: Splitting) -> Seq<Seq<char>> {
    if s.open.len() == 0 {
        s.words
    } else {
        s.words.push(s.open)
    }
}

pub open spec fn split(s: Seq<char>, n: int) -> Splitting
    decreases n,
{
    if n <= 0 {
        Splitting { words: Seq::empty(), open: Seq::empty() }
    } else {
        let before = split(s, n - 1);
        if is_space(s[n - 1]) {
            Splitting { words: closed_words(before), open: Seq::empty() }
        } else {
            Splitting { words: before.words, open: before.open.push(s[n - 1]) }
        }
    }
}

/// The words of a text: its longest runs without white space.
pub open spec fn words(s: Seq<char>) -> Seq<Seq<char>> {
    closed_words(split(s, s.len() as int))
}

/// Lines that are full, and the line that is being filled.
#[verifier::ext_equal]
pub struct Filling {
    pub lines: Seq<Seq<char>>,
    pub open: Seq<char>,
}

pub open spec fn closed_lines(f: Filling) -> Seq<Seq<char>> {
    if f.open.len() == 0 {
        f.lines
    } else {
        f.lines.push(f.open)
    }
}

/// Lines of exactly `cols` characters off the front of a word; the rest stays open.
pub open spec fn chopped(lines: Seq<Seq<char>>, word: Seq<char>, cols: int) -> Filling
    decreases word.len(),
{
    if cols <= 0 || word.len() <= cols {
        Filling { lines, open: word }
    } else {
        chopped(lines.push(word.take(cols)), word.skip(cols), cols)
    }
}

/// One more word: on the open line if it fits there, else on a line of its own; a word that
/// fits no line is chopped.
pub open spec fn placed(f: Filling, word: Seq<char>, cols: int) -> Filling {
    if word.len() > cols {
        chopped(closed_lines(f), word, cols)
    } else if f.open.len() == 0 {
        Filling { lines: f.lines, open: word }
    } else if f.open.len() + 1 + word.len() <= cols {
        Filling { lines: f.lines, open: f.open.push(' ') + word }
    } else {
        Filling { lines: f.lines.push(f.open), open: word }
    }
}

pub open spec fn fill(ws: Seq<Seq<char>>, cols: int, n: int) -> Filling
    decreases n,
{
    if n <= 0 {
        Filling { lines: Seq::empty(), open: Seq::empty() }
    } else {
        placed(fill(ws, cols, n - 1), ws[n - 1], cols)
    }
}

/// A text in lines of at most `cols` characters.
pub open spec fn wrapped(s: Seq<char>, cols: int) -> Seq<Seq<char>> {
    if s.len() == 0 {
        Seq::empty()
    } else if cols <= 0 {
        seq![Seq::empty()]
    } else {
        closed_lines(fill(words(s), cols, words(s).len() as int))
    }
}

fn split_words(s: &str) -> (r: Vec<Vec<char>>)
    ensures
        r@.map_values(|w: Vec<char>| w@) == words(s@),
{
    let c = chars_of(s);
    let mut out: Vec<Vec<char>> = Vec::new();
    let mut open: Vec<char> = Vec::new();
    let mut i: usize = 0;
    assert(out@.map_values(|w: Vec<char>| w@) =~= Seq::empty());
    while i < c.len()
        invariant
            i <= c.len(),
            c@ == s@,
            out@.map_values(|w: Vec<char>| w@) == split(s@, i as int).words,
            open@ == split(s@, i as int).open,
        decreases c.len() - i,
    {
        let ghost now = out@.map_values(|w: Vec<char>| w@);
        if space(c[i]) {
            if open.len() > 0 {
                let ghost word = open@;
                out.push(open);
                open = Vec::new();
                assert(out@.map_values(|w: Vec<char>| w@) =~= now.push(word));
            }
        } else {
            open.push(c[i]);
        }
        i += 1;
    }
    if open.len() > 0 {
        let ghost now = out@.map_values(|w: Vec<char>| w@);
        let ghost word = open@;
        out.push(open);
        assert(out@.map_values(|w: Vec<char>| w@) =~= now.push(word));
    }
    out
}

/// The lines so far and the one being filled.
struct Page {
    lines: Vec<String>,
    open: Vec<char>,
}

impl Page {
    spec fn model(self) -> Filling {
        Filling { lines: texts(self.lines@), open: self.open@ }
    }

    fn end_line(&mut self)
        ensures
            final(self).model().lines == closed_lines(old(self).model()),
            final(self).model().open.len() == 0,
    {
        if self.open.len() > 0 {
            let ghost now = texts(self.lines@);
            self.lines.push(text_of(&self.open));
            assert(texts(self.lines@) =~= now.push(self.open@));
            self.open = Vec::new();
        }
    }

    fn chop(&mut self, word: &Vec<char>, cols: usize)
        requires
            cols > 0,
        ensures
            final(self).model() == chopped(old(self).model().lines, word@, cols as int),
    {
        let mut a: usize = 0;
        assert(word@.skip(0) =~= word@);
        while word.len() - a > cols
            invariant
                cols > 0,
                a <= word.len(),
                chopped(texts(self.lines@), word@.skip(a as int), cols as int) == chopped(
                    old(self).model().lines,
                    word@,
                    cols as int,
                ),
            decreases word.len() - a,
        {
            let ghost now = texts(self.lines@);
            let ghost rest = word@.skip(a as int);
            self.lines.push(text_between(word, a, a + cols));
            assert(word@.subrange(a as int, a + cols) =~= rest.take(cols as int));
            assert(texts(self.lines@) =~= now.push(rest.take(cols as int)));
            assert(rest.skip(cols as int) =~= word@.skip(a + cols));
            a += cols;
        }
        let mut open: Vec<char> = Vec::new();
        let mut i: usize = a;
        while i < word.len()
            invariant
                a <= i <= word.len(),
                open@ == word@.subrange(a as int, i as int),
            decreases word.len() - i,
        {
            open.push(word[i]);
            assert(open@ =~= word@.subrange(a as int, i + 1));
            i += 1;
        }
        assert(open@ =~= word@.skip(a as int));
        self.open = open;
    }

    fn append(&mut self, word: &Vec<char>)
        ensures
            final(self).model() == (Filling {
                lines: old(self).model().lines,
                open: old(self).model().open + word@,
            }),
    {
        let mut i: usize = 0;
        assert(self.open@ =~= old(self).open@ + word@.take(0));
        while i < word.len()
            invariant
                i <= word.len(),
                self.lines == old(self).lines,
                self.open@ == old(self).open@ + word@.take(i as int),
            decreases word.len() - i,
        {
            self.open.push(word[i]);
            assert(self.open@ =~= old(self).open@ + word@.take(i + 1));
            i += 1;
        }
        assert(word@.take(word@.len() as int) =~= word@);
    }

    fn place(&mut self, word: &Vec<char>, cols: usize)
        requires
            cols > 0,
            old(self).open.len() <= cols,
        ensures
            final(self).model() == placed(old(self).model(), word@, cols as int),
            final(self).open.len() <= cols,
    {
        let ghost start = self.model();
        let n: usize = self.open.len();
        if word.len() > cols {
            self.end_line();
            self.chop(word, cols);
            proof {
                chopped_fits(closed_lines(start), word@, cols as int);
            }
        } else if n == 0 {
            self.append(word);
            assert(start.open + word@ =~= word@);
        } else if n < cols && word.len() <= cols - n - 1 {
            self.open.push(' ');
            self.append(word);
        } else {
            self.end_line();
            self.append(word);
            assert(Seq::<char>::empty() + word@ =~= word@);
            assert(self.model().open =~= word@);
        }
    }
}

/// Breaks a text into lines of at most `cols` characters, between words where possible.
pub fn wrap_text(s: &str, cols: usize) -> (r: Vec<String>)
    ensures
        texts(r@) == wrapped(s@, cols as int),
{
    if s.is_empty() {
        let r: Vec<String> = Vec::new();
        assert(texts(r@) =~= Seq::empty());
        return r;
    }
    if cols == 0 {
        let r = vec![String::new()];
        assert(texts(r@) =~= seq![Seq::empty()]);
        return r;
    }
    let ws = split_words(s);
    let ghost all = words(s@);
    let mut page = Page { lines: Vec::new(), open: Vec::new() };
    let mut i: usize = 0;
    assert(page.model() =~= fill(all, cols as int, 0));
    assert(all.len() == ws.len());
    while i < ws.len()
        invariant
            cols > 0,
            i <= ws.len(),
            all == ws@.map_values(|w: Vec<char>| w@),
            page.model() == fill(all, cols as int, i as int),
            page.open.len() <= cols,
        decreases ws.len() - i,
    {
        assert(all[i as int] == ws@[i as int]@);
        page.place(&ws[i], cols);
        i += 1;
    }
    page.end_line();
    page.lines
}

proof fn chopped_fits(lines: Seq<Seq<char>>, word: Seq<char>, cols: int)
    requires
        cols > 0,
    ensures
        chopped(lines, word, cols).open.len() <= cols,
        word.len() > 0 ==> chopped(lines, word, cols).open.len() > 0,
        chopped(lines, word, cols).lines.len() >= lines.len(),
        forall|i: int|
            0 <= i < lines.len() ==> #[trigger] chopped(lines, word, cols).lines[i] == lines[i],
        forall|i: int|
            lines.len() <= i < chopped(lines, word, cols).lines.len() ==> (
            #[trigger] chopped(lines, word, cols).lines[i]).len() == cols,
    decreases word.len(),
{
    if word.len() > cols {
        let more = lines.push(word.take(cols));
        chopped_fits(more, word.skip(cols), cols);
        let f = chopped(lines, word, cols);
        assert forall|i: int| 0 <= i < lines.len() implies #[trigger] f.lines[i] == lines[i] by {
            assert(f.lines[i] == more[i]);
        }
        assert forall|i: int| lines.len() <= i < f.lines.len() implies (
        #[trigger] f.lines[i]).len() == cols by {
            if i == lines.len() {
                assert(f.lines[i] == more[i]);
            }
        }
    }
}

/// Every line holds something and fits.
pub open spec fn fits(lines: Seq<Seq<char>>, cols: int) -> bool {
    forall|i: int| 0 <= i < lines.len() ==> 0 < (#[trigger] lines[i]).len() <= cols
}

proof fn fill_fits(ws: Seq<Seq<char>>, cols: int, n: int)
    requires
        cols > 0,
        0 <= n <= ws.len(),
    ensures
        fits(fill(ws, cols, n).lines, cols),
        fill(ws, cols, n).open.len() <= cols,
    decreases n,
{
    if n > 0 {
        fill_fits(ws, cols, n - 1);
        let f = fill(ws, cols, n - 1);
        let word = ws[n - 1];
        if word.len() > cols {
            chopped_fits(closed_lines(f), word, cols);
            let g = chopped(closed_lines(f), word, cols);
            assert forall|i: int| 0 <= i < g.lines.len() implies 0 < (#[trigger] g.lines[i]).len()
                <= cols by {
                if i < closed_lines(f).len() {
                    assert(g.lines[i] == closed_lines(f)[i]);
                }
            }
        }
    }
}

/// No line is wider than the columns given, and with at least one column no line is empty.
pub proof fn lines_fit(s: Seq<char>, cols: nat)
    ensures
        forall|i: int|
            0 <= i < wrapped(s, cols as int).len() ==> (#[trigger] wrapped(s, cols as int)[i]).len()
                <= cols,
        cols > 0 ==> fits(wrapped(s, cols as int), cols as int),
{
    if s.len() > 0 && cols > 0 {
        fill_fits(words(s), cols as int, words(s).len() as int);
    }
}

/// What a text says, white space left out.
pub open spec fn solid(s: Seq<char>) -> Seq<char>
    decreases s.len(),
{
    if s.len() == 0 {
        Seq::empty()
    } else if is_space(s.last()) {
        solid(s.drop_last())
    } else {
        solid(s.drop_last()).push(s.last())
    }
}

/// What a series of texts says, white space left out.
pub open spec fn solid_all(parts: Seq<Seq<char>>) -> Seq<char>
    decreases parts.len(),
{
    if parts.len() == 0 {
        Seq::empty()
    } else {
        solid_all(parts.drop_last()) + solid(parts.last())
    }
}

proof fn solid_adds(a: Seq<char>, b: Seq<char>)
    ensures
        solid(a + b) == solid(a) + solid(b),
    decreases b.len(),
{
    if b.len() == 0 {
        assert(a + b =~= a);
        assert(solid(a) + solid(b) =~= solid(a));
    } else {
        solid_adds(a, b.drop_last());
        assert((a + b).drop_last() =~= a + b.drop_last());
        assert((a + b).last() == b.last());
        assert(solid(a + b) =~= solid(a) + solid(b));
    }
}

proof fn solid_pushes(parts: Seq<Seq<char>>, p: Seq<char>)
    ensures
        solid_all(parts.push(p)) == solid_all(parts) + solid(p),
{
    assert(parts.push(p).drop_last() =~= parts);
}

proof fn closing_keeps(f: Filling)
    ensures
        solid_all(closed_lines(f)) == solid_all(f.lines) + solid(f.open),
{
    if f.open.len() > 0 {
        solid_pushes(f.lines, f.open);
    } else {
        assert(solid_all(f.lines) + solid(f.open) =~= solid_all(f.lines));
    }
}

proof fn chopping_keeps(lines: Seq<Seq<char>>, word: Seq<char>, cols: int)
    ensures
        solid_all(chopped(lines, word, cols).lines) + solid(chopped(lines, word, cols).open)
            == solid_all(lines) + solid(word),
    decreases word.len(),
{
    if cols > 0 && word.len() > cols {
        chopping_keeps(lines.push(word.take(cols)), word.skip(cols), cols);
        solid_pushes(lines, word.take(cols));
        solid_adds(word.take(cols), word.skip(cols));
        assert(word.take(cols) + word.skip(cols) =~= word);
        assert((solid_all(lines) + solid(word.take(cols))) + solid(word.skip(cols)) =~= solid_all(
            lines,
        ) + (solid(word.take(cols)) + solid(word.skip(cols))));
    }
}

proof fn filling_keeps(ws: Seq<Seq<char>>, cols: int, n: int)
    requires
        0 <= n <= ws.len(),
    ensures
        solid_all(fill(ws, cols, n).lines) + solid(fill(ws, cols, n).open) == solid_all(ws.take(n)),
    decreases n,
{
    if n == 0 {
        assert(ws.take(0) =~= Seq::empty());
        assert(solid_all(fill(ws, cols, n).lines) + solid(fill(ws, cols, n).open) =~= Seq::empty());
    } else {
        filling_keeps(ws, cols, n - 1);
        let f = fill(ws, cols, n - 1);
        let word = ws[n - 1];
        let g = placed(f, word, cols);
        assert(ws.take(n) =~= ws.take(n - 1).push(word));
        solid_pushes(ws.take(n - 1), word);
        if word.len() > cols {
            chopping_keeps(closed_lines(f), word, cols);
            closing_keeps(f);
        } else if f.open.len() == 0 {
            assert(solid_all(f.lines) + solid(f.open) =~= solid_all(f.lines));
        } else if f.open.len() + 1 + word.len() <= cols {
            let spaced = f.open.push(' ');
            assert(spaced.drop_last() =~= f.open);
            assert(is_space(' '));
            solid_adds(spaced, word);
            assert(solid_all(f.lines) + (solid(f.open) + solid(word)) =~= (solid_all(f.lines)
                + solid(f.open)) + solid(word));
        } else {
            solid_pushes(f.lines, f.open);
        }
    }
}

proof fn splitting_keeps(s: Seq<char>, n: int)
    requires
        0 <= n <= s.len(),
    ensures
        solid_all(closed_words(split(s, n))) == solid(s.take(n)),
        solid_all(split(s, n).words) + solid(split(s, n).open) == solid(s.take(n)),
        solid(split(s, n).open) == split(s, n).open,
    decreases n,
{
    let f = split(s, n);
    if n == 0 {
        assert(s.take(0) =~= Seq::empty());
        assert(solid_all(f.words) + solid(f.open) =~= Seq::empty());
    } else {
        splitting_keeps(s, n - 1);
        let before = split(s, n - 1);
        assert(s.take(n).drop_last() =~= s.take(n - 1));
        assert(s.take(n).last() == s[n - 1]);
        if is_space(s[n - 1]) {
            assert(solid_all(f.words) + solid(f.open) =~= solid_all(f.words));
        } else {
            assert(f.open.drop_last() =~= before.open);
            assert(solid(f.open) =~= before.open.push(s[n - 1]));
            assert(solid_all(f.words) + solid(f.open) =~= (solid_all(before.words) + solid(
                before.open,
            )).push(s[n - 1]));
        }
    }
    if f.open.len() > 0 {
        solid_pushes(f.words, f.open);
    } else {
        assert(solid_all(f.words) + solid(f.open) =~= solid_all(f.words));
    }
}

/// Wrapping loses and adds nothing but white space.
pub proof fn wrapping_keeps_the_text(s: Seq<char>, cols: nat)
    requires
        cols > 0,
    ensures
        solid_all(wrapped(s, cols as int)) == solid(s),
{
    let ws = words(s);
    splitting_keeps(s, s.len() as int);
    assert(s.take(s.len() as int) =~= s);
    if s.len() > 0 {
        filling_keeps(ws, cols as int, ws.len() as int);
        assert(ws.take(ws.len() as int) =~= ws);
        closing_keeps(fill(ws, cols as int, ws.len() as int));
    }
}

} // verus!
