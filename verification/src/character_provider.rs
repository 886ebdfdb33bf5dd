//! The position-tracked character stream: filters whitespace and `//` line
//! comments, offers one-character raw lookahead, and reports the 1-based
//! position of the last returned character.

use vstd::prelude::*;

use crate::text::{chars_of, is_space, spec_is_space};

verus! {

/// One step of position tracking: a newline moves to the start of the next
/// line, any other character advances the column.
pub open spec fn spec_advance(line: int, column: int, c: char) -> (int, int) {
    if c == '\n' {
        (line + 1, 0)
    } else {
        (line, column + 1)
    }
}

/// Position tracking folded over a run of consumed characters.
pub open spec fn spec_advance_seq(line: int, column: int, s: Seq<char>) -> (int, int)
    decreases s.len(),
{
    if s.len() == 0 {
        (line, column)
    } else {
        let prev = spec_advance_seq(line, column, s.drop_last());
        spec_advance(prev.0, prev.1, s.last())
    }
}

/// The first index at or after `i` whose character is not whitespace.
pub open spec fn spec_skip_spaces(s: Seq<char>, i: int) -> int
    recommends
        0 <= i <= s.len(),
    decreases s.len() - i,
{
    if i < s.len() && spec_is_space(s[i]) {
        spec_skip_spaces(s, i + 1)
    } else {
        i
    }
}

/// The first index at or after `i` holding a newline, or the length when
/// none is left.
pub open spec fn spec_find_newline(s: Seq<char>, i: int) -> int
    recommends
        0 <= i <= s.len(),
    decreases s.len() - i,
{
    if i < s.len() {
        if s[i] == '\n' {
            i
        } else {
            spec_find_newline(s, i + 1)
        }
    } else {
        i
    }
}

/// The filter pipeline of one `next` call: skip whitespace; if the stream
/// then starts a `//` comment, skip through its terminating newline and skip
/// whitespace again; then consume and return one character. Yields the
/// returned character (`None` at end of input) and the new cursor.
pub open spec fn spec_filtered_next(s: Seq<char>, i: int) -> (Option<char>, int)
    recommends
        0 <= i <= s.len(),
{
    let j = spec_skip_spaces(s, i);
    if j + 1 < s.len() && s[j] == '/' && s[j + 1] == '/' {
        let k = spec_find_newline(s, j + 2);
        if k < s.len() {
            let j2 = spec_skip_spaces(s, k + 1);
            if j2 < s.len() {
                (Some(s[j2]), j2 + 1)
            } else {
                (None, j2)
            }
        } else {
            (None, k)
        }
    } else if j < s.len() {
        (Some(s[j]), j + 1)
    } else {
        (None, j)
    }
}

pub proof fn lemma_skip_spaces_range(s: Seq<char>, i: int)
    requires
        0 <= i <= s.len(),
    ensures
        i <= spec_skip_spaces(s, i) <= s.len(),
    decreases s.len() - i,
{
    if i < s.len() && spec_is_space(s[i]) {
        lemma_skip_spaces_range(s, i + 1);
    }
}

pub proof fn lemma_find_newline_range(s: Seq<char>, i: int)
    requires
        0 <= i <= s.len(),
    ensures
        i <= spec_find_newline(s, i) <= s.len(),
    decreases s.len() - i,
{
    if i < s.len() && s[i] != '\n' {
        lemma_find_newline_range(s, i + 1);
    }
}

/// The filter pipeline stays within the source: it never moves the cursor
/// backwards, a returned character is the one just before the new cursor,
/// and `None` means the whole source is consumed.
pub proof fn lemma_filtered_next_range(s: Seq<char>, i: int)
    requires
        0 <= i <= s.len(),
    ensures
        i <= spec_filtered_next(s, i).1 <= s.len(),
        spec_filtered_next(s, i).0 is Some ==> i < spec_filtered_next(s, i).1
            && spec_filtered_next(s, i).0 == Some(s[spec_filtered_next(s, i).1 - 1]),
        spec_filtered_next(s, i).0 is None ==> spec_filtered_next(s, i).1 == s.len(),
{
    let j = spec_skip_spaces(s, i);
    lemma_skip_spaces_range(s, i);
    if j + 1 < s.len() && s[j] == '/' && s[j + 1] == '/' {
        lemma_find_newline_range(s, j + 2);
        let k = spec_find_newline(s, j + 2);
        if k < s.len() {
            lemma_skip_spaces_range(s, k + 1);
        }
    }
}

/// A cursor over the source text with 1-based position tracking.
pub struct CharacterProvider {
    chars: Vec<char>,
    cursor: usize,
    line: u32,
    column: u32,
}

impl CharacterProvider {
    /// The source text.
    pub closed spec fn src(self) -> Seq<char> {
        self.chars@
    }

    /// How many characters have been consumed.
    pub closed spec fn spec_cursor(self) -> int {
        self.cursor as int
    }

    /// The line of the last returned character (1 before anything returned).
    pub closed spec fn spec_line(self) -> int {
        self.line as int
    }

    /// The column of the last returned character (0 at the start of a line).
    pub closed spec fn spec_column(self) -> int {
        self.column as int
    }

    pub open spec fn wf(self) -> bool {
        &&& 0 <= self.spec_cursor() <= self.src().len()
        &&& self.src().len() <= 0xFFFF_0000
        &&& self.spec_line() >= 1
        &&& self.spec_column() >= 0
        &&& (self.spec_line() - 1) + self.spec_column() <= self.spec_cursor()
    }

    /// A provider at the start of `source`, on line 1 before column 1.
    pub fn new(source: &str) -> (r: CharacterProvider)
        requires
            source@.len() <= 0xFFFF_0000,
        ensures
            r.wf(),
            r.src() == source@,
            r.spec_cursor() == 0,
            r.spec_line() == 1,
            r.spec_column() == 0,
    {
        CharacterProvider { chars: chars_of(source), cursor: 0, line: 1, column: 0 }
    }

    pub fn current_line(&self) -> (r: u32)
        ensures
            r as int == self.spec_line(),
    {
        self.line
    }

    pub fn current_column(&self) -> (r: u32)
        ensures
            r as int == self.spec_column(),
    {
        self.column
    }

    /// Raw one-character lookahead: the next unconsumed character, with no
    /// filtering and nothing consumed.
    pub fn peek(&self) -> (r: Option<char>)
        requires
            self.wf(),
        ensures
            r == (if self.spec_cursor() < self.src().len() {
                Some(self.src()[self.spec_cursor()])
            } else {
                None::<char>
            }),
    {
        if self.cursor < self.chars.len() {
            Some(self.chars[self.cursor])
        } else {
            None
        }
    }

    /// Consumes one raw character, tracking its position; no filtering.
    pub fn next_with_spaces(&mut self) -> (r: Option<char>)
        requires
            old(self).wf(),
        ensures
            final(self).wf(),
            final(self).src() == old(self).src(),
            old(self).spec_cursor() < old(self).src().len() ==> {
                &&& r == Some(old(self).src()[old(self).spec_cursor()])
                &&& final(self).spec_cursor() == old(self).spec_cursor() + 1
                &&& (final(self).spec_line(), final(self).spec_column()) == spec_advance(
                    old(self).spec_line(),
                    old(self).spec_column(),
                    old(self).src()[old(self).spec_cursor()],
                )
            },
            old(self).spec_cursor() >= old(self).src().len() ==> r == None::<char> && *final(self)
                == *old(self),
    {
        if self.cursor < self.chars.len() {
            let c: char = self.chars[self.cursor];
            self.cursor = self.cursor + 1;
            if c == '\n' {
                self.line = self.line + 1;
                self.column = 0;
            } else {
                self.column = self.column + 1;
            }
            Some(c)
        } else {
            None
        }
    }

    /// Consumes whitespace characters up to the next non-whitespace one.
    fn filter_whitespace(&mut self)
        requires
            old(self).wf(),
        ensures
            final(self).wf(),
            final(self).src() == old(self).src(),
            final(self).spec_cursor() == spec_skip_spaces(old(self).src(), old(self).spec_cursor()),
            (final(self).spec_line(), final(self).spec_column()) == spec_advance_seq(
                old(self).spec_line(),
                old(self).spec_column(),
                old(self).src().subrange(old(self).spec_cursor(), final(self).spec_cursor()),
            ),
    {
        proof {
            assert(old(self).src().subrange(
                old(self).spec_cursor(),
                old(self).spec_cursor(),
            ) =~= Seq::<char>::empty());
        }
        loop
            invariant
                self.wf(),
                self.src() == old(self).src(),
                old(self).spec_cursor() <= self.spec_cursor(),
                spec_skip_spaces(self.src(), self.spec_cursor()) == spec_skip_spaces(
                    old(self).src(),
                    old(self).spec_cursor(),
                ),
                (self.spec_line(), self.spec_column()) == spec_advance_seq(
                    old(self).spec_line(),
                    old(self).spec_column(),
                    old(self).src().subrange(old(self).spec_cursor(), self.spec_cursor()),
                ),
            ensures
                spec_skip_spaces(self.src(), self.spec_cursor()) == self.spec_cursor(),
            decreases self.src().len() - self.spec_cursor(),
        {
            if self.cursor < self.chars.len() {
                let c: char = self.chars[self.cursor];
                if is_space(c) {
                    let ghost pre = *self;
                    let _taken = self.next_with_spaces();
                    proof {
                        let s = old(self).src();
                        let a = old(self).spec_cursor();
                        assert(s.subrange(a, self.spec_cursor()).drop_last() =~= s.subrange(
                            a,
                            pre.spec_cursor(),
                        ));
                        assert(s.subrange(a, self.spec_cursor()).last() == s[pre.spec_cursor()]);
                    }
                    continue ;
                }
            }
            proof {
                assert(spec_skip_spaces(self.src(), self.spec_cursor()) == self.spec_cursor());
            }
            break ;
        }
    }

    /// Consumes characters through the next newline; at end of input it
    /// consumes everything that is left.
    fn filter_comments(&mut self)
        requires
            old(self).wf(),
        ensures
            final(self).wf(),
            final(self).src() == old(self).src(),
            final(self).spec_cursor() == ({
                let k = spec_find_newline(old(self).src(), old(self).spec_cursor());
                if k < old(self).src().len() {
                    k + 1
                } else {
                    k
                }
            }),
            (final(self).spec_line(), final(self).spec_column()) == spec_advance_seq(
                old(self).spec_line(),
                old(self).spec_column(),
                old(self).src().subrange(old(self).spec_cursor(), final(self).spec_cursor()),
            ),
    {
        proof {
            assert(old(self).src().subrange(
                old(self).spec_cursor(),
                old(self).spec_cursor(),
            ) =~= Seq::<char>::empty());
            lemma_find_newline_range(old(self).src(), old(self).spec_cursor());
        }
        loop
            invariant_except_break
                spec_find_newline(self.src(), self.spec_cursor()) == spec_find_newline(
                    old(self).src(),
                    old(self).spec_cursor(),
                ),
                self.spec_cursor() <= spec_find_newline(old(self).src(), old(self).spec_cursor()),
            invariant
                self.wf(),
                self.src() == old(self).src(),
                old(self).spec_cursor() <= self.spec_cursor(),
                (self.spec_line(), self.spec_column()) == spec_advance_seq(
                    old(self).spec_line(),
                    old(self).spec_column(),
                    old(self).src().subrange(old(self).spec_cursor(), self.spec_cursor()),
                ),
            ensures
                self.spec_cursor() == ({
                    let k = spec_find_newline(old(self).src(), old(self).spec_cursor());
                    if k < old(self).src().len() {
                        k + 1
                    } else {
                        k
                    }
                }),
            decreases self.src().len() - self.spec_cursor(),
        {
            let ghost pre = *self;
            let r = self.next_with_spaces();
            proof {
                if pre.spec_cursor() < pre.src().len() {
                    let s = old(self).src();
                    let a = old(self).spec_cursor();
                    assert(s.subrange(a, self.spec_cursor()).drop_last() =~= s.subrange(
                        a,
                        pre.spec_cursor(),
                    ));
                    assert(s.subrange(a, self.spec_cursor()).last() == s[pre.spec_cursor()]);
                }
            }
            match r {
                None => {
                    break ;
                },
                Some(c) => {
                    if c == '\n' {
                        break ;
                    }
                    proof {
                        lemma_find_newline_range(self.src(), self.spec_cursor());
                    }
                },
            }
        }
    }

    /// Consumes and returns the next character after the filter pipeline:
    /// whitespace is skipped, a `//` comment is skipped through its
    /// terminating newline with a second whitespace skip after it. Returns
    /// `None` once the input is exhausted. Performs no error detection.
    pub fn next(&mut self) -> (r: Option<char>)
        requires
            old(self).wf(),
        ensures
            final(self).wf(),
            final(self).src() == old(self).src(),
            r == spec_filtered_next(old(self).src(), old(self).spec_cursor()).0,
            final(self).spec_cursor() == spec_filtered_next(
                old(self).src(),
                old(self).spec_cursor(),
            ).1,
            (final(self).spec_line(), final(self).spec_column()) == spec_advance_seq(
                old(self).spec_line(),
                old(self).spec_column(),
                old(self).src().subrange(old(self).spec_cursor(), final(self).spec_cursor()),
            ),
    {
        let ghost s = old(self).src();
        let ghost a = old(self).spec_cursor();
        let ghost l0 = old(self).spec_line();
        let ghost c0 = old(self).spec_column();
        proof {
            lemma_skip_spaces_range(s, a);
        }
        self.filter_whitespace();
        let ghost after_ws = *self;
        let comment = if self.cursor + 1 < self.chars.len() {
            self.chars[self.cursor] == '/' && self.chars[self.cursor + 1] == '/'
        } else {
            false
        };
        if comment {
            proof {
                lemma_find_newline_range(s, after_ws.spec_cursor());
                lemma_find_newline_range(s, after_ws.spec_cursor() + 2);
                assert(spec_find_newline(s, after_ws.spec_cursor() + 1) == spec_find_newline(
                    s,
                    after_ws.spec_cursor() + 2,
                ));
                assert(spec_find_newline(s, after_ws.spec_cursor()) == spec_find_newline(
                    s,
                    after_ws.spec_cursor() + 1,
                ));
            }
            self.filter_comments();
            let ghost after_nl = *self;
            proof {
                lemma_advance_subranges(
                    l0,
                    c0,
                    s,
                    a,
                    after_ws.spec_cursor(),
                    after_nl.spec_cursor(),
                    after_ws.spec_line(),
                    after_ws.spec_column(),
                );
                lemma_skip_spaces_range(s, after_nl.spec_cursor());
            }
            self.filter_whitespace();
            proof {
                lemma_advance_subranges(
                    l0,
                    c0,
                    s,
                    a,
                    after_nl.spec_cursor(),
                    self.spec_cursor(),
                    after_nl.spec_line(),
                    after_nl.spec_column(),
                );
            }
        }
        let ghost before_take = *self;
        proof {
            assert((before_take.spec_line(), before_take.spec_column()) == spec_advance_seq(
                l0,
                c0,
                s.subrange(a, before_take.spec_cursor()),
            ));
        }
        let r = self.next_with_spaces();
        proof {
            lemma_advance_subranges(
                l0,
                c0,
                s,
                a,
                before_take.spec_cursor(),
                self.spec_cursor(),
                before_take.spec_line(),
                before_take.spec_column(),
            );
            let ghost ml = before_take.spec_line();
            let ghost mc = before_take.spec_column();
            assert(spec_advance_seq(ml, mc, Seq::<char>::empty()) == (ml, mc));
            if before_take.spec_cursor() < s.len() {
                let one = s.subrange(before_take.spec_cursor(), self.spec_cursor());
                assert(one.len() == 1);
                assert(one.drop_last() =~= Seq::<char>::empty());
                assert(one.last() == s[before_take.spec_cursor()]);
                assert(spec_advance_seq(ml, mc, one) == spec_advance(
                    ml,
                    mc,
                    s[before_take.spec_cursor()],
                ));
            } else {
                assert(s.subrange(before_take.spec_cursor(), self.spec_cursor())
                    =~= Seq::<char>::empty());
            }
        }
        r
    }
}

/// Position tracking composes over adjacent consumed runs.
pub proof fn lemma_advance_seq_concat(line: int, column: int, s: Seq<char>, t: Seq<char>)
    ensures
        spec_advance_seq(line, column, s + t) == spec_advance_seq(
            spec_advance_seq(line, column, s).0,
            spec_advance_seq(line, column, s).1,
            t,
        ),
    decreases t.len(),
{
    if t.len() == 0 {
        assert(s + t =~= s);
    } else {
        assert((s + t).drop_last() =~= s + t.drop_last());
        assert((s + t).last() == t.last());
        lemma_advance_seq_concat(line, column, s, t.drop_last());
    }
}

pub proof fn lemma_advance_subranges(
    line: int,
    column: int,
    s: Seq<char>,
    a: int,
    b: int,
    c: int,
    mid_line: int,
    mid_column: int,
)
    requires
        0 <= a <= b <= c <= s.len(),
        (mid_line, mid_column) == spec_advance_seq(line, column, s.subrange(a, b)),
    ensures
        spec_advance_seq(line, column, s.subrange(a, c)) == spec_advance_seq(
            mid_line,
            mid_column,
            s.subrange(b, c),
        ),
{
    assert(s.subrange(a, c) =~= s.subrange(a, b) + s.subrange(b, c));
    lemma_advance_seq_concat(line, column, s.subrange(a, b), s.subrange(b, c));
}

} // verus!
