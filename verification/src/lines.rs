//! Lines of a text, and a cursor that hands them out one by one.
//!
//! A line ends at a line feed, or at the end of the text. The line feed is
//! not part of the line, nor is a carriage return that stands directly
//! before it. A text that ends with a line feed has no empty last line.
use vstd::prelude::*;
use vstd::std_specs::iter::IteratorSpec;

verus! {

/// The first position of `s` whose item meets `p`; the length of `s` if no
/// item does.
pub open spec fn first_index_where<T>(s: Seq<T>, p: spec_fn(T) -> bool) -> int
    decreases s.len(),
{
    if s.len() == 0 || p(s[0]) {
        0
    } else {
        1 + first_index_where(s.skip(1), p)
    }
}

/// A position that meets `p`, with none before it that does, is the first.
pub proof fn lemma_first_index_where<T>(s: Seq<T>, p: spec_fn(T) -> bool, n: int)
    requires
        0 <= n <= s.len(),
        forall|i: int| 0 <= i < n ==> !p(#[trigger] s[i]),
        n == s.len() || p(s[n]),
    ensures
        first_index_where(s, p) == n,
    decreases n,
{
    if n > 0 {
        let t = s.skip(1);
        assert forall|i: int| 0 <= i < n - 1 implies !p(#[trigger] t[i]) by {
            assert(t[i] == s[i + 1]);
        }
        lemma_first_index_where(t, p, n - 1);
    }
}

/// What `first_index_where` gives: a position in range, at which `p` holds
/// unless it is the length, and before which it holds nowhere.
pub proof fn lemma_first_index_where_is_first<T>(s: Seq<T>, p: spec_fn(T) -> bool)
    ensures
        0 <= first_index_where(s, p) <= s.len(),
        first_index_where(s, p) < s.len() ==> p(s[first_index_where(s, p)]),
        forall|i: int| 0 <= i < first_index_where(s, p) ==> !p(#[trigger] s[i]),
    decreases s.len(),
{
    if s.len() == 0 || p(s[0]) {
    } else {
        let t = s.skip(1);
        lemma_first_index_where_is_first(t, p);
        let n = first_index_where(s, p);
        assert forall|i: int| 0 <= i < n implies !p(#[trigger] s[i]) by {
            if i > 0 {
                assert(s[i] == t[i - 1]);
            }
        }
    }
}

/// The character that ends a line.
pub open spec fn is_line_feed(c: char) -> bool {
    c == '\n'
}

/// The number of characters before the first line feed of `s`.
pub open spec fn line_feed_index(s: Seq<char>) -> int {
    first_index_where(s, |c: char| is_line_feed(c))
}

/// The first line of a text that is not empty.
pub open spec fn first_line(s: Seq<char>) -> Seq<char> {
    let n = line_feed_index(s);
    if 0 < n < s.len() && s[n - 1] == '\r' {
        s.take(n - 1)
    } else {
        s.take(n)
    }
}

/// What follows the first line and its line feed.
pub open spec fn after_first_line(s: Seq<char>) -> Seq<char> {
    let n = line_feed_index(s);
    if n < s.len() {
        s.skip(n + 1)
    } else {
        Seq::empty()
    }
}

/// The lines of a text, in order.
pub open spec fn split_lines(s: Seq<char>) -> Seq<Seq<char>>
    decreases s.len(),
    via split_lines_decreases
{
    if s.len() == 0 {
        Seq::empty()
    } else {
        seq![first_line(s)] + split_lines(after_first_line(s))
    }
}

#[via_fn]
proof fn split_lines_decreases(s: Seq<char>) {
    lemma_first_index_where_is_first(s, |c: char| is_line_feed(c));
}

/// The characters of a text.
pub fn chars_of(text: &str) -> (r: Vec<char>)
    ensures
        r@ == text@,
{
    let mut r: Vec<char> = Vec::new();
    let chars = text.chars();
    for c in it: chars
        invariant
            r@ == it.history(),
            it.seq() == text@,
    {
        r.push(c);
    }
    assert(r@ =~= text@);
    r
}

/// The text that is made of the given characters.
///
/// Calls `String::from_iter` of std on the characters. The contract claims
/// that the string holds exactly these characters, in this order.
#[verifier::external_body]
pub(crate) fn string_of(chars: &[char]) -> (r: String)
    ensures
        r@ == chars@,
{
    String::from_iter(chars)
}

/// A text, and how far it has been read. It hands out the lines that are
/// left, first to last.
pub struct CGILines {
    text: Vec<char>,
    pos: usize,
}

impl CGILines {
    /// The cursor never stands behind the end of its text.
    #[verifier::type_invariant]
    spec fn well_formed(&self) -> bool {
        self.pos <= self.text@.len()
    }

    /// The part of the text that has not been read.
    pub closed spec fn remaining(&self) -> Seq<char> {
        self.text@.skip(self.pos as int)
    }

    /// The lines that have not been handed out.
    pub open spec fn lines(&self) -> Seq<Seq<char>> {
        split_lines(self.remaining())
    }

    /// A cursor at the start of a text.
    pub fn new(text: &str) -> (r: CGILines)
        ensures
            r.remaining() == text@,
    {
        let text = chars_of(text);
        let r = CGILines { text, pos: 0 };
        assert(r.text@.skip(0) =~= r.text@);
        r
    }

    /// Hands out the next line, if one is left.
    pub fn next_line(&mut self) -> (r: Option<Vec<char>>)
        ensures
            old(self).remaining().len() == 0 ==> r is None && final(self).remaining().len() == 0,
            old(self).remaining().len() > 0 ==> r is Some && r->Some_0@ == first_line(
                old(self).remaining(),
            ) && final(self).remaining() == after_first_line(old(self).remaining()),
            r is Some <==> old(self).lines().len() > 0,
            r matches Some(line) ==> line@ == old(self).lines()[0] && final(self).lines() == old(
                self,
            ).lines().skip(1),
            r is None ==> final(self).lines() == old(self).lines(),
    {
        proof {
            use_type_invariant(&*self);
        }
        let n: usize = self.text.len();
        let start: usize = self.pos;
        let ghost rest = self.remaining();
        if start == n {
            assert(rest.len() == 0);
            return None;
        }
        let mut end: usize = start;
        while end < n && self.text[end] != '\n'
            invariant
                start <= end <= n,
                n == self.text@.len(),
                forall|i: int| start <= i < end ==> self.text@[i] != '\n',
            decreases n - end,
        {
            end += 1;
        }
        proof {
            let p = |c: char| is_line_feed(c);
            assert forall|i: int| 0 <= i < end - start implies !p(#[trigger] rest[i]) by {
                assert(rest[i] == self.text@[start + i]);
            }
            lemma_first_index_where(rest, p, end - start);
        }
        let stop: usize = if end < n && start < end && self.text[end - 1] == '\r' {
            end - 1
        } else {
            end
        };
        let mut line: Vec<char> = Vec::new();
        let mut i: usize = start;
        while i < stop
            invariant
                start <= i <= stop <= n,
                n == self.text@.len(),
                line@ == self.text@.subrange(start as int, i as int),
            decreases stop - i,
        {
            line.push(self.text[i]);
            proof {
                assert(line@ =~= self.text@.subrange(start as int, i + 1));
            }
            i += 1;
        }
        self.pos = if end < n {
            end + 1
        } else {
            n
        };
        proof {
            assert(line@ =~= first_line(rest));
            assert(self.remaining() =~= after_first_line(rest));
            assert((seq![first_line(rest)] + split_lines(after_first_line(rest))).skip(1)
                =~= split_lines(after_first_line(rest)));
        }
        Some(line)
    }

    /// The lines that are left, one after the other with nothing between
    /// them.
    pub fn collect(self) -> (r: String)
        ensures
            r@ == self.lines().flatten(),
    {
        let ghost all = self.lines();
        let mut rest = self;
        let mut body: Vec<char> = Vec::new();
        loop
            invariant
                all == self.lines(),
                body@ + rest.lines().flatten() == all.flatten(),
            decreases rest.lines().len(),
        {
            let ghost before = rest.lines();
            match rest.next_line() {
                None => {
                    assert(body@ =~= all.flatten());
                    return string_of(body.as_slice());
                },
                Some(line) => {
                    let mut line = line;
                    proof {
                        assert(before.flatten() == before[0] + before.skip(1).flatten());
                        assert(body@ + line@ + rest.lines().flatten() =~= body@ + (line@
                            + rest.lines().flatten()));
                    }
                    body.append(&mut line);
                },
            }
        }
    }
}

} // verus!
