//! The indentation writer: text passes through it unchanged except that every
//! character beginning a line is preceded by the indent.

use vstd::prelude::*;
use vstd::string::StringExecFns;

verus! {

/// Width of one indentation unit, in characters.
pub const INDENT: usize = 4;

/// The state of one indentation writer.
#[derive(Clone, Copy)]
pub struct PadAdapterState {
    /// Whether the writer stands at the start of a line, so that the next
    /// character is to be indented.
    pub on_newline: bool,
}

impl Default for PadAdapterState {
    /// A writer begins at the start of a line.
    fn default() -> (state: Self)
        ensures
            state.on_newline,
    {
        PadAdapterState { on_newline: true }
    }
}

/// Appends one character to a string: `String::push` of the standard library,
/// which adds `c` at the end and leaves what was there as it is.
#[verifier::external_body]
pub(crate) fn push_char(s: &mut String, c: char)
    ensures
        final(s)@ == old(s)@.push(c),
{
    s.push(c)
}

/// The indent in force: one unit in pretty layout, nothing in flat layout.
pub open spec fn indent_width(pretty: bool) -> nat {
    if pretty {
        INDENT as nat
    } else {
        0
    }
}

/// `n` spaces.
pub open spec fn spaces(n: nat) -> Seq<char> {
    Seq::new(n, |i: int| ' ')
}

/// Whether a writer that was at a line start iff `on_newline` is at one
/// once `s` has passed through it.
pub open spec fn on_newline_after(s: Seq<char>, on_newline: bool) -> bool {
    if s.len() == 0 {
        on_newline
    } else {
        s.last() == '\n'
    }
}

/// What an indentation writer of the given `width` hands on for `s`: the
/// characters of `s` in order, each one that begins a line preceded by
/// `width` spaces. A character begins a line if it follows a line break, or
/// if it comes first and the writer was at a line start.
pub open spec fn padded(s: Seq<char>, on_newline: bool, width: nat) -> Seq<char>
    decreases s.len(),
{
    if s.len() == 0 {
        Seq::empty()
    } else {
        let front = s.drop_last();
        let indent = if on_newline_after(front, on_newline) {
            spaces(width)
        } else {
            Seq::empty()
        };
        padded(front, on_newline, width) + indent.push(s.last())
    }
}

impl PadAdapterState {
    /// Passes `s` through the writer: returns what it hands on, and leaves
    /// the writer at a line start iff the last character that passed was a
    /// line break.
    pub fn write_str(&mut self, s: &str, pretty: bool) -> (out: String)
        ensures
            out@ == padded(s@, old(self).on_newline, indent_width(pretty)),
            final(self).on_newline == on_newline_after(s@, old(self).on_newline),
    {
        let ghost width = indent_width(pretty);
        let ghost start = self.on_newline;
        let mut out = String::new();
        for c in it: s.chars()
            invariant
                it.seq() == s@,
                width == indent_width(pretty),
                out@ == padded(s@.take(it.index()), start, width),
                self.on_newline == on_newline_after(s@.take(it.index()), start),
        {
            let ghost seen = s@.take(it.index());
            let ghost next = s@.take(it.index() + 1);
            proof {
                assert(next.drop_last() =~= seen);
                assert(next.last() == c);
            }
            if self.on_newline && pretty {
                proof {
                    reveal_strlit("    ");
                    assert("    "@ =~= spaces(INDENT as nat));
                }
                out.append("    ");
            }
            push_char(&mut out, c);
            self.on_newline = c == '\n';
            proof {
                assert(spaces(0) =~= Seq::<char>::empty());
                let indent = if on_newline_after(seen, start) {
                    spaces(width)
                } else {
                    Seq::empty()
                };
                assert(out@ =~= padded(seen, start, width) + indent.push(c));
            }
        }
        proof {
            assert(s@.take(s@.len() as int) =~= s@);
        }
        out
    }
}

/// Writing `a` and then `b` through a writer is writing `a + b` through it.
pub proof fn lemma_padded_concat(a: Seq<char>, b: Seq<char>, on_newline: bool, width: nat)
    ensures
        padded(a + b, on_newline, width) == padded(a, on_newline, width) + padded(
            b,
            on_newline_after(a, on_newline),
            width,
        ),
        on_newline_after(a + b, on_newline) == on_newline_after(
            b,
            on_newline_after(a, on_newline),
        ),
    decreases b.len(),
{
    if b.len() == 0 {
        assert(a + b =~= a);
        assert(padded(a, on_newline, width) + Seq::<char>::empty() =~= padded(
            a,
            on_newline,
            width,
        ));
    } else {
        let front = b.drop_last();
        lemma_padded_concat(a, front, on_newline, width);
        assert((a + b).drop_last() =~= a + front);
        assert((a + b).last() == b.last());
        let mid = on_newline_after(a, on_newline);
        let indent = if on_newline_after(front, mid) {
            spaces(width)
        } else {
            Seq::empty()
        };
        assert(padded(a + b, on_newline, width) =~= padded(a, on_newline, width) + (padded(
            front,
            mid,
            width,
        ) + indent.push(b.last())));
    }
}

/// What was handed on ends as what came in ends, and is empty only if that was.
pub proof fn lemma_padded_end(s: Seq<char>, on_newline: bool, width: nat)
    ensures
        padded(s, on_newline, width).len() >= s.len(),
        s.len() > 0 ==> padded(s, on_newline, width).last() == s.last(),
        forall|b: bool| on_newline_after(padded(s, on_newline, width), b) == on_newline_after(s, b),
    decreases s.len(),
{
    if s.len() > 0 {
        lemma_padded_end(s.drop_last(), on_newline, width);
    }
}

/// What reaches the sink when `s` is written through a chain of indentation
/// writers, the outermost first: each hands its output to the one before it.
pub open spec fn through(pads: Seq<PadAdapterState>, s: Seq<char>, width: nat) -> Seq<char>
    decreases pads.len(),
{
    if pads.len() == 0 {
        s
    } else {
        through(pads.drop_last(), padded(s, pads.last().on_newline, width), width)
    }
}

/// The writers of a chain once `s` has passed through them.
pub open spec fn pads_after(pads: Seq<PadAdapterState>, s: Seq<char>) -> Seq<PadAdapterState> {
    Seq::new(
        pads.len(),
        |i: int| PadAdapterState { on_newline: on_newline_after(s, pads[i].on_newline) },
    )
}

/// Writing `a` and then `b` through a chain is writing `a + b` through it.
pub proof fn lemma_through_concat(
    pads: Seq<PadAdapterState>,
    a: Seq<char>,
    b: Seq<char>,
    width: nat,
)
    ensures
        through(pads, a + b, width) == through(pads, a, width) + through(
            pads_after(pads, a),
            b,
            width,
        ),
        pads_after(pads, a + b) == pads_after(pads_after(pads, a), b),
    decreases pads.len(),
{
    assert(pads_after(pads, a + b) =~= pads_after(pads_after(pads, a), b)) by {
        assert forall|i: int| 0 <= i < pads.len() implies on_newline_after(
            a + b,
            pads[i].on_newline,
        ) == on_newline_after(b, on_newline_after(a, pads[i].on_newline)) by {
            lemma_padded_concat(a, b, pads[i].on_newline, width);
        }
    }
    if pads.len() > 0 {
        let front = pads.drop_last();
        let last = pads.last().on_newline;
        let pa = padded(a, last, width);
        let pb = padded(b, on_newline_after(a, last), width);
        lemma_padded_concat(a, b, last, width);
        lemma_through_concat(front, pa, pb, width);
        lemma_padded_end(a, last, width);
        assert(pads_after(front, pa) =~= pads_after(front, a));
        assert(pads_after(pads, a).drop_last() =~= pads_after(front, a));
    }
}

/// With no width an indentation writer changes nothing.
pub proof fn lemma_padded_flat(s: Seq<char>, on_newline: bool)
    ensures
        padded(s, on_newline, 0) == s,
    decreases s.len(),
{
    if s.len() == 0 {
        assert(padded(s, on_newline, 0) =~= s);
    } else {
        lemma_padded_flat(s.drop_last(), on_newline);
        assert(spaces(0) =~= Seq::<char>::empty());
        assert(s.drop_last() + Seq::<char>::empty().push(s.last()) =~= s);
    }
}

/// Nothing written through a chain is nothing written.
pub proof fn lemma_through_nothing(pads: Seq<PadAdapterState>, width: nat)
    ensures
        through(pads, Seq::empty(), width) == Seq::<char>::empty(),
    decreases pads.len(),
{
    if pads.len() > 0 {
        lemma_through_nothing(pads.drop_last(), width);
    }
}

/// With no width a chain of indentation writers changes nothing.
pub proof fn lemma_through_flat(pads: Seq<PadAdapterState>, s: Seq<char>)
    ensures
        through(pads, s, 0) == s,
    decreases pads.len(),
{
    if pads.len() > 0 {
        lemma_padded_flat(s, pads.last().on_newline);
        lemma_through_flat(pads.drop_last(), s);
    }
}

/// A text without a line break before its last character is one line: a
/// writer at a line start puts one indent before it, and a writer in the
/// middle of a line hands it on as it is.
pub proof fn lemma_padded_one_line(s: Seq<char>, on_newline: bool, width: nat)
    requires
        s.len() > 0,
        forall|i: int| 0 <= i < s.len() - 1 ==> s[i] != '\n',
    ensures
        padded(s, on_newline, width) == if on_newline {
            spaces(width) + s
        } else {
            s
        },
    decreases s.len(),
{
    let front = s.drop_last();
    if front.len() == 0 {
        assert(padded(front, on_newline, width) =~= Seq::<char>::empty());
        assert(spaces(width).push(s.last()) =~= spaces(width) + s);
        assert(Seq::<char>::empty().push(s.last()) =~= s);
    } else {
        lemma_padded_one_line(front, on_newline, width);
        assert(front.last() == s[s.len() - 2]);
        assert((spaces(width) + front) + Seq::<char>::empty().push(s.last()) =~= spaces(width)
            + s);
        assert(front + Seq::<char>::empty().push(s.last()) =~= s);
    }
}

/// An indentation writer at a line start puts its indent before a run of
/// spaces as before anything else.
proof fn lemma_padded_spaces(n: nat, c: char, on_newline: bool, width: nat)
    ensures
        n > 0 ==> padded(spaces(n), on_newline, width) == spaces(
            if on_newline {
                width + n
            } else {
                n
            },
        ),
        padded(spaces(n).push(c), on_newline, width) == spaces(
            if on_newline {
                width + n
            } else {
                n
            },
        ).push(c),
    decreases n,
{
    let total = if on_newline {
        width + n
    } else {
        n
    };
    if n == 0 {
        let one = spaces(0).push(c);
        assert(one.drop_last() =~= Seq::<char>::empty());
        assert(padded(one.drop_last(), on_newline, width) =~= Seq::<char>::empty());
        assert(spaces(0) =~= Seq::<char>::empty());
        assert(padded(one, on_newline, width) =~= spaces(total).push(c));
    } else {
        let less = (n - 1) as nat;
        lemma_padded_spaces(less, ' ', on_newline, width);
        assert(spaces(less).push(' ') =~= spaces(n));
        assert(spaces((total - 1) as nat).push(' ') =~= spaces(total));
        assert(spaces(n).push(c).drop_last() =~= spaces(n));
        assert(padded(spaces(n).push(c), on_newline, width) =~= spaces(total).push(c));
    }
}

/// An indentation writer inside another, both at a line start or both not,
/// indents by the sum of their widths.
pub proof fn lemma_padded_twice(s: Seq<char>, on_newline: bool, inner: nat, outer: nat)
    ensures
        padded(padded(s, on_newline, inner), on_newline, outer) == padded(
            s,
            on_newline,
            inner + outer,
        ),
    decreases s.len(),
{
    if s.len() > 0 {
        let front = s.drop_last();
        let c = s.last();
        let at_start = on_newline_after(front, on_newline);
        let indent = if at_start {
            spaces(inner)
        } else {
            Seq::empty()
        };
        lemma_padded_twice(front, on_newline, inner, outer);
        lemma_padded_end(front, on_newline, inner);
        lemma_padded_concat(padded(front, on_newline, inner), indent.push(c), on_newline, outer);
        if at_start {
            lemma_padded_spaces(inner, c, true, outer);
            assert(spaces(outer + inner) =~= spaces(inner + outer));
        } else {
            lemma_padded_spaces(0, c, false, outer);
            assert(spaces(0) =~= Seq::<char>::empty());
        }
    } else {
        assert(padded(s, on_newline, inner) =~= Seq::<char>::empty());
    }
}

/// Indentation adds up with depth: through a chain of writers that are all
/// at a line start, or all not, every line is indented by one width for each
/// writer of the chain.
pub proof fn lemma_through_depth(
    pads: Seq<PadAdapterState>,
    s: Seq<char>,
    on_newline: bool,
    width: nat,
)
    requires
        forall|i: int| 0 <= i < pads.len() ==> pads[i].on_newline == on_newline,
    ensures
        through(pads, s, width) == padded(s, on_newline, pads.len() * width),
    decreases pads.len(),
{
    if pads.len() == 0 {
        lemma_padded_flat(s, on_newline);
        assert(pads.len() * width == 0) by (nonlinear_arith)
            requires
                pads.len() == 0,
        ;
    } else {
        let front = pads.drop_last();
        lemma_through_depth(front, padded(s, on_newline, width), on_newline, width);
        lemma_padded_twice(s, on_newline, width, front.len() * width);
        assert(width + front.len() * width == pads.len() * width) by (nonlinear_arith)
            requires
                front.len() + 1 == pads.len(),
        ;
    }
}

} // verus!
