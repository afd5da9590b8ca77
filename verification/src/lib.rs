//! Pretty printing of nested values. A value is rendered through builders,
//! one entry to a line; the text is returned without indentation where that
//! takes at most 80 characters, and with every line indented by its depth
//! where it takes more.

use vstd::prelude::*;
use vstd::string::StrSliceExecFns;
use vstd::string::StringExecFns;

pub mod builders;
pub mod decimal;
pub mod layout;
pub mod pad;
pub mod std_impls;
pub mod tuples;

pub use crate::builders::{DebugList, DebugMap, DebugSet, DebugStruct, DebugTuple};
use crate::pad::{
    indent_width, lemma_padded_end, lemma_through_concat, lemma_through_depth, lemma_through_flat,
    lemma_through_nothing, on_newline_after, padded, pads_after, through, PadAdapterState, INDENT,
};

verus! {

/// The error of the standard library's formatting, `core::fmt::Error`: a
/// marker without content, which a renderer returns when it fails.
#[verifier::external_type_specification]
#[verifier::external_body]
pub struct ExError(core::fmt::Error);

/// Longest text, in characters, that is returned in flat layout.
pub const MAX_LEN: usize = 80;

/// A value that can be rendered.
///
/// A type says with `rendered` what its values render to, and `fmt` writes
/// exactly that. `fmt` is given the builders of [`Formatter`] to write with.
pub trait Debug {
    /// The text that the value renders to in the given layout, or `None`
    /// where rendering it fails. A type that leaves this as it is has no
    /// rendering: its `fmt` has to fail.
    open spec fn rendered(&self, pretty: bool) -> Option<Seq<char>> {
        None
    }

    /// Renders the value into `f`: writes its text, and nothing else, or fails.
    ///
    /// This may be called more than once for one call of [`pprint`].
    fn fmt(&self, f: &mut Formatter) -> (r: core::fmt::Result)
        ensures
            final(f)@.same_frame(old(f)@),
            r is Ok <==> self.rendered(old(f)@.pretty) is Some,
            r is Ok ==> final(f)@ == old(f)@.write(self.rendered(old(f)@.pretty)->0),
    ;
}

/// The layout of a rendering.
#[derive(Clone, Copy, PartialEq, Eq, Structural)]
enum Mode {
    /// Every entry on a line of its own, indented by its depth.
    Pretty,
    /// The same lines without indentation.
    Flat,
}

/// The context of one rendering: the text written so far, the indentation
/// writers that are open around the value being rendered, and the layout.
pub struct Formatter {
    buf: String,
    pads: Vec<PadAdapterState>,
    mode: Mode,
}

/// A [`Formatter`] as contracts see it.
pub struct FormatterView {
    /// The text that has reached the sink.
    pub text: Seq<char>,
    /// The open indentation writers, the outermost first.
    pub pads: Seq<PadAdapterState>,
    /// Whether the layout is the indented one.
    pub pretty: bool,
}

impl FormatterView {
    /// The state after `s` has been written.
    pub open spec fn write(self, s: Seq<char>) -> FormatterView {
        FormatterView {
            text: self.text + through(self.pads, s, indent_width(self.pretty)),
            pads: pads_after(self.pads, s),
            pretty: self.pretty,
        }
    }

    /// The state with one more indentation writer opened, in `state`.
    pub open spec fn wrap(self, state: PadAdapterState) -> FormatterView {
        FormatterView { text: self.text, pads: self.pads.push(state), pretty: self.pretty }
    }

    /// The state with the innermost indentation writer closed.
    pub open spec fn unwrap(self) -> FormatterView {
        FormatterView { text: self.text, pads: self.pads.drop_last(), pretty: self.pretty }
    }

    /// Same layout and same open indentation writers, whatever their state
    /// and whatever the text.
    pub open spec fn same_frame(self, other: FormatterView) -> bool {
        self.pretty == other.pretty && self.pads.len() == other.pads.len()
    }

    /// Writing nothing changes nothing.
    pub proof fn lemma_write_nothing(self)
        ensures
            self.write(Seq::empty()) == self,
    {
        lemma_through_nothing(self.pads, indent_width(self.pretty));
        assert(self.text + Seq::<char>::empty() =~= self.text);
        assert(pads_after(self.pads, Seq::empty()) =~= self.pads);
    }

    /// Writing `a` and then `b` is writing `a + b`.
    pub proof fn lemma_write_twice(self, a: Seq<char>, b: Seq<char>)
        ensures
            self.write(a).write(b) == self.write(a + b),
    {
        let width = indent_width(self.pretty);
        lemma_through_concat(self.pads, a, b, width);
        let first = through(self.pads, a, width);
        let second = through(pads_after(self.pads, a), b, width);
        assert(self.text + first + second =~= self.text + (first + second));
    }

    /// In flat layout what is written reaches the text as it is: no
    /// indentation is added, however many indentation writers are open.
    pub proof fn lemma_write_flat(self, s: Seq<char>)
        requires
            !self.pretty,
        ensures
            self.write(s).text == self.text + s,
    {
        lemma_through_flat(self.pads, s);
    }

    /// In indented layout, with every open indentation writer at a line
    /// start, or every one in the middle of a line, each line of what is
    /// written is indented by one unit for each open writer.
    pub proof fn lemma_write_pretty(self, s: Seq<char>, on_newline: bool)
        requires
            self.pretty,
            forall|i: int| 0 <= i < self.pads.len() ==> self.pads[i].on_newline == on_newline,
        ensures
            self.write(s).text == self.text + padded(
                s,
                on_newline,
                self.pads.len() * (INDENT as nat),
            ),
    {
        lemma_through_depth(self.pads, s, on_newline, INDENT as nat);
    }

    /// What is written inside an indentation writer reaches the text as the
    /// writer hands it on, and leaves the writer where the last character
    /// left it.
    pub proof fn lemma_write_wrapped(self, state: PadAdapterState, s: Seq<char>)
        ensures
            self.wrap(state).write(s).unwrap() == self.write(
                padded(s, state.on_newline, indent_width(self.pretty)),
            ),
            self.wrap(state).write(s).pads.last().on_newline == on_newline_after(
                s,
                state.on_newline,
            ),
    {
        let width = indent_width(self.pretty);
        let inner = self.pads.push(state);
        lemma_padded_end(s, state.on_newline, width);
        assert(inner.drop_last() =~= self.pads);
        assert(pads_after(inner, s).drop_last() =~= pads_after(
            self.pads,
            padded(s, state.on_newline, width),
        ));
    }
}

impl View for Formatter {
    type V = FormatterView;

    closed spec fn view(&self) -> FormatterView {
        FormatterView {
            text: self.buf@,
            pads: self.pads@,
            pretty: self.mode == Mode::Pretty,
        }
    }
}

impl Formatter {
    /// A formatter that has written nothing, with no indentation writer open.
    fn new(mode: Mode) -> (f: Formatter)
        ensures
            f@.text == Seq::<char>::empty(),
            f@.pads == Seq::<PadAdapterState>::empty(),
            f@.pretty == (mode == Mode::Pretty),
    {
        Formatter { buf: String::new(), pads: Vec::new(), mode }
    }

    /// Writes `data` through the open indentation writers to the sink.
    pub fn write_str(&mut self, data: &str) -> (r: core::fmt::Result)
        ensures
            r is Ok,
            final(self)@ == old(self)@.write(data@),
    {
        let pretty = self.is_pretty();
        let ghost width = indent_width(pretty);
        let ghost before = self.pads@;
        let mut text = data.to_owned();
        let mut i = self.pads.len();
        proof {
            assert(before.take(i as int) =~= before);
        }
        while i > 0
            invariant
                i <= before.len(),
                self.pads@.len() == before.len(),
                self.buf == old(self).buf,
                self.mode == old(self).mode,
                width == indent_width(pretty),
                pretty == (self.mode == Mode::Pretty),
                forall|j: int| 0 <= j < i ==> self.pads@[j] == before[j],
                forall|j: int|
                    i <= j < before.len() ==> self.pads@[j] == pads_after(before, data@)[j],
                through(before.take(i as int), text@, width) == through(before, data@, width),
                forall|b: bool| on_newline_after(text@, b) == on_newline_after(data@, b),
            decreases i,
        {
            i -= 1;
            let mut state = self.pads[i];
            let ghost inner = text@;
            text = state.write_str(text.as_str(), pretty);
            self.pads[i] = state;
            proof {
                lemma_padded_end(inner, before[i as int].on_newline, width);
                assert(before.take(i + 1).drop_last() =~= before.take(i as int));
            }
        }
        self.buf.append(text.as_str());
        proof {
            assert(before.take(0) =~= Seq::<PadAdapterState>::empty());
            assert(self.pads@ =~= pads_after(before, data@));
        }
        Ok(())
    }

    /// Opens an indentation writer in `state` around what is written next.
    pub(crate) fn wrap_buf(&mut self, state: PadAdapterState)
        ensures
            final(self)@ == old(self)@.wrap(state),
    {
        self.pads.push(state);
    }

    /// Closes the innermost indentation writer and returns its state.
    pub(crate) fn unwrap_buf(&mut self) -> (state: PadAdapterState)
        requires
            old(self)@.pads.len() > 0,
        ensures
            final(self)@ == old(self)@.unwrap(),
            state == old(self)@.pads.last(),
    {
        let state = self.pads.pop();
        state.unwrap()
    }

    /// Begins a struct named `name`.
    pub fn debug_struct<'b>(&'b mut self, name: &str) -> (builder: DebugStruct<'b>)
        ensures
            *final(self) == *final(builder.target()),
            builder@.out == old(self)@.write(name@),
            builder@.result is Ok,
            !builder@.has_fields,
    {
        builders::debug_struct_new(self, name)
    }

    /// Begins a tuple named `name`.
    pub fn debug_tuple<'b>(&'b mut self, name: &str) -> (builder: DebugTuple<'b>)
        ensures
            *final(self) == *final(builder.target()),
            builder@.out == old(self)@.write(name@),
            builder@.result is Ok,
            !builder@.has_fields,
    {
        builders::debug_tuple_new(self, name)
    }

    /// Begins a list.
    pub fn debug_list<'b>(&'b mut self) -> (builder: DebugList<'b>)
        ensures
            *final(self) == *final(builder.target()),
            builder@.out == old(self)@.write("["@),
            builder@.result is Ok,
            !builder@.has_fields,
    {
        builders::debug_list_new(self)
    }

    /// Begins a set.
    pub fn debug_set<'b>(&'b mut self) -> (builder: DebugSet<'b>)
        ensures
            *final(self) == *final(builder.target()),
            builder@.out == old(self)@.write("{"@),
            builder@.result is Ok,
            !builder@.has_fields,
    {
        builders::debug_set_new(self)
    }

    /// Begins a map.
    pub fn debug_map<'b>(&'b mut self) -> (builder: DebugMap<'b>)
        ensures
            *final(self) == *final(builder.target()),
            builder@.out == old(self)@.write("{"@),
            builder@.result is Ok,
            !builder@.has_fields,
            !builder@.has_key,
    {
        builders::debug_map_new(self)
    }

    /// Whether the layout is the indented one.
    pub fn is_pretty(&self) -> (pretty: bool)
        ensures
            pretty == self@.pretty,
    {
        self.mode == Mode::Pretty
    }
}

impl<T: ?Sized + Debug> Debug for &T {
    open spec fn rendered(&self, pretty: bool) -> Option<Seq<char>> {
        (**self).rendered(pretty)
    }

    fn fmt(&self, f: &mut Formatter) -> (r: core::fmt::Result) {
        Debug::fmt(&**self, f)
    }
}

/// What [`pprint_checked`] returns for `x`: the flat rendering where it has
/// at most [`MAX_LEN`] characters, else the indented one; `None` where the
/// rendering fails.
pub open spec fn pprinted<T: Debug>(x: T) -> Option<Seq<char>> {
    match x.rendered(false) {
        Some(flat) => if flat.len() <= MAX_LEN {
            Some(flat)
        } else {
            x.rendered(true)
        },
        None => None,
    }
}

/// A value whose flat rendering has at most [`MAX_LEN`] characters is
/// printed as that rendering, character for character.
pub proof fn lemma_short_is_flat<T: Debug>(x: T)
    requires
        x.rendered(false) is Some,
        x.rendered(false)->0.len() <= MAX_LEN,
    ensures
        pprinted(x) == x.rendered(false),
{
}

/// A value whose flat rendering has more than [`MAX_LEN`] characters is
/// printed as its indented rendering.
pub proof fn lemma_long_is_pretty<T: Debug>(x: T)
    requires
        x.rendered(false) is Some,
        x.rendered(false)->0.len() > MAX_LEN,
    ensures
        pprinted(x) == x.rendered(true),
{
}

/// Renders `x` in flat layout.
fn flatprint_checked<T: Debug>(x: T) -> (r: Result<String, core::fmt::Error>)
    ensures
        r is Ok <==> x.rendered(false) is Some,
        r is Ok ==> r->Ok_0@ == x.rendered(false)->0,
{
    pprint_mode(x, Mode::Flat)
}

/// Renders `x` in the given layout, into a text of its own.
fn pprint_mode<T: Debug>(x: T, mode: Mode) -> (r: Result<String, core::fmt::Error>)
    ensures
        r is Ok <==> x.rendered(mode == Mode::Pretty) is Some,
        r is Ok ==> r->Ok_0@ == x.rendered(mode == Mode::Pretty)->0,
{
    let mut f = Formatter::new(mode);
    match x.fmt(&mut f) {
        Ok(_) => {
            proof {
                assert(Seq::<char>::empty() + x.rendered(mode == Mode::Pretty)->0
                    =~= x.rendered(mode == Mode::Pretty)->0);
            }
            Ok(f.buf)
        },
        Err(e) => Err(e),
    }
}

/// Renders `x`: flat where that takes at most [`MAX_LEN`] characters,
/// indented otherwise. Fails where the rendering of `x` fails.
pub fn pprint_checked<T: Debug>(x: T) -> (r: Result<String, core::fmt::Error>)
    ensures
        r is Ok <==> pprinted(x) is Some,
        r is Ok ==> r->Ok_0@ == pprinted(x)->0,
{
    match flatprint_checked(&x) {
        Ok(flat) => {
            if flat.as_str().unicode_len() <= MAX_LEN {
                Ok(flat)
            } else {
                pprint_mode(x, Mode::Pretty)
            }
        },
        Err(e) => Err(e),
    }
}

/// Renders `x` as [`pprint_checked`] does, for a value whose rendering does
/// not fail.
pub fn pprint<T: Debug>(x: T) -> (text: String)
    requires
        pprinted(x) is Some,
    ensures
        text@ == pprinted(x)->0,
{
    pprint_checked(x).unwrap()
}

} // verus!
