//! The builders: each accumulates the entries of one bracketed form.

use vstd::prelude::*;
use vstd::std_specs::iter::IteratorSpec;
use crate::layout::{
    entries, entry, joined, lemma_empty_literal, lemma_entries_push,
    lemma_entry_is_key_then_value, lemma_map_entries_push, lemma_map_states,
    lemma_rendered_all_push, lemma_rendered_pairs_push, map_entries, map_entry, map_key,
    map_value, rendered_all, rendered_pairs, struct_end, struct_end_non_exhaustive, struct_field,
    tuple_end, tuple_field,
};
use crate::pad::{indent_width, on_newline_after, padded, PadAdapterState};
use crate::{Formatter, FormatterView};

verus! {

/// A builder of a struct, a tuple, a list or a set as contracts see it.
pub struct BuilderView {
    /// The formatter that the builder writes to.
    pub out: FormatterView,
    /// `Ok` until the rendering of an entry has failed; from then on the
    /// first error.
    pub result: core::fmt::Result,
    /// Whether an entry has been added.
    pub has_fields: bool,
}

impl BuilderView {
    /// How a step that renders to `text` takes the builder from `self` to
    /// `next`. After an earlier failure nothing is written and the error
    /// stays. Otherwise `text` is written; where there is none, because the
    /// rendering of a nested value failed, the step fails, and what has
    /// reached the formatter by then is left open.
    pub open spec fn step(self, text: Option<Seq<char>>, next: BuilderView) -> bool {
        &&& next.out.same_frame(self.out)
        &&& match self.result {
            Err(_) => next.result == self.result && next.out == self.out,
            Ok(_) => match text {
                Some(t) => next.result is Ok && next.out == self.out.write(t),
                None => next.result is Err,
            },
        }
    }

    /// A failure stays: after one no step writes anything, and the first
    /// error is kept, whatever the step would have rendered.
    pub proof fn lemma_failure_stays(self, text: Option<Seq<char>>, next: BuilderView)
        requires
            self.result is Err,
            self.step(text, next),
        ensures
            next.result == self.result,
            next.out == self.out,
    {
    }

    /// A step fails where the rendering of its value fails, whatever was
    /// added before.
    pub proof fn lemma_failure_spreads(self, next: BuilderView)
        requires
            self.step(None, next),
        ensures
            next.result is Err,
    {
    }

    /// Two steps in a row are one step that renders to the text of the
    /// first followed by that of the second.
    pub proof fn lemma_step_twice(
        self,
        first: Option<Seq<char>>,
        mid: BuilderView,
        second: Option<Seq<char>>,
        next: BuilderView,
    )
        requires
            self.step(first, mid),
            mid.step(second, next),
        ensures
            self.step(joined(first, second), next),
    {
        if self.result is Ok && first is Some && second is Some {
            self.out.lemma_write_twice(first->0, second->0);
        }
    }
}

/// Writes `open`, and then, inside an indentation writer that starts in
/// `state`: `head`, `sep`, the rendering of `value` and `end`. Returns the
/// state in which the writer was left.
fn write_padded<T: crate::Debug + ?Sized>(
    fmt: &mut Formatter,
    open: &str,
    state: PadAdapterState,
    head: &str,
    sep: &str,
    value: &T,
    end: &str,
) -> (r: (core::fmt::Result, PadAdapterState))
    ensures
        final(fmt)@.same_frame(old(fmt)@),
        r.0 is Ok <==> value.rendered(old(fmt)@.pretty) is Some,
        r.0 is Ok ==> {
            let inner = head@ + sep@ + value.rendered(old(fmt)@.pretty)->0 + end@;
            &&& final(fmt)@ == old(fmt)@.write(
                open@ + padded(inner, state.on_newline, indent_width(old(fmt)@.pretty)),
            )
            &&& r.1.on_newline == on_newline_after(inner, state.on_newline)
        },
{
    let ghost start = fmt@;
    let ghost pretty = start.pretty;
    let _ = fmt.write_str(open);
    let ghost opened = fmt@;
    fmt.wrap_buf(state);
    let _ = fmt.write_str(head);
    let _ = fmt.write_str(sep);
    let mut result = value.fmt(fmt);
    if result.is_ok() {
        result = fmt.write_str(end);
        proof {
            let v = value.rendered(pretty)->0;
            let wrapped = opened.wrap(state);
            wrapped.lemma_write_twice(head@, sep@);
            wrapped.lemma_write_twice(head@ + sep@, v);
            wrapped.lemma_write_twice(head@ + sep@ + v, end@);
            opened.lemma_write_wrapped(state, head@ + sep@ + v + end@);
            start.lemma_write_twice(
                open@,
                padded(head@ + sep@ + v + end@, state.on_newline, indent_width(pretty)),
            );
        }
    }
    let state = fmt.unwrap_buf();
    (result, state)
}

/// Builds the rendering of a struct: its name, and its fields in braces.
#[must_use]
pub struct DebugStruct<'a> {
    fmt: &'a mut Formatter,
    result: core::fmt::Result,
    has_fields: bool,
}

impl<'a> View for DebugStruct<'a> {
    type V = BuilderView;

    closed spec fn view(&self) -> BuilderView {
        BuilderView { out: self.fmt@, result: self.result, has_fields: self.has_fields }
    }
}

/// Begins a struct named `name` in `fmt`.
pub(crate) fn debug_struct_new<'a>(fmt: &'a mut Formatter, name: &str) -> (builder: DebugStruct<'a>)
    ensures
        *final(fmt) == *final(builder.target()),
        builder@.out == old(fmt)@.write(name@),
        builder@.result is Ok,
        !builder@.has_fields,
{
    let result = fmt.write_str(name);
    DebugStruct { fmt, result, has_fields: false }
}

impl<'a> DebugStruct<'a> {
    /// The formatter that the builder writes to.
    pub closed spec fn target(self) -> &'a mut Formatter {
        self.fmt
    }

    /// Once the builder is no longer used, its formatter stays as the
    /// builder left it.
    pub broadcast proof fn lemma_resolved(self)
        ensures
            #[trigger] has_resolved(self) ==> (*final(self.target()))@ == self@.out,
    {
    }

    /// Adds the field `name` with the value `value`.
    pub fn field<T: crate::Debug + ?Sized>(&mut self, name: &str, value: &T) -> (builder: &mut Self)
        ensures
            *final(self) == *final(builder),
            *final(builder.target()) == *final(old(self).target()),
            builder@.has_fields,
            old(self)@.step(
                match value.rendered(old(self)@.out.pretty) {
                    Some(v) => Some(
                        struct_field(!old(self)@.has_fields, name@, v, old(self)@.out.pretty),
                    ),
                    None => None,
                },
                builder@,
            ),
    {
        if self.result.is_ok() {
            let open = if self.has_fields { "" } else { " {\n" };
            proof {
                lemma_empty_literal();
            }
            let (result, _) = write_padded(
                self.fmt,
                open,
                PadAdapterState::default(),
                name,
                ": ",
                value,
                ",\n",
            );
            self.result = result;
        }
        self.has_fields = true;
        self
    }

    /// Finishes the struct as one that has more fields than were added.
    pub fn finish_non_exhaustive(&mut self) -> (r: core::fmt::Result)
        ensures
            *final(final(self).target()) == *final(old(self).target()),
            final(self)@.has_fields == old(self)@.has_fields,
            old(self)@.step(
                Some(
                    struct_end_non_exhaustive(old(self)@.has_fields, old(self)@.out.pretty),
                ),
                final(self)@,
            ),
            r == final(self)@.result,
    {
        if self.result.is_ok() {
            let ghost start = self.fmt@;
            if self.has_fields {
                self.fmt.wrap_buf(PadAdapterState::default());
                let _ = self.fmt.write_str("..\n");
                let _ = self.fmt.unwrap_buf();
                self.result = self.fmt.write_str("}");
                proof {
                    let width = indent_width(start.pretty);
                    start.lemma_write_wrapped(PadAdapterState { on_newline: true }, "..\n"@);
                    start.lemma_write_twice(padded("..\n"@, true, width), "}"@);
                }
            } else {
                self.result = self.fmt.write_str(" { .. }");
            }
        }
        self.result
    }

    /// Finishes the struct.
    pub fn finish(&mut self) -> (r: core::fmt::Result)
        ensures
            *final(final(self).target()) == *final(old(self).target()),
            final(self)@.has_fields == old(self)@.has_fields,
            old(self)@.step(Some(struct_end(old(self)@.has_fields)), final(self)@),
            r == final(self)@.result,
    {
        proof {
            self.fmt@.lemma_write_nothing();
        }
        if self.has_fields && self.result.is_ok() {
            self.result = self.fmt.write_str("}");
        }
        self.result
    }
}

/// Builds the rendering of a tuple: its name, and its fields in parentheses.
#[must_use]
pub struct DebugTuple<'a> {
    fmt: &'a mut Formatter,
    result: core::fmt::Result,
    has_fields: bool,
}

impl<'a> View for DebugTuple<'a> {
    type V = BuilderView;

    closed spec fn view(&self) -> BuilderView {
        BuilderView { out: self.fmt@, result: self.result, has_fields: self.has_fields }
    }
}

/// Begins a tuple named `name` in `fmt`.
pub(crate) fn debug_tuple_new<'a>(fmt: &'a mut Formatter, name: &str) -> (builder: DebugTuple<'a>)
    ensures
        *final(fmt) == *final(builder.target()),
        builder@.out == old(fmt)@.write(name@),
        builder@.result is Ok,
        !builder@.has_fields,
{
    let result = fmt.write_str(name);
    DebugTuple { fmt, result, has_fields: false }
}

impl<'a> DebugTuple<'a> {
    /// The formatter that the builder writes to.
    pub closed spec fn target(self) -> &'a mut Formatter {
        self.fmt
    }

    /// Once the builder is no longer used, its formatter stays as the
    /// builder left it.
    pub broadcast proof fn lemma_resolved(self)
        ensures
            #[trigger] has_resolved(self) ==> (*final(self.target()))@ == self@.out,
    {
    }

    /// Adds a field with the value `value`.
    pub fn field<T: crate::Debug + ?Sized>(&mut self, value: &T) -> (builder: &mut Self)
        ensures
            *final(self) == *final(builder),
            *final(builder.target()) == *final(old(self).target()),
            builder@.has_fields,
            old(self)@.step(
                match value.rendered(old(self)@.out.pretty) {
                    Some(v) => Some(tuple_field(!old(self)@.has_fields, v, old(self)@.out.pretty)),
                    None => None,
                },
                builder@,
            ),
    {
        if self.result.is_ok() {
            let open = if self.has_fields { "" } else { "(\n" };
            proof {
                lemma_empty_literal();
                let v = value.rendered(self.fmt@.pretty);
                if v is Some {
                    assert(""@ + ""@ + v->0 + ",\n"@ =~= v->0 + ",\n"@);
                }
            }
            let (result, _) = write_padded(
                self.fmt,
                open,
                PadAdapterState::default(),
                "",
                "",
                value,
                ",\n",
            );
            self.result = result;
        }
        self.has_fields = true;
        self
    }

    /// Finishes the tuple.
    pub fn finish(&mut self) -> (r: core::fmt::Result)
        ensures
            *final(final(self).target()) == *final(old(self).target()),
            final(self)@.has_fields == old(self)@.has_fields,
            old(self)@.step(Some(tuple_end(old(self)@.has_fields)), final(self)@),
            r == final(self)@.result,
    {
        proof {
            self.fmt@.lemma_write_nothing();
        }
        if self.has_fields && self.result.is_ok() {
            self.result = self.fmt.write_str(")");
        }
        self.result
    }
}

/// What a list builder and a set builder have in common.
struct DebugInner<'a> {
    fmt: &'a mut Formatter,
    result: core::fmt::Result,
    has_fields: bool,
}

impl<'a> View for DebugInner<'a> {
    type V = BuilderView;

    closed spec fn view(&self) -> BuilderView {
        BuilderView { out: self.fmt@, result: self.result, has_fields: self.has_fields }
    }
}

impl<'a> DebugInner<'a> {
    fn entry<T: crate::Debug + ?Sized>(&mut self, value: &T)
        ensures
            *final(final(self).fmt) == *final(old(self).fmt),
            final(self)@.has_fields,
            old(self)@.step(
                match value.rendered(old(self)@.out.pretty) {
                    Some(v) => Some(entry(!old(self)@.has_fields, v, old(self)@.out.pretty)),
                    None => None,
                },
                final(self)@,
            ),
    {
        if self.result.is_ok() {
            let open = if self.has_fields { "" } else { "\n" };
            proof {
                lemma_empty_literal();
                let v = value.rendered(self.fmt@.pretty);
                if v is Some {
                    assert(""@ + ""@ + v->0 + ",\n"@ =~= v->0 + ",\n"@);
                }
            }
            let (result, _) = write_padded(
                self.fmt,
                open,
                PadAdapterState::default(),
                "",
                "",
                value,
                ",\n",
            );
            self.result = result;
        }
        self.has_fields = true;
    }

    fn entries<D, I>(&mut self, items: I)
        where
            D: crate::Debug,
            I: Iterator<Item = D>,
        requires
            items.obeys_prophetic_iter_laws(),
            items.decrease() is Some,
        ensures
            *final(final(self).fmt) == *final(old(self).fmt),
            final(self)@.has_fields == (old(self)@.has_fields || items.remaining().len() > 0),
            old(self)@.step(
                match rendered_all(items.remaining(), old(self)@.out.pretty) {
                    Some(vs) => Some(entries(!old(self)@.has_fields, vs, old(self)@.out.pretty)),
                    None => None,
                },
                final(self)@,
            ),
    {
        let mut items = items;
        let ghost all = items.remaining();
        let ghost start = self@;
        let ghost pretty = start.out.pretty;
        let ghost mut done: Seq<D> = Seq::empty();
        proof {
            start.out.lemma_write_nothing();
            assert(all.skip(0) =~= all);
        }
        loop
            invariant
                items.obeys_prophetic_iter_laws(),
                items.decrease() is Some,
                done.len() <= all.len(),
                done == all.take(done.len() as int),
                items.remaining() == all.skip(done.len() as int),
                *final(self.fmt) == *final(old(self).fmt),
                start == old(self)@,
                pretty == start.out.pretty,
                self@.has_fields == (start.has_fields || done.len() > 0),
                start.step(
                    match rendered_all(done, pretty) {
                        Some(vs) => Some(entries(!start.has_fields, vs, pretty)),
                        None => None,
                    },
                    self@,
                ),
            ensures
                done == all,
                *final(self.fmt) == *final(old(self).fmt),
                self@.has_fields == (start.has_fields || done.len() > 0),
                start.step(
                    match rendered_all(done, pretty) {
                        Some(vs) => Some(entries(!start.has_fields, vs, pretty)),
                        None => None,
                    },
                    self@,
                ),
            decreases items.decrease()->0,
        {
            match items.next() {
                Some(item) => {
                    self.entry(&item);
                    proof {
                        assert(all.skip(done.len() as int)[0] == item);
                        assert(done.push(item) =~= all.take(done.len() as int + 1));
                        assert(all.skip(done.len() as int).drop_first() =~= all.skip(
                            done.len() as int + 1,
                        ));
                        lemma_rendered_all_push(done, item, pretty);
                        if rendered_all(done.push(item), pretty) is Some {
                            let vs = rendered_all(done, pretty)->0;
                            let v = item.rendered(pretty)->0;
                            lemma_entries_push(!start.has_fields, vs, v, pretty);
                            start.out.lemma_write_twice(
                                entries(!start.has_fields, vs, pretty),
                                entry(!start.has_fields && vs.len() == 0, v, pretty),
                            );
                        }
                        done = done.push(item);
                    }
                },
                None => {
                    proof {
                        assert(all.skip(done.len() as int).len() == 0);
                        assert(done =~= all);
                    }
                    break ;
                },
            }
        }
    }

    fn finish(&mut self, close: &str) -> (r: core::fmt::Result)
        ensures
            *final(final(self).fmt) == *final(old(self).fmt),
            final(self)@.has_fields == old(self)@.has_fields,
            old(self)@.step(Some(close@), final(self)@),
            r == final(self)@.result,
    {
        if self.result.is_ok() {
            self.result = self.fmt.write_str(close);
        }
        self.result
    }
}

/// Builds the rendering of a set: its entries in braces.
#[must_use]
pub struct DebugSet<'a> {
    inner: DebugInner<'a>,
}

impl<'a> View for DebugSet<'a> {
    type V = BuilderView;

    closed spec fn view(&self) -> BuilderView {
        self.inner@
    }
}

/// Begins a set in `fmt`.
pub(crate) fn debug_set_new<'a>(fmt: &'a mut Formatter) -> (builder: DebugSet<'a>)
    ensures
        *final(fmt) == *final(builder.target()),
        builder@.out == old(fmt)@.write("{"@),
        builder@.result is Ok,
        !builder@.has_fields,
{
    let result = fmt.write_str("{");
    DebugSet { inner: DebugInner { fmt, result, has_fields: false } }
}

impl<'a> DebugSet<'a> {
    /// The formatter that the builder writes to.
    pub closed spec fn target(self) -> &'a mut Formatter {
        self.inner.fmt
    }

    /// Once the builder is no longer used, its formatter stays as the
    /// builder left it.
    pub broadcast proof fn lemma_resolved(self)
        ensures
            #[trigger] has_resolved(self) ==> (*final(self.target()))@ == self@.out,
    {
    }

    /// Adds the entry `value`.
    pub fn entry<T: crate::Debug + ?Sized>(&mut self, value: &T) -> (builder: &mut Self)
        ensures
            *final(self) == *final(builder),
            *final(builder.target()) == *final(old(self).target()),
            builder@.has_fields,
            old(self)@.step(
                match value.rendered(old(self)@.out.pretty) {
                    Some(v) => Some(entry(!old(self)@.has_fields, v, old(self)@.out.pretty)),
                    None => None,
                },
                builder@,
            ),
    {
        self.inner.entry(value);
        self
    }

    /// Adds the entries that `items` yields, in its order.
    pub fn entries<D, I>(&mut self, items: I) -> (builder: &mut Self)
        where
            D: crate::Debug,
            I: Iterator<Item = D>,
        requires
            items.obeys_prophetic_iter_laws(),
            items.decrease() is Some,
        ensures
            *final(self) == *final(builder),
            *final(builder.target()) == *final(old(self).target()),
            builder@.has_fields == (old(self)@.has_fields
                || items.remaining().len() > 0),
            old(self)@.step(
                match rendered_all(
                    items.remaining(),
                    old(self)@.out.pretty,
                ) {
                    Some(vs) => Some(entries(!old(self)@.has_fields, vs, old(self)@.out.pretty)),
                    None => None,
                },
                builder@,
            ),
    {
        self.inner.entries(items);
        self
    }

    /// Finishes the set.
    pub fn finish(&mut self) -> (r: core::fmt::Result)
        ensures
            *final(final(self).target()) == *final(old(self).target()),
            final(self)@.has_fields == old(self)@.has_fields,
            old(self)@.step(Some("}"@), final(self)@),
            r == final(self)@.result,
    {
        self.inner.finish("}")
    }
}

/// Builds the rendering of a list: its entries in square brackets.
#[must_use]
pub struct DebugList<'a> {
    inner: DebugInner<'a>,
}

impl<'a> View for DebugList<'a> {
    type V = BuilderView;

    closed spec fn view(&self) -> BuilderView {
        self.inner@
    }
}

/// Begins a list in `fmt`.
pub(crate) fn debug_list_new<'a>(fmt: &'a mut Formatter) -> (builder: DebugList<'a>)
    ensures
        *final(fmt) == *final(builder.target()),
        builder@.out == old(fmt)@.write("["@),
        builder@.result is Ok,
        !builder@.has_fields,
{
    let result = fmt.write_str("[");
    DebugList { inner: DebugInner { fmt, result, has_fields: false } }
}

impl<'a> DebugList<'a> {
    /// The formatter that the builder writes to.
    pub closed spec fn target(self) -> &'a mut Formatter {
        self.inner.fmt
    }

    /// Once the builder is no longer used, its formatter stays as the
    /// builder left it.
    pub broadcast proof fn lemma_resolved(self)
        ensures
            #[trigger] has_resolved(self) ==> (*final(self.target()))@ == self@.out,
    {
    }

    /// Adds the entry `value`.
    pub fn entry<T: crate::Debug + ?Sized>(&mut self, value: &T) -> (builder: &mut Self)
        ensures
            *final(self) == *final(builder),
            *final(builder.target()) == *final(old(self).target()),
            builder@.has_fields,
            old(self)@.step(
                match value.rendered(old(self)@.out.pretty) {
                    Some(v) => Some(entry(!old(self)@.has_fields, v, old(self)@.out.pretty)),
                    None => None,
                },
                builder@,
            ),
    {
        self.inner.entry(value);
        self
    }

    /// Adds the entries that `items` yields, in its order.
    pub fn entries<D, I>(&mut self, items: I) -> (builder: &mut Self)
        where
            D: crate::Debug,
            I: Iterator<Item = D>,
        requires
            items.obeys_prophetic_iter_laws(),
            items.decrease() is Some,
        ensures
            *final(self) == *final(builder),
            *final(builder.target()) == *final(old(self).target()),
            builder@.has_fields == (old(self)@.has_fields
                || items.remaining().len() > 0),
            old(self)@.step(
                match rendered_all(
                    items.remaining(),
                    old(self)@.out.pretty,
                ) {
                    Some(vs) => Some(entries(!old(self)@.has_fields, vs, old(self)@.out.pretty)),
                    None => None,
                },
                builder@,
            ),
    {
        self.inner.entries(items);
        self
    }

    /// Finishes the list.
    pub fn finish(&mut self) -> (r: core::fmt::Result)
        ensures
            *final(final(self).target()) == *final(old(self).target()),
            final(self)@.has_fields == old(self)@.has_fields,
            old(self)@.step(Some("]"@), final(self)@),
            r == final(self)@.result,
    {
        self.inner.finish("]")
    }
}

/// A builder of a map as contracts see it.
pub struct MapBuilderView {
    /// The formatter that the builder writes to.
    pub out: FormatterView,
    /// `Ok` until the rendering of a key or a value has failed; from then on
    /// the first error.
    pub result: core::fmt::Result,
    /// Whether a value has been added.
    pub has_fields: bool,
    /// Whether a key has been written that still waits for its value.
    pub has_key: bool,
    /// Where the indentation writer of the entry under way was left.
    pub state: PadAdapterState,
}

impl MapBuilderView {
    /// What the map builder has in common with the other builders.
    pub open spec fn base(self) -> BuilderView {
        BuilderView { out: self.out, result: self.result, has_fields: self.has_fields }
    }

    /// Whether a key may be added or the map finished: no key waits for its
    /// value. After a failure the builder accepts every call and does nothing.
    pub open spec fn accepts_key(self) -> bool {
        self.result is Ok ==> !self.has_key
    }

    /// Whether a value may be added: a key waits for it.
    pub open spec fn accepts_value(self) -> bool {
        self.result is Ok ==> self.has_key
    }
}

/// Builds the rendering of a map: its entries, each a key and a value, in
/// braces.
#[must_use]
pub struct DebugMap<'a> {
    fmt: &'a mut Formatter,
    result: core::fmt::Result,
    has_fields: bool,
    has_key: bool,
    // a key and its value share one indentation writer, which the builder
    // keeps from the one call to the other
    state: PadAdapterState,
}

impl<'a> View for DebugMap<'a> {
    type V = MapBuilderView;

    closed spec fn view(&self) -> MapBuilderView {
        MapBuilderView {
            out: self.fmt@,
            result: self.result,
            has_fields: self.has_fields,
            has_key: self.has_key,
            state: self.state,
        }
    }
}

/// Begins a map in `fmt`.
pub(crate) fn debug_map_new<'a>(fmt: &'a mut Formatter) -> (builder: DebugMap<'a>)
    ensures
        *final(fmt) == *final(builder.target()),
        builder@.out == old(fmt)@.write("{"@),
        builder@.result is Ok,
        !builder@.has_fields,
        !builder@.has_key,
{
    let result = fmt.write_str("{");
    DebugMap { fmt, result, has_fields: false, has_key: false, state: PadAdapterState::default() }
}

impl<'a> DebugMap<'a> {
    /// The formatter that the builder writes to.
    pub closed spec fn target(self) -> &'a mut Formatter {
        self.fmt
    }

    /// Once the builder is no longer used, its formatter stays as the
    /// builder left it.
    pub broadcast proof fn lemma_resolved(self)
        ensures
            #[trigger] has_resolved(self) ==> (*final(self.target()))@ == self@.out,
    {
    }

    /// Adds the entry of `key` and `value`: the same as [`Self::key`]
    /// followed by [`Self::value`].
    pub fn entry<K: crate::Debug + ?Sized, V: crate::Debug + ?Sized>(
        &mut self,
        key: &K,
        value: &V,
    ) -> (builder: &mut Self)
        requires
            old(self)@.accepts_key(),
        ensures
            *final(self) == *final(builder),
            *final(builder.target()) == *final(old(self).target()),
            builder@.has_fields,
            old(self)@.base().step(
                match (key.rendered(old(self)@.out.pretty), value.rendered(old(self)@.out.pretty)) {
                    (Some(k), Some(v)) => Some(
                        map_entry(!old(self)@.has_fields, k, v, old(self)@.out.pretty),
                    ),
                    _ => None,
                },
                builder@.base(),
            ),
            builder@.accepts_key(),
            builder@.result is Ok ==> builder@.state.on_newline,
            old(self)@.result is Err ==> builder@.has_key == old(self)@.has_key && builder@.state
                == old(self)@.state,
    {
        let ghost start = self@;
        let ghost pretty = start.out.pretty;
        let builder = self.key(key).value(value);
        proof {
            if builder@.result is Ok {
                let k = key.rendered(pretty)->0;
                let v = value.rendered(pretty)->0;
                lemma_entry_is_key_then_value(!start.has_fields, k, v, pretty);
                start.out.lemma_write_twice(
                    map_key(!start.has_fields, k, pretty),
                    map_value(v, false, pretty),
                );
            }
        }
        builder
    }

    /// Adds the key of an entry, whose value is to follow.
    pub fn key<K: crate::Debug + ?Sized>(&mut self, key: &K) -> (builder: &mut Self)
        requires
            old(self)@.accepts_key(),
        ensures
            *final(self) == *final(builder),
            *final(builder.target()) == *final(old(self).target()),
            builder@.has_fields == old(self)@.has_fields,
            old(self)@.base().step(
                match key.rendered(old(self)@.out.pretty) {
                    Some(k) => Some(map_key(!old(self)@.has_fields, k, old(self)@.out.pretty)),
                    None => None,
                },
                builder@.base(),
            ),
            builder@.result is Ok ==> builder@.has_key && !builder@.state.on_newline,
            builder@.result is Err ==> builder@.has_key == old(self)@.has_key,
            old(self)@.result is Err ==> builder@.state == old(self)@.state,
    {
        if self.result.is_ok() {
            let open = if self.has_fields { "" } else { "\n" };
            proof {
                lemma_empty_literal();
                let k = key.rendered(self.fmt@.pretty);
                if k is Some {
                    assert(""@ + ""@ + k->0 + ": "@ =~= k->0 + ": "@);
                    lemma_map_states(k->0, k->0, true);
                }
            }
            let (result, state) = write_padded(
                self.fmt,
                open,
                PadAdapterState::default(),
                "",
                "",
                key,
                ": ",
            );
            self.state = state;
            if result.is_ok() {
                self.has_key = true;
            }
            self.result = result;
        }
        self
    }

    /// Adds the value of the entry whose key was added last.
    pub fn value<V: crate::Debug + ?Sized>(&mut self, value: &V) -> (builder: &mut Self)
        requires
            old(self)@.accepts_value(),
        ensures
            *final(self) == *final(builder),
            *final(builder.target()) == *final(old(self).target()),
            builder@.has_fields,
            old(self)@.base().step(
                match value.rendered(old(self)@.out.pretty) {
                    Some(v) => Some(
                        map_value(v, old(self)@.state.on_newline, old(self)@.out.pretty),
                    ),
                    None => None,
                },
                builder@.base(),
            ),
            builder@.result is Ok ==> !builder@.has_key && builder@.state.on_newline,
            builder@.result is Err ==> builder@.has_key == old(self)@.has_key,
            old(self)@.result is Err ==> builder@.state == old(self)@.state,
    {
        if self.result.is_ok() {
            proof {
                lemma_empty_literal();
                let v = value.rendered(self.fmt@.pretty);
                if v is Some {
                    let text = padded(
                        v->0 + ",\n"@,
                        self.state.on_newline,
                        indent_width(self.fmt@.pretty),
                    );
                    assert(""@ + ""@ + v->0 + ",\n"@ =~= v->0 + ",\n"@);
                    assert(""@ + text =~= text);
                    lemma_map_states(v->0, v->0, self.state.on_newline);
                }
            }
            let (result, state) = write_padded(self.fmt, "", self.state, "", "", value, ",\n");
            self.state = state;
            if result.is_ok() {
                self.has_key = false;
            }
            self.result = result;
        }
        self.has_fields = true;
        self
    }

    /// Adds the entries that `items` yields, in its order.
    pub fn entries<K, V, I>(&mut self, items: I) -> (builder: &mut Self)
        where
            K: crate::Debug,
            V: crate::Debug,
            I: Iterator<Item = (K, V)>,
        requires
            old(self)@.accepts_key(),
            items.obeys_prophetic_iter_laws(),
            items.decrease() is Some,
        ensures
            *final(self) == *final(builder),
            *final(builder.target()) == *final(old(self).target()),
            builder@.has_fields == (old(self)@.has_fields
                || items.remaining().len() > 0),
            old(self)@.base().step(
                match rendered_pairs(
                    items.remaining(),
                    old(self)@.out.pretty,
                ) {
                    Some(pairs) => Some(
                        map_entries(!old(self)@.has_fields, pairs, old(self)@.out.pretty),
                    ),
                    None => None,
                },
                builder@.base(),
            ),
            builder@.accepts_key(),
    {
        let mut items = items;
        let ghost all = items.remaining();
        let ghost start = self@;
        let ghost pretty = start.out.pretty;
        let ghost mut done: Seq<(K, V)> = Seq::empty();
        proof {
            start.out.lemma_write_nothing();
            assert(all.skip(0) =~= all);
        }
        loop
            invariant
                items.obeys_prophetic_iter_laws(),
                items.decrease() is Some,
                done.len() <= all.len(),
                done == all.take(done.len() as int),
                items.remaining() == all.skip(done.len() as int),
                *final(self.fmt) == *final(old(self).fmt),
                start == old(self)@,
                pretty == start.out.pretty,
                self@.accepts_key(),
                self@.has_fields == (start.has_fields || done.len() > 0),
                start.base().step(
                    match rendered_pairs(done, pretty) {
                        Some(pairs) => Some(map_entries(!start.has_fields, pairs, pretty)),
                        None => None,
                    },
                    self@.base(),
                ),
            ensures
                done == all,
                *final(self.fmt) == *final(old(self).fmt),
                self@.accepts_key(),
                self@.has_fields == (start.has_fields || done.len() > 0),
                start.base().step(
                    match rendered_pairs(done, pretty) {
                        Some(pairs) => Some(map_entries(!start.has_fields, pairs, pretty)),
                        None => None,
                    },
                    self@.base(),
                ),
            decreases items.decrease()->0,
        {
            match items.next() {
                Some(item) => {
                    self.entry(&item.0, &item.1);
                    proof {
                        assert(all.skip(done.len() as int)[0] == item);
                        assert(done.push(item) =~= all.take(done.len() as int + 1));
                        assert(all.skip(done.len() as int).drop_first() =~= all.skip(
                            done.len() as int + 1,
                        ));
                        lemma_rendered_pairs_push(done, item, pretty);
                        if rendered_pairs(done.push(item), pretty) is Some {
                            let pairs = rendered_pairs(done, pretty)->0;
                            let pair = (item.0.rendered(pretty)->0, item.1.rendered(pretty)->0);
                            lemma_map_entries_push(!start.has_fields, pairs, pair, pretty);
                            start.out.lemma_write_twice(
                                map_entries(!start.has_fields, pairs, pretty),
                                map_entry(
                                    !start.has_fields && pairs.len() == 0,
                                    pair.0,
                                    pair.1,
                                    pretty,
                                ),
                            );
                        }
                        done = done.push(item);
                    }
                },
                None => {
                    proof {
                        assert(all.skip(done.len() as int).len() == 0);
                        assert(done =~= all);
                    }
                    break ;
                },
            }
        }
        self
    }

    /// Finishes the map.
    pub fn finish(&mut self) -> (r: core::fmt::Result)
        requires
            old(self)@.accepts_key(),
        ensures
            *final(final(self).target()) == *final(old(self).target()),
            final(self)@.has_fields == old(self)@.has_fields,
            final(self)@.has_key == old(self)@.has_key,
            final(self)@.state == old(self)@.state,
            old(self)@.base().step(Some("}"@), final(self)@.base()),
            r == final(self)@.result,
    {
        if self.result.is_ok() {
            self.result = self.fmt.write_str("}");
        }
        self.result
    }
}

/// What verified callers of the builders need at the end of a builder's
/// life: the formatter then holds what the builder wrote.
pub broadcast group group_builder_resolved {
    DebugStruct::lemma_resolved,
    DebugTuple::lemma_resolved,
    DebugSet::lemma_resolved,
    DebugList::lemma_resolved,
    DebugMap::lemma_resolved,
}

} // verus!
