//! Renderings of the standard library's types.

use vstd::prelude::*;
use vstd::std_specs::iter::IteratorSpec;
use crate::decimal::{decimal, to_decimal};
use crate::layout::{
    entries, map_entries, rendered_all, rendered_pairs, struct_field, tuple_field,
};
use crate::Formatter;

verus! {

broadcast use crate::builders::group_builder_resolved;

/// What the standard library's debug formatting (`{:?}`) gives for the
/// string `s`: `s` in double quotes, with its quotes, backslashes and
/// unprintable characters escaped.
pub uninterp spec fn str_debug(s: Seq<char>) -> Seq<char>;

/// Formats `s` with the standard library's `Debug` for `str`, through
/// `format!("{:?}", s)`. The result depends on the characters of `s` alone.
#[verifier::external_body]
fn format_str(s: &str) -> (text: String)
    ensures
        text@ == str_debug(s@),
{
    format!("{:?}", s)
}

impl crate::Debug for String {
    open spec fn rendered(&self, pretty: bool) -> Option<Seq<char>> {
        Some(str_debug(self@))
    }

    fn fmt(&self, f: &mut Formatter) -> (r: core::fmt::Result) {
        f.write_debug(self.as_str())
    }
}

impl crate::Debug for &str {
    open spec fn rendered(&self, pretty: bool) -> Option<Seq<char>> {
        Some(str_debug(self@))
    }

    fn fmt(&self, f: &mut Formatter) -> (r: core::fmt::Result) {
        f.write_debug(*self)
    }
}

impl Formatter {
    /// Writes `val` as the standard library's debug formatting gives it.
    pub(crate) fn write_debug(&mut self, val: &str) -> (r: core::fmt::Result)
        ensures
            r is Ok,
            final(self)@ == old(self)@.write(str_debug(val@)),
    {
        let text = format_str(val);
        self.write_str(text.as_str())
    }
}

impl crate::Debug for bool {
    open spec fn rendered(&self, pretty: bool) -> Option<Seq<char>> {
        Some(if *self { "true"@ } else { "false"@ })
    }

    fn fmt(&self, f: &mut Formatter) -> (r: core::fmt::Result) {
        if *self {
            f.write_str("true")
        } else {
            f.write_str("false")
        }
    }
}

impl crate::Debug for () {
    open spec fn rendered(&self, pretty: bool) -> Option<Seq<char>> {
        Some("()"@)
    }

    fn fmt(&self, f: &mut Formatter) -> (r: core::fmt::Result) {
        f.write_str("()")
    }
}

impl crate::Debug for i8 {
    open spec fn rendered(&self, pretty: bool) -> Option<Seq<char>> {
        Some(decimal(*self as int))
    }

    fn fmt(&self, f: &mut Formatter) -> (r: core::fmt::Result) {
        f.write_str(to_decimal(*self as i128).as_str())
    }
}

impl crate::Debug for i16 {
    open spec fn rendered(&self, pretty: bool) -> Option<Seq<char>> {
        Some(decimal(*self as int))
    }

    fn fmt(&self, f: &mut Formatter) -> (r: core::fmt::Result) {
        f.write_str(to_decimal(*self as i128).as_str())
    }
}

impl crate::Debug for i32 {
    open spec fn rendered(&self, pretty: bool) -> Option<Seq<char>> {
        Some(decimal(*self as int))
    }

    fn fmt(&self, f: &mut Formatter) -> (r: core::fmt::Result) {
        f.write_str(to_decimal(*self as i128).as_str())
    }
}

impl crate::Debug for i64 {
    open spec fn rendered(&self, pretty: bool) -> Option<Seq<char>> {
        Some(decimal(*self as int))
    }

    fn fmt(&self, f: &mut Formatter) -> (r: core::fmt::Result) {
        f.write_str(to_decimal(*self as i128).as_str())
    }
}

impl crate::Debug for i128 {
    open spec fn rendered(&self, pretty: bool) -> Option<Seq<char>> {
        Some(decimal(*self as int))
    }

    fn fmt(&self, f: &mut Formatter) -> (r: core::fmt::Result) {
        f.write_str(to_decimal(*self).as_str())
    }
}

impl crate::Debug for isize {
    open spec fn rendered(&self, pretty: bool) -> Option<Seq<char>> {
        Some(decimal(*self as int))
    }

    fn fmt(&self, f: &mut Formatter) -> (r: core::fmt::Result) {
        f.write_str(to_decimal(*self as i128).as_str())
    }
}

impl<T: ?Sized + crate::Debug> crate::Debug for &mut T {
    open spec fn rendered(&self, pretty: bool) -> Option<Seq<char>> {
        (**self).rendered(pretty)
    }

    fn fmt(&self, f: &mut Formatter) -> (r: core::fmt::Result) {
        crate::Debug::fmt(&**self, f)
    }
}

/// What a list of `items` renders to, or `None` where the rendering of one
/// of them fails.
pub open spec fn list_rendered<T: crate::Debug>(items: Seq<T>, pretty: bool) -> Option<
    Seq<char>,
> {
    match rendered_all(items, pretty) {
        Some(values) => Some("["@ + entries(true, values, pretty) + "]"@),
        None => None,
    }
}

/// What a set of `items`, in the order in which they are given, renders to,
/// or `None` where the rendering of one of them fails.
pub open spec fn set_rendered<T: crate::Debug>(items: Seq<T>, pretty: bool) -> Option<
    Seq<char>,
> {
    match rendered_all(items, pretty) {
        Some(values) => Some("{"@ + entries(true, values, pretty) + "}"@),
        None => None,
    }
}

/// What a map of the entries `items`, in the order in which they are given,
/// renders to, or `None` where the rendering of a key or a value fails.
pub open spec fn map_rendered<K: crate::Debug, V: crate::Debug>(
    items: Seq<(K, V)>,
    pretty: bool,
) -> Option<Seq<char>> {
    match rendered_pairs(items, pretty) {
        Some(pairs) => Some("{"@ + map_entries(true, pairs, pretty) + "}"@),
        None => None,
    }
}

/// Renders what `items` yields as a list, in its order.
pub fn fmt_list<D, I>(items: I, f: &mut Formatter) -> (r: core::fmt::Result)
    where
        D: crate::Debug,
        I: Iterator<Item = D>,
    requires
        items.obeys_prophetic_iter_laws(),
        items.decrease() is Some,
    ensures
        final(f)@.same_frame(old(f)@),
        r is Ok <==> list_rendered(items.remaining(), old(f)@.pretty) is Some,
        r is Ok ==> final(f)@ == old(f)@.write(
            list_rendered(items.remaining(), old(f)@.pretty)->0,
        ),
{
    let ghost start = f@;
    let ghost pretty = start.pretty;
    let ghost all = items.remaining();
    let r = f.debug_list().entries(items).finish();
    proof {
        if r is Ok {
            let values = rendered_all(all, pretty)->0;
            start.lemma_write_twice("["@, entries(true, values, pretty));
            start.lemma_write_twice("["@ + entries(true, values, pretty), "]"@);
        }
    }
    r
}

/// Renders what `items` yields as a set, in its order: nothing is sorted
/// and nothing is left out.
pub fn fmt_set<D, I>(items: I, f: &mut Formatter) -> (r: core::fmt::Result)
    where
        D: crate::Debug,
        I: Iterator<Item = D>,
    requires
        items.obeys_prophetic_iter_laws(),
        items.decrease() is Some,
    ensures
        final(f)@.same_frame(old(f)@),
        r is Ok <==> set_rendered(items.remaining(), old(f)@.pretty) is Some,
        r is Ok ==> final(f)@ == old(f)@.write(
            set_rendered(items.remaining(), old(f)@.pretty)->0,
        ),
{
    let ghost start = f@;
    let ghost pretty = start.pretty;
    let ghost all = items.remaining();
    let r = f.debug_set().entries(items).finish();
    proof {
        if r is Ok {
            let values = rendered_all(all, pretty)->0;
            start.lemma_write_twice("{"@, entries(true, values, pretty));
            start.lemma_write_twice("{"@ + entries(true, values, pretty), "}"@);
        }
    }
    r
}

/// Renders the pairs that `items` yields as a map, in its order.
pub fn fmt_map<K, V, I>(items: I, f: &mut Formatter) -> (r: core::fmt::Result)
    where
        K: crate::Debug,
        V: crate::Debug,
        I: Iterator<Item = (K, V)>,
    requires
        items.obeys_prophetic_iter_laws(),
        items.decrease() is Some,
    ensures
        final(f)@.same_frame(old(f)@),
        r is Ok <==> map_rendered(items.remaining(), old(f)@.pretty) is Some,
        r is Ok ==> final(f)@ == old(f)@.write(
            map_rendered(items.remaining(), old(f)@.pretty)->0,
        ),
{
    let ghost start = f@;
    let ghost pretty = start.pretty;
    let ghost all = items.remaining();
    let r = f.debug_map().entries(items).finish();
    proof {
        if r is Ok {
            let pairs = rendered_pairs(all, pretty)->0;
            start.lemma_write_twice("{"@, map_entries(true, pairs, pretty));
            start.lemma_write_twice("{"@ + map_entries(true, pairs, pretty), "}"@);
        }
    }
    r
}

impl<T: crate::Debug> crate::Debug for [T] {
    open spec fn rendered(&self, pretty: bool) -> Option<Seq<char>> {
        list_rendered(self@, pretty)
    }

    fn fmt(&self, f: &mut Formatter) -> (r: core::fmt::Result) {
        let items = self.iter();
        proof {
            vstd::std_specs::slice::axiom_spec_slice_iter(self);
            lemma_rendered_all_refs(self@, f@.pretty);
        }
        fmt_list(items, f)
    }
}

impl<T: crate::Debug> crate::Debug for Vec<T> {
    open spec fn rendered(&self, pretty: bool) -> Option<Seq<char>> {
        list_rendered(self@, pretty)
    }

    fn fmt(&self, f: &mut Formatter) -> (r: core::fmt::Result) {
        crate::Debug::fmt(self.as_slice(), f)
    }
}

impl<T: crate::Debug> crate::Debug for std::collections::VecDeque<T> {
    open spec fn rendered(&self, pretty: bool) -> Option<Seq<char>> {
        list_rendered(self@, pretty)
    }

    fn fmt(&self, f: &mut Formatter) -> (r: core::fmt::Result) {
        let items = self.iter();
        proof {
            vstd::std_specs::vecdeque::axiom_spec_iter(self);
            lemma_rendered_all_refs(self@, f@.pretty);
        }
        fmt_list(items, f)
    }
}

impl<T: crate::Debug> crate::Debug for Option<T> {
    open spec fn rendered(&self, pretty: bool) -> Option<Seq<char>> {
        match self {
            Some(v) => match v.rendered(pretty) {
                Some(text) => Some("Some"@ + tuple_field(true, text, pretty) + ")"@),
                None => None,
            },
            None => Some("None"@),
        }
    }

    fn fmt(&self, f: &mut Formatter) -> (r: core::fmt::Result) {
        let ghost start = f@;
        let ghost pretty = start.pretty;
        match self {
            Some(v) => {
                let r = f.debug_tuple("Some").field(v).finish();
                proof {
                    if r is Ok {
                        let text = v.rendered(pretty)->0;
                        start.lemma_write_twice("Some"@, tuple_field(true, text, pretty));
                        start.lemma_write_twice("Some"@ + tuple_field(true, text, pretty), ")"@);
                    }
                }
                r
            },
            None => {
                let r = f.debug_tuple("None").finish();
                proof {
                    start.write("None"@).lemma_write_nothing();
                }
                r
            },
        }
    }
}

impl<T: ?Sized> crate::Debug for core::marker::PhantomData<T> {
    open spec fn rendered(&self, pretty: bool) -> Option<Seq<char>> {
        Some("PhantomData"@)
    }

    fn fmt(&self, f: &mut Formatter) -> (r: core::fmt::Result) {
        let ghost start = f@;
        let r = f.debug_struct("PhantomData").finish();
        proof {
            start.write("PhantomData"@).lemma_write_nothing();
        }
        r
    }
}

/// What a cell that holds a value which renders to `value` renders to:
/// `None` where that rendering fails.
pub open spec fn cell_rendered(value: Option<Seq<char>>, pretty: bool) -> Option<Seq<char>> {
    match value {
        Some(v) => Some("Cell"@ + struct_field(true, "value"@, v, pretty) + "}"@),
        None => None,
    }
}

/// Renders a cell that holds `value`.
pub fn fmt_cell<T: crate::Debug + ?Sized>(value: &T, f: &mut Formatter) -> (r: core::fmt::Result)
    ensures
        final(f)@.same_frame(old(f)@),
        r is Ok <==> value.rendered(old(f)@.pretty) is Some,
        r is Ok ==> final(f)@ == old(f)@.write(
            cell_rendered(value.rendered(old(f)@.pretty), old(f)@.pretty)->0,
        ),
{
    let ghost start = f@;
    let ghost pretty = start.pretty;
    let r = f.debug_struct("Cell").field("value", value).finish();
    proof {
        if r is Ok {
            let field = struct_field(true, "value"@, value.rendered(pretty)->0, pretty);
            start.lemma_write_twice("Cell"@, field);
            start.lemma_write_twice("Cell"@ + field, "}"@);
        }
    }
    r
}

/// Stands for the value of a shared cell while the value is borrowed for
/// writing elsewhere: it renders to the bare text `<borrowed>`.
pub struct BorrowedPlaceholder;

impl crate::Debug for BorrowedPlaceholder {
    open spec fn rendered(&self, pretty: bool) -> Option<Seq<char>> {
        Some("<borrowed>"@)
    }

    fn fmt(&self, f: &mut Formatter) -> (r: core::fmt::Result) {
        f.write_str("<borrowed>")
    }
}

/// What a shared cell renders to. `value` is `None` where the value of the
/// cell cannot be read, because it is borrowed for writing: the cell then
/// shows the placeholder. Otherwise `value` holds what the value of the
/// cell renders to, and the cell shows that; where that rendering fails, so
/// does the cell's.
pub open spec fn ref_cell_rendered(value: Option<Option<Seq<char>>>, pretty: bool) -> Option<
    Seq<char>,
> {
    match value {
        Some(Some(v)) => Some("RefCell"@ + struct_field(true, "value"@, v, pretty) + "}"@),
        Some(None) => None,
        None => Some("RefCell"@ + struct_field(true, "value"@, "<borrowed>"@, pretty) + "}"@),
    }
}

/// Renders a shared cell. `value` is what an attempt to borrow the cell for
/// reading gave: the value of the cell, or `None` where the cell is borrowed
/// for writing.
pub fn fmt_ref_cell<T: crate::Debug + ?Sized>(value: Option<&T>, f: &mut Formatter) -> (r:
    core::fmt::Result)
    ensures
        final(f)@.same_frame(old(f)@),
        r is Ok <==> (value is Some ==> value->0.rendered(old(f)@.pretty) is Some),
        r is Ok ==> final(f)@ == old(f)@.write(
            ref_cell_rendered(
                match value {
                    Some(v) => Some(v.rendered(old(f)@.pretty)),
                    None => None,
                },
                old(f)@.pretty,
            )->0,
        ),
{
    let ghost start = f@;
    let ghost pretty = start.pretty;
    match value {
        Some(v) => {
            let r = f.debug_struct("RefCell").field("value", v).finish();
            proof {
                if r is Ok {
                    let field = struct_field(true, "value"@, v.rendered(pretty)->0, pretty);
                    start.lemma_write_twice("RefCell"@, field);
                    start.lemma_write_twice("RefCell"@ + field, "}"@);
                }
            }
            r
        },
        None => {
            let r = f.debug_struct("RefCell").field("value", &BorrowedPlaceholder).finish();
            proof {
                let field = struct_field(true, "value"@, "<borrowed>"@, pretty);
                start.lemma_write_twice("RefCell"@, field);
                start.lemma_write_twice("RefCell"@ + field, "}"@);
            }
            r
        },
    }
}

/// What an unsafe cell renders to: its name, and a mark for the content that
/// is not shown.
pub open spec fn unsafe_cell_rendered() -> Seq<char> {
    "UnsafeCell"@ + " { .. }"@
}

/// Renders an unsafe cell, whose content is not read.
pub fn fmt_unsafe_cell(f: &mut Formatter) -> (r: core::fmt::Result)
    ensures
        r is Ok,
        final(f)@ == old(f)@.write(unsafe_cell_rendered()),
{
    let ghost start = f@;
    let r = f.debug_struct("UnsafeCell").finish_non_exhaustive();
    proof {
        start.lemma_write_twice("UnsafeCell"@, " { .. }"@);
    }
    r
}

/// The rendering of a list fails if and only if that of one of its items
/// fails, wherever in the list that item stands.
pub proof fn lemma_list_fails_with_an_item<T: crate::Debug>(items: Seq<T>, pretty: bool)
    ensures
        list_rendered(items, pretty) is None <==> exists|i: int|
            0 <= i < items.len() && (#[trigger] items[i]).rendered(pretty) is None,
{
    if list_rendered(items, pretty) is None {
        let i = choose|i: int|
            0 <= i < items.len() && !((#[trigger] items[i]).rendered(pretty) is Some);
        assert(items[i].rendered(pretty) is None);
    }
}

/// References render as what they refer to.
pub proof fn lemma_rendered_all_refs<T: crate::Debug>(items: Seq<T>, pretty: bool)
    ensures
        rendered_all(items.as_ref(), pretty) == rendered_all(items, pretty),
{
    let refs = items.as_ref();
    assert forall|i: int| 0 <= i < items.len() implies (#[trigger] refs[i]).rendered(pretty)
        == items[i].rendered(pretty) by {}
    if rendered_all(items, pretty) is Some {
        assert forall|i: int| 0 <= i < refs.len() implies (#[trigger] refs[i]).rendered(
            pretty,
        ) is Some by {
            assert(items[i].rendered(pretty) is Some);
        }
        assert(rendered_all(refs, pretty)->0 =~= rendered_all(items, pretty)->0);
    } else {
        let i = choose|i: int|
            0 <= i < items.len() && !((#[trigger] items[i]).rendered(pretty) is Some);
        assert(!(refs[i].rendered(pretty) is Some));
    }
}

} // verus!
