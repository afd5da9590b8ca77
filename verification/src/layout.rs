//! What each step of a builder writes.

use vstd::prelude::*;
use crate::pad::{
    indent_width, lemma_padded_concat, lemma_padded_flat, lemma_padded_one_line, on_newline_after,
    padded, spaces, INDENT,
};

verus! {

/// The empty literal is the empty text.
pub proof fn lemma_empty_literal()
    ensures
        ""@ == Seq::<char>::empty(),
{
    reveal_strlit("");
    assert(""@ =~= Seq::<char>::empty());
}

/// One entry of a bracketed form: `item` and a comma, on a line of its own
/// inside an indentation writer.
pub open spec fn line(item: Seq<char>, pretty: bool) -> Seq<char> {
    padded(item + ",\n"@, true, indent_width(pretty))
}

/// In flat layout an entry is its item and a comma, with no indentation,
/// whatever the item holds.
pub proof fn lemma_line_flat(item: Seq<char>)
    ensures
        line(item, false) == item + ",\n"@,
{
    lemma_padded_flat(item + ",\n"@, true);
}

/// In indented layout an entry whose item is one line is that line,
/// indented by one unit.
pub proof fn lemma_line_pretty(item: Seq<char>)
    requires
        !item.contains('\n'),
    ensures
        line(item, true) == spaces(INDENT as nat) + item + ",\n"@,
{
    let text = item + ",\n"@;
    reveal_strlit(",\n");
    assert forall|i: int| 0 <= i < text.len() - 1 implies text[i] != '\n' by {
        if i < item.len() {
            assert(item.contains(text[i]));
        }
    }
    lemma_padded_one_line(text, true, INDENT as nat);
    assert(spaces(INDENT as nat) + (item + ",\n"@) =~= spaces(INDENT as nat) + item + ",\n"@);
}

/// What adding a field to a struct writes: the opening brace before the
/// first field, then the line `name: value,`.
pub open spec fn struct_field(
    first: bool,
    name: Seq<char>,
    value: Seq<char>,
    pretty: bool,
) -> Seq<char> {
    (if first {
        " {\n"@
    } else {
        Seq::empty()
    }) + line(name + ": "@ + value, pretty)
}

/// What finishing a struct writes: the closing brace if it has fields.
pub open spec fn struct_end(has_fields: bool) -> Seq<char> {
    if has_fields {
        "}"@
    } else {
        Seq::empty()
    }
}

/// What finishing a struct as non-exhaustive writes.
pub open spec fn struct_end_non_exhaustive(has_fields: bool, pretty: bool) -> Seq<char> {
    if has_fields {
        padded("..\n"@, true, indent_width(pretty)) + "}"@
    } else {
        " { .. }"@
    }
}

/// What adding a field to a tuple writes: the opening parenthesis before
/// the first field, then the line `value,`.
pub open spec fn tuple_field(first: bool, value: Seq<char>, pretty: bool) -> Seq<char> {
    (if first {
        "(\n"@
    } else {
        Seq::empty()
    }) + line(value, pretty)
}

/// What adding a field to a tuple writes where the value of the field
/// renders to `value`; `None` where that rendering fails.
pub open spec fn tuple_field_of(
    first: bool,
    value: Option<Seq<char>>,
    pretty: bool,
) -> Option<Seq<char>> {
    match value {
        Some(v) => Some(tuple_field(first, v, pretty)),
        None => None,
    }
}

/// `a` followed by `b`; `None` where one of them is.
pub open spec fn joined(a: Option<Seq<char>>, b: Option<Seq<char>>) -> Option<Seq<char>> {
    match (a, b) {
        (Some(a), Some(b)) => Some(a + b),
        _ => None,
    }
}

/// What finishing a tuple writes: the closing parenthesis if it has fields.
pub open spec fn tuple_end(has_fields: bool) -> Seq<char> {
    if has_fields {
        ")"@
    } else {
        Seq::empty()
    }
}

/// What adding an entry to a list or a set writes: a line break before the
/// first entry, then the line `value,`.
pub open spec fn entry(first: bool, value: Seq<char>, pretty: bool) -> Seq<char> {
    (if first {
        "\n"@
    } else {
        Seq::empty()
    }) + line(value, pretty)
}

/// What adding `values`, one after another, to a list or a set writes.
pub open spec fn entries(first: bool, values: Seq<Seq<char>>, pretty: bool) -> Seq<char>
    decreases values.len(),
{
    if values.len() == 0 {
        Seq::empty()
    } else {
        entries(first, values.drop_last(), pretty) + entry(
            first && values.len() == 1,
            values.last(),
            pretty,
        )
    }
}

/// The renderings of `items`, in order, or `None` where that of one of them
/// fails.
pub open spec fn rendered_all<D: crate::Debug>(items: Seq<D>, pretty: bool) -> Option<
    Seq<Seq<char>>,
> {
    if forall|i: int| 0 <= i < items.len() ==> (#[trigger] items[i]).rendered(pretty) is Some {
        Some(Seq::new(items.len(), |i: int| items[i].rendered(pretty)->0))
    } else {
        None
    }
}

/// The renderings of `items` and of one more item are those of `items`
/// followed by that of the item, and fail where one of them fails.
pub proof fn lemma_rendered_all_push<D: crate::Debug>(items: Seq<D>, item: D, pretty: bool)
    ensures
        rendered_all(items.push(item), pretty) == match (
            rendered_all(items, pretty),
            item.rendered(pretty),
        ) {
            (Some(values), Some(v)) => Some(values.push(v)),
            _ => None,
        },
{
    let more = items.push(item);
    assert(more[items.len() as int] == item);
    assert forall|i: int| 0 <= i < items.len() implies more[i] == items[i] by {}
    match (rendered_all(items, pretty), item.rendered(pretty)) {
        (Some(values), Some(v)) => {
            assert forall|i: int| 0 <= i < more.len() implies (#[trigger] more[i]).rendered(
                pretty,
            ) is Some by {
                if i < items.len() {
                    assert(items[i].rendered(pretty) is Some);
                }
            }
            assert(rendered_all(more, pretty)->0 =~= values.push(v));
        },
        (None, _) => {
            let i = choose|i: int|
                0 <= i < items.len() && !((#[trigger] items[i]).rendered(pretty) is Some);
            assert(!(more[i].rendered(pretty) is Some));
        },
        (_, None) => {
            assert(!(more[items.len() as int].rendered(pretty) is Some));
        },
    }
}

/// Adding one more value to a list or a set writes its entry after the
/// entries of the values before it.
pub proof fn lemma_entries_push(first: bool, values: Seq<Seq<char>>, v: Seq<char>, pretty: bool)
    ensures
        entries(first, values.push(v), pretty) == entries(first, values, pretty) + entry(
            first && values.len() == 0,
            v,
            pretty,
        ),
{
    assert(values.push(v).drop_last() =~= values);
}

/// What adding a key to a map writes: a line break before the first entry,
/// then `key: ` inside an indentation writer that is at a line start.
pub open spec fn map_key(first: bool, key: Seq<char>, pretty: bool) -> Seq<char> {
    (if first {
        "\n"@
    } else {
        Seq::empty()
    }) + padded(key + ": "@, true, indent_width(pretty))
}

/// What adding the value of a key to a map writes: `value,` and a line
/// break, inside the indentation writer as the key left it.
pub open spec fn map_value(value: Seq<char>, on_newline: bool, pretty: bool) -> Seq<char> {
    padded(value + ",\n"@, on_newline, indent_width(pretty))
}

/// What adding a whole entry to a map writes: a line break before the first
/// entry, then the line `key: value,`.
pub open spec fn map_entry(
    first: bool,
    key: Seq<char>,
    value: Seq<char>,
    pretty: bool,
) -> Seq<char> {
    (if first {
        "\n"@
    } else {
        Seq::empty()
    }) + line(key + ": "@ + value, pretty)
}

/// What adding the entries `pairs`, one after another, to a map writes.
pub open spec fn map_entries(
    first: bool,
    pairs: Seq<(Seq<char>, Seq<char>)>,
    pretty: bool,
) -> Seq<char>
    decreases pairs.len(),
{
    if pairs.len() == 0 {
        Seq::empty()
    } else {
        map_entries(first, pairs.drop_last(), pretty) + map_entry(
            first && pairs.len() == 1,
            pairs.last().0,
            pairs.last().1,
            pretty,
        )
    }
}

/// The renderings of the keys and values of `items`, in order, or `None`
/// where that of one of them fails.
pub open spec fn rendered_pairs<K: crate::Debug, V: crate::Debug>(
    items: Seq<(K, V)>,
    pretty: bool,
) -> Option<Seq<(Seq<char>, Seq<char>)>> {
    if forall|i: int|
        0 <= i < items.len() ==> (#[trigger] items[i]).0.rendered(pretty) is Some
            && items[i].1.rendered(pretty) is Some {
        Some(
            Seq::new(
                items.len(),
                |i: int| (items[i].0.rendered(pretty)->0, items[i].1.rendered(pretty)->0),
            ),
        )
    } else {
        None
    }
}

/// The renderings of `items` and of one more pair are those of `items`
/// followed by those of the pair, and fail where one of them fails.
pub proof fn lemma_rendered_pairs_push<K: crate::Debug, V: crate::Debug>(
    items: Seq<(K, V)>,
    item: (K, V),
    pretty: bool,
)
    ensures
        rendered_pairs(items.push(item), pretty) == match (
            rendered_pairs(items, pretty),
            item.0.rendered(pretty),
            item.1.rendered(pretty),
        ) {
            (Some(pairs), Some(k), Some(v)) => Some(pairs.push((k, v))),
            _ => None,
        },
{
    let more = items.push(item);
    assert(more[items.len() as int] == item);
    assert forall|i: int| 0 <= i < items.len() implies more[i] == items[i] by {}
    match (rendered_pairs(items, pretty), item.0.rendered(pretty), item.1.rendered(pretty)) {
        (Some(pairs), Some(k), Some(v)) => {
            assert forall|i: int| 0 <= i < more.len() implies (#[trigger] more[i]).0.rendered(
                pretty,
            ) is Some && more[i].1.rendered(pretty) is Some by {
                if i < items.len() {
                    assert(items[i].0.rendered(pretty) is Some);
                }
            }
            assert(rendered_pairs(more, pretty)->0 =~= pairs.push((k, v)));
        },
        (None, _, _) => {
            let i = choose|i: int|
                0 <= i < items.len() && !((#[trigger] items[i]).0.rendered(pretty) is Some
                    && items[i].1.rendered(pretty) is Some);
            assert(!(more[i].0.rendered(pretty) is Some && more[i].1.rendered(pretty) is Some));
        },
        _ => {
            let last = more[items.len() as int];
            assert(!(last.0.rendered(pretty) is Some && last.1.rendered(pretty) is Some));
        },
    }
}

/// Adding one more entry to a map writes it after the entries before it.
pub proof fn lemma_map_entries_push(
    first: bool,
    pairs: Seq<(Seq<char>, Seq<char>)>,
    pair: (Seq<char>, Seq<char>),
    pretty: bool,
)
    ensures
        map_entries(first, pairs.push(pair), pretty) == map_entries(first, pairs, pretty)
            + map_entry(first && pairs.len() == 0, pair.0, pair.1, pretty),
{
    assert(pairs.push(pair).drop_last() =~= pairs);
}

/// An indentation writer is in the middle of a line after a key, and at a
/// line start after a value.
pub proof fn lemma_map_states(key: Seq<char>, value: Seq<char>, on_newline: bool)
    ensures
        !on_newline_after(key + ": "@, on_newline),
        on_newline_after(value + ",\n"@, on_newline),
{
    reveal_strlit(": ");
    reveal_strlit(",\n");
    assert((key + ": "@).last() == ' ');
    assert((value + ",\n"@).last() == '\n');
}

/// A key and then its value write, character for character, what the whole
/// entry writes.
pub proof fn lemma_entry_is_key_then_value(
    first: bool,
    key: Seq<char>,
    value: Seq<char>,
    pretty: bool,
)
    ensures
        map_key(first, key, pretty) + map_value(
            value,
            on_newline_after(key + ": "@, true),
            pretty,
        ) == map_entry(first, key, value, pretty),
        map_key(first, key, pretty) + map_value(value, false, pretty) == map_entry(
            first,
            key,
            value,
            pretty,
        ),
{
    let width = indent_width(pretty);
    let open = if first { "\n"@ } else { Seq::<char>::empty() };
    lemma_map_states(key, value, true);
    lemma_padded_concat(key + ": "@, value + ",\n"@, true, width);
    assert((key + ": "@) + (value + ",\n"@) =~= key + ": "@ + value + ",\n"@);
    assert(open + padded(key + ": "@, true, width) + padded(value + ",\n"@, false, width) =~= open
        + (padded(key + ": "@, true, width) + padded(value + ",\n"@, false, width)));
}

} // verus!
