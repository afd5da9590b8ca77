use debug2::pad::PadAdapterState;
use debug2::{pprint, pprint_checked, Formatter};
use std::cell::Cell;
use std::fmt::Result;

/// Writes its text as it is, without quotes.
struct Raw(&'static str);

impl debug2::Debug for Raw {
    fn fmt(&self, f: &mut Formatter) -> Result {
        f.write_str(self.0)
    }
}

/// Fails without writing.
struct Fails;

impl debug2::Debug for Fails {
    fn fmt(&self, _: &mut Formatter) -> Result {
        Err(std::fmt::Error)
    }
}

/// Counts how often it is rendered.
struct Counted<'a>(&'a Cell<u32>);

impl debug2::Debug for Counted<'_> {
    fn fmt(&self, f: &mut Formatter) -> Result {
        self.0.set(self.0.get() + 1);
        f.write_str("counted")
    }
}

#[test]
fn eighty_characters_stay_flat() {
    let text = "x".repeat(73);
    let flat = format!("[\n\"{}\",\n]", text);
    assert_eq!(flat.chars().count(), 80);
    assert_eq!(pprint(vec![text]), flat);
}

#[test]
fn eighty_one_characters_are_indented() {
    let text = "x".repeat(74);
    assert_eq!(format!("[\n\"{}\",\n]", text).chars().count(), 81);
    assert_eq!(pprint(vec![text.clone()]), format!("[\n    \"{}\",\n]", text));
}

#[test]
fn length_is_counted_in_characters() {
    // 80 characters in 153 bytes
    let text = "\u{e9}".repeat(73);
    let flat = format!("[\n\"{}\",\n]", text);
    assert_eq!(flat.chars().count(), 80);
    assert_eq!(flat.len(), 153);
    assert_eq!(pprint(vec![text]), flat);

    let text = "\u{e9}".repeat(74);
    assert_eq!(pprint(vec![text.clone()]), format!("[\n    \"{}\",\n]", text));
}

#[test]
fn flat_rendering_has_no_indentation() {
    let nested = vec![vec![vec![100, 101, 102, 103, 104, 105, 106, 107, 108, 109]]];
    assert_eq!(
        pprint(nested),
        "[\n[\n[\n100,\n101,\n102,\n103,\n104,\n105,\n106,\n107,\n108,\n109,\n],\n],\n]"
    );
}

#[test]
fn every_depth_adds_four_spaces() {
    let numbers = vec![vec![vec![10; 10]; 2]];
    let text = pprint(numbers);
    let lines: Vec<&str> = text.lines().collect();
    assert_eq!(lines[0], "[");
    assert_eq!(lines[1], "    [");
    assert_eq!(lines[2], "        [");
    assert_eq!(lines[3], "            10,");
    assert_eq!(lines[13], "        ],");
    assert_eq!(lines[lines.len() - 2], "    ],");
    assert_eq!(lines[lines.len() - 1], "]");
}

#[test]
fn every_line_of_a_nested_value_is_indented() {
    let value = (vec![Raw("a\n\nb")], "y".repeat(70));
    assert_eq!(
        pprint(value),
        format!(
            "(\n    [\n        a\n        \n        b,\n    ],\n    \"{}\",\n)",
            "y".repeat(70)
        )
    );
}

#[test]
fn indentation_writer_marks_line_starts() {
    let mut state = PadAdapterState { on_newline: true };
    assert_eq!(state.write_str("ab", true), "    ab");
    assert!(!state.on_newline);
    assert_eq!(state.write_str("c\nd", true), "c\n    d");
    assert!(!state.on_newline);
    assert_eq!(state.write_str("\n", true), "\n");
    assert!(state.on_newline);
    assert_eq!(state.write_str("", true), "");
    assert!(state.on_newline);
    assert_eq!(state.write_str("\n\nx\n", true), "    \n    \n    x\n");
    assert!(state.on_newline);
}

#[test]
fn indentation_writer_adds_nothing_when_flat() {
    let mut state = PadAdapterState { on_newline: true };
    assert_eq!(state.write_str("a\nb\n", false), "a\nb\n");
    assert!(state.on_newline);
    assert_eq!(state.write_str("c", false), "c");
    assert!(!state.on_newline);
}

#[test]
fn indentation_writer_starts_at_a_line_start() {
    assert!(PadAdapterState::default().on_newline);
}

struct Config;

impl debug2::Debug for Config {
    fn fmt(&self, f: &mut Formatter) -> Result {
        f.debug_struct("Config")
            .field("name", &"n".repeat(40))
            .field("path", &"p".repeat(40))
            .finish_non_exhaustive()
    }
}

#[test]
fn non_exhaustive_struct_indented() {
    assert_eq!(
        pprint(Config),
        format!(
            "Config {{\n    name: \"{}\",\n    path: \"{}\",\n    ..\n}}",
            "n".repeat(40),
            "p".repeat(40)
        )
    );
}

struct Pairs(Vec<(i32, String)>);

impl debug2::Debug for Pairs {
    fn fmt(&self, f: &mut Formatter) -> Result {
        f.debug_map()
            .entries(self.0.iter().map(|(k, v)| (k, v)))
            .finish()
    }
}

struct PairsByKeyValue(Vec<(i32, String)>);

impl debug2::Debug for PairsByKeyValue {
    fn fmt(&self, f: &mut Formatter) -> Result {
        let mut map = f.debug_map();
        for (k, v) in self.0.iter() {
            map.key(k);
            map.value(v);
        }
        map.finish()
    }
}

struct PairsByEntry(Vec<(i32, String)>);

impl debug2::Debug for PairsByEntry {
    fn fmt(&self, f: &mut Formatter) -> Result {
        let mut map = f.debug_map();
        for (k, v) in self.0.iter() {
            map.entry(k, v);
        }
        map.finish()
    }
}

fn pairs(n: i32) -> Vec<(i32, String)> {
    (1..=n).map(|k| (k, "v".repeat(20))).collect()
}

#[test]
fn map_entries_indented() {
    let v = "v".repeat(20);
    assert_eq!(
        pprint(Pairs(pairs(4))),
        format!(
            "{{\n    1: \"{v}\",\n    2: \"{v}\",\n    3: \"{v}\",\n    4: \"{v}\",\n}}",
            v = v
        )
    );
}

#[test]
fn entry_is_key_then_value() {
    for n in 0..6 {
        let by_entries = pprint(Pairs(pairs(n)));
        assert_eq!(pprint(PairsByEntry(pairs(n))), by_entries);
        assert_eq!(pprint(PairsByKeyValue(pairs(n))), by_entries);
    }
}

struct Items<'a, T>(&'a [T]);

impl<T: debug2::Debug> debug2::Debug for Items<'_, T> {
    fn fmt(&self, f: &mut Formatter) -> Result {
        f.debug_set().entries(self.0.iter()).finish()
    }
}

#[test]
fn set_entries_in_iteration_order() {
    assert_eq!(pprint(Items(&[3, 1, 2, 1])), "{\n3,\n1,\n2,\n1,\n}");
    assert_eq!(pprint(Items::<i32>(&[])), "{}");
}

struct Record<'a>(&'a [Option<u8>]);

/// `None` stands for a value whose rendering fails.
struct Slot(Option<u8>);

impl debug2::Debug for Slot {
    fn fmt(&self, f: &mut Formatter) -> Result {
        match self.0 {
            Some(n) => f.debug_tuple("Slot").field(&(n as i32)).finish(),
            None => Err(std::fmt::Error),
        }
    }
}

impl debug2::Debug for Record<'_> {
    fn fmt(&self, f: &mut Formatter) -> Result {
        let mut record = f.debug_struct("Record");
        for slot in self.0 {
            record.field("slot", &Slot(*slot));
        }
        record.finish()
    }
}

#[test]
fn one_failure_fails_the_whole() {
    let good = [Some(1), Some(2), Some(3)];
    assert!(pprint_checked(Record(&good)).is_ok());
    for at in 0..3 {
        let mut slots = good;
        slots[at] = None;
        assert!(pprint_checked(Record(&slots)).is_err());
        let list: Vec<Slot> = slots.iter().map(|s| Slot(*s)).collect();
        assert!(pprint_checked(&list).is_err());
        assert!(pprint_checked(Items(&list)).is_err());
    }
    assert!(pprint_checked((1, Fails, 3)).is_err());
    assert!(pprint_checked(Some(Fails)).is_err());
    assert!(pprint_checked(vec![vec![Some(Fails)]]).is_err());
    assert!(pprint_checked(Fails).is_err());
}

#[test]
fn nothing_is_rendered_after_a_failure() {
    let count = Cell::new(0);
    assert!(pprint_checked((Counted(&count), Counted(&count))).is_ok());
    // two fields, rendered once: the text is short
    assert_eq!(count.get(), 2);

    let count = Cell::new(0);
    assert!(pprint_checked((Counted(&count), Fails, Counted(&count), Counted(&count))).is_err());
    assert_eq!(count.get(), 1);
}

struct Good;

impl debug2::Debug for Good {
    fn fmt(&self, f: &mut Formatter) -> Result {
        f.debug_struct("Good").finish()
    }
}

#[test]
fn checked_printing_reports_failure() {
    assert_eq!(pprint_checked(Good), Ok("Good".to_string()));
    assert_eq!(pprint_checked(Fails), Err(std::fmt::Error));
}

/// Says in which layout it is rendered; `long` makes the flat text too
/// long to be returned.
struct Layout {
    long: bool,
}

impl debug2::Debug for Layout {
    fn fmt(&self, f: &mut Formatter) -> Result {
        if f.is_pretty() {
            f.write_str("pretty")
        } else if self.long {
            f.write_str(&"f".repeat(81))
        } else {
            f.write_str("flat")
        }
    }
}

#[test]
fn formatter_knows_its_layout() {
    assert_eq!(pprint(Layout { long: false }), "flat");
    assert_eq!(pprint(Layout { long: true }), "pretty");
}

#[test]
fn values_behind_trait_objects() {
    let items: Vec<&dyn debug2::Debug> = vec![&1, &"two", &true, &Good];
    assert_eq!(pprint(Items(&items)), "{\n1,\n\"two\",\ntrue,\nGood,\n}");
    let boxed: &dyn debug2::Debug = &(1, 2);
    assert_eq!(pprint(boxed), "(\n1,\n2,\n)");
}
