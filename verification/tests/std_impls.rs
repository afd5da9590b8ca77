use debug2::decimal::to_decimal;
use debug2::std_impls::{
    fmt_cell, fmt_list, fmt_map, fmt_ref_cell, fmt_set, fmt_unsafe_cell, BorrowedPlaceholder,
};
use debug2::{pprint, pprint_checked, Formatter};
use std::cell::{Cell, RefCell};
use std::collections::{BTreeMap, BTreeSet, HashMap, LinkedList, VecDeque};
use std::marker::PhantomData;

#[test]
fn booleans_and_unit() {
    assert_eq!(pprint(true), "true");
    assert_eq!(pprint(false), "false");
    assert_eq!(pprint(()), "()");
}

#[test]
fn decimal_of_small_numbers() {
    assert_eq!(to_decimal(0), "0");
    assert_eq!(to_decimal(7), "7");
    assert_eq!(to_decimal(9), "9");
    assert_eq!(to_decimal(10), "10");
    assert_eq!(to_decimal(1024), "1024");
    assert_eq!(to_decimal(-1), "-1");
    assert_eq!(to_decimal(-10), "-10");
    assert_eq!(to_decimal(1234567890), "1234567890");
}

#[test]
fn decimal_of_the_extremes() {
    assert_eq!(to_decimal(i128::MAX), "170141183460469231731687303715884105727");
    assert_eq!(to_decimal(i128::MIN), "-170141183460469231731687303715884105728");
    assert_eq!(to_decimal(i128::MIN + 1), "-170141183460469231731687303715884105727");
}

#[test]
fn integers_as_the_standard_library_prints_them() {
    assert_eq!(pprint(i8::MIN), format!("{:?}", i8::MIN));
    assert_eq!(pprint(i8::MAX), format!("{:?}", i8::MAX));
    assert_eq!(pprint(i16::MIN), format!("{:?}", i16::MIN));
    assert_eq!(pprint(i32::MIN), format!("{:?}", i32::MIN));
    assert_eq!(pprint(i64::MIN), format!("{:?}", i64::MIN));
    assert_eq!(pprint(i64::MAX), format!("{:?}", i64::MAX));
    assert_eq!(pprint(i128::MIN), format!("{:?}", i128::MIN));
    assert_eq!(pprint(isize::MIN), format!("{:?}", isize::MIN));
    assert_eq!(pprint(-305_i32), "-305");
    for n in -1100..1100_i32 {
        assert_eq!(pprint(n), format!("{:?}", n));
    }
}

#[test]
fn strings_are_quoted_and_escaped() {
    assert_eq!(pprint("10/20"), "\"10/20\"");
    assert_eq!(pprint("a\"b\\c\n"), "\"a\\\"b\\\\c\\n\"");
    assert_eq!(pprint(String::from("Hello World")), "\"Hello World\"");
    assert_eq!(pprint(""), "\"\"");
    assert_eq!(pprint("tab\there"), format!("{:?}", "tab\there"));
}

#[test]
fn options() {
    assert_eq!(pprint(Some(1)), "Some(\n1,\n)");
    assert_eq!(pprint(None::<i32>), "None");
    assert_eq!(pprint(Some(Some("x"))), "Some(\nSome(\n\"x\",\n),\n)");
}

#[test]
fn references() {
    let mut n = 5;
    assert_eq!(pprint(&n), "5");
    assert_eq!(pprint(&&n), "5");
    assert_eq!(pprint(&mut n), "5");
}

#[test]
fn lists() {
    assert_eq!(pprint(vec![10, 11]), "[\n10,\n11,\n]");
    assert_eq!(pprint(Vec::<bool>::new()), "[]");
    assert_eq!(pprint(&[true, false][..]), "[\ntrue,\nfalse,\n]");
    let mut deque = VecDeque::new();
    deque.push_back(2);
    deque.push_back(3);
    deque.push_front(1);
    assert_eq!(pprint(deque), "[\n1,\n2,\n3,\n]");
    assert_eq!(pprint(VecDeque::<i32>::new()), "[]");
}

#[test]
fn tuples() {
    assert_eq!(pprint((true,)), "(\ntrue,\n)");
    assert_eq!(pprint((1024, 7)), "(\n1024,\n7,\n)");
    assert_eq!(pprint((1, "two", false)), "(\n1,\n\"two\",\nfalse,\n)");
    assert_eq!(
        pprint((0, 1, 2, 3, 4, 5, 6, 7, 8, 9, 10, 11)),
        "(\n0,\n1,\n2,\n3,\n4,\n5,\n6,\n7,\n8,\n9,\n10,\n11,\n)"
    );
    assert_eq!(
        pprint((
            0, 1000000, 2000000, 3000000, 4000000, 5000000, 6000000, 7000000, 8000000, 9000000,
            10000000, 11000000
        )),
        "\
(
    0,
    1000000,
    2000000,
    3000000,
    4000000,
    5000000,
    6000000,
    7000000,
    8000000,
    9000000,
    10000000,
    11000000,
)"
    );
}

#[test]
fn tuples_of_every_size() {
    assert_eq!(pprint((1, 2, 3, 4)), "(\n1,\n2,\n3,\n4,\n)");
    assert_eq!(pprint((1, 2, 3, 4, 5)), "(\n1,\n2,\n3,\n4,\n5,\n)");
    assert_eq!(pprint((1, 2, 3, 4, 5, 6)), "(\n1,\n2,\n3,\n4,\n5,\n6,\n)");
    assert_eq!(pprint((1, 2, 3, 4, 5, 6, 7)), "(\n1,\n2,\n3,\n4,\n5,\n6,\n7,\n)");
    assert_eq!(pprint((1, 2, 3, 4, 5, 6, 7, 8)), "(\n1,\n2,\n3,\n4,\n5,\n6,\n7,\n8,\n)");
    assert_eq!(
        pprint((1, 2, 3, 4, 5, 6, 7, 8, 9)),
        "(\n1,\n2,\n3,\n4,\n5,\n6,\n7,\n8,\n9,\n)"
    );
    assert_eq!(
        pprint((1, 2, 3, 4, 5, 6, 7, 8, 9, 10)),
        "(\n1,\n2,\n3,\n4,\n5,\n6,\n7,\n8,\n9,\n10,\n)"
    );
    assert_eq!(
        pprint((1, 2, 3, 4, 5, 6, 7, 8, 9, 10, 11)),
        "(\n1,\n2,\n3,\n4,\n5,\n6,\n7,\n8,\n9,\n10,\n11,\n)"
    );
}

#[test]
fn phantom_data() {
    assert_eq!(pprint(PhantomData::<u8>), "PhantomData");
}

struct Numbers {
    a: Vec<Vec<i32>>,
    b: String,
}

impl debug2::Debug for Numbers {
    fn fmt(&self, f: &mut Formatter) -> std::fmt::Result {
        f.debug_struct("Numbers")
            .field("a", &self.a)
            .field("b", &self.b)
            .finish()
    }
}

#[test]
fn struct_of_lists_indented() {
    let numbers = Numbers {
        a: vec![vec![10; 3]; 2],
        b: "FooBar".to_owned(),
    };
    assert_eq!(
        pprint(&numbers),
        "Numbers {\na: [\n[\n10,\n10,\n10,\n],\n[\n10,\n10,\n10,\n],\n],\nb: \"FooBar\",\n}"
    );

    let numbers = Numbers {
        a: vec![vec![10; 5]; 2],
        b: "FooBar".to_owned(),
    };
    assert_eq!(
        pprint(&numbers),
        "\
Numbers {
    a: [
        [
            10,
            10,
            10,
            10,
            10,
        ],
        [
            10,
            10,
            10,
            10,
            10,
        ],
    ],
    b: \"FooBar\",
}"
    );
}

/// Renders by calling the function it holds.
struct With<F: Fn(&mut Formatter) -> std::fmt::Result>(F);

impl<F: Fn(&mut Formatter) -> std::fmt::Result> debug2::Debug for With<F> {
    fn fmt(&self, f: &mut Formatter) -> std::fmt::Result {
        (self.0)(f)
    }
}

struct Fails;

impl debug2::Debug for Fails {
    fn fmt(&self, _: &mut Formatter) -> std::fmt::Result {
        Err(std::fmt::Error)
    }
}

#[test]
fn borrowed_cell_shows_a_placeholder() {
    assert_eq!(
        pprint(With(|f| fmt_ref_cell(Some(&5), f))),
        "RefCell {\nvalue: 5,\n}"
    );
    assert_eq!(
        pprint(With(|f| fmt_ref_cell::<i32>(None, f))),
        "RefCell {\nvalue: <borrowed>,\n}"
    );
    assert_eq!(pprint(BorrowedPlaceholder), "<borrowed>");
}

#[test]
fn shared_cell_indented() {
    let long = "x".repeat(70);
    assert_eq!(
        pprint(With(|f| fmt_ref_cell(Some(&long), f))),
        format!("RefCell {{\n    value: \"{}\",\n}}", long)
    );
    assert_eq!(
        pprint(With(|f| fmt_ref_cell(Some(&vec![Some(1)]), f))),
        "RefCell {\nvalue: [\nSome(\n1,\n),\n],\n}"
    );
}

#[test]
fn shared_cell_fails_with_its_value() {
    assert!(pprint_checked(With(|f| fmt_ref_cell(Some(&Fails), f))).is_err());
    assert!(pprint_checked(With(|f| fmt_ref_cell::<Fails>(None, f))).is_ok());
}

/// A shared cell: the attempt to borrow it is made here, and what it gave
/// is handed to the library.
struct Shared<'a, T>(&'a RefCell<T>);

impl<T: debug2::Debug> debug2::Debug for Shared<'_, T> {
    fn fmt(&self, f: &mut Formatter) -> std::fmt::Result {
        match self.0.try_borrow() {
            Ok(borrow) => fmt_ref_cell(Some(&*borrow), f),
            Err(_) => fmt_ref_cell::<T>(None, f),
        }
    }
}

#[test]
fn test_refcell() {
    let refcell = RefCell::new(5);
    assert_eq!(pprint(Shared(&refcell)), "RefCell {\nvalue: 5,\n}");
    let borrow = refcell.borrow_mut();
    assert_eq!(pprint(Shared(&refcell)), "RefCell {\nvalue: <borrowed>,\n}");
    drop(borrow);
    assert_eq!(pprint(Shared(&refcell)), "RefCell {\nvalue: 5,\n}");
}

#[test]
fn cells() {
    let cell = Cell::new(7);
    assert_eq!(pprint(With(|f| fmt_cell(&cell.get(), f))), "Cell {\nvalue: 7,\n}");
    assert!(pprint_checked(With(|f| fmt_cell(&Fails, f))).is_err());
    assert_eq!(pprint(With(fmt_unsafe_cell)), "UnsafeCell { .. }");
}

#[test]
fn collections_by_their_iterators() {
    let mut list = LinkedList::new();
    list.push_back(1);
    list.push_back(2);
    assert_eq!(pprint(With(|f| fmt_list(list.iter(), f))), "[\n1,\n2,\n]");
    assert_eq!(pprint(With(|f| fmt_list(std::iter::empty::<i32>(), f))), "[]");

    let mut set = BTreeSet::new();
    set.insert(1024);
    set.insert(7);
    assert_eq!(pprint(With(|f| fmt_set(set.iter(), f))), "{\n7,\n1024,\n}");
    assert_eq!(pprint(With(|f| fmt_set([3, 1, 3].iter(), f))), "{\n3,\n1,\n3,\n}");

    let mut map = BTreeMap::new();
    map.insert("bar", 1024);
    map.insert("baz", 7);
    assert_eq!(
        pprint(With(|f| fmt_map(map.iter(), f))),
        "{\n\"bar\": 1024,\n\"baz\": 7,\n}"
    );
    let mut hashed = HashMap::new();
    hashed.insert(1, true);
    assert_eq!(pprint(With(|f| fmt_map(hashed.iter(), f))), "{\n1: true,\n}");
    assert_eq!(pprint(With(|f| fmt_map(HashMap::<i32, i32>::new().iter(), f))), "{}");
}

#[test]
fn collections_fail_with_an_item() {
    assert!(pprint_checked(With(|f| fmt_list([Some(Fails)].iter(), f))).is_err());
    assert!(pprint_checked(With(|f| fmt_set([Fails].iter(), f))).is_err());
    let bad_value = [(1, Fails)];
    let by_value = With(|f| fmt_map(bad_value.iter().map(|(k, v)| (k, v)), f));
    assert!(pprint_checked(by_value).is_err());
    let bad_key = [(Fails, 1)];
    let by_key = With(|f| fmt_map(bad_key.iter().map(|(k, v)| (k, v)), f));
    assert!(pprint_checked(by_key).is_err());
}
