use debug2::{pprint, Formatter};

struct X {
    a: i32,
    b: i32,
}

// what deriving the trait gives for a struct with named fields
impl debug2::Debug for X {
    fn fmt(&self, f: &mut Formatter) -> std::fmt::Result {
        match self {
            X { a, b } => {
                let mut s = f.debug_struct("X");
                s.field("a", a);
                s.field("b", b);
                s.finish()
            }
        }
    }
}

struct Wrapper<T>(T);

// what deriving the trait gives for a struct with unnamed fields
impl<T: debug2::Debug> debug2::Debug for Wrapper<T> {
    fn fmt(&self, f: &mut Formatter) -> std::fmt::Result {
        match self {
            Wrapper(inner) => {
                let mut s = f.debug_tuple("Wrapper");
                s.field(inner);
                s.finish()
            }
        }
    }
}

#[test]
fn simple() {
    let x = X { a: 1, b: 5 };

    assert_eq!(pprint(x), "X {\na: 1,\nb: 5,\n}");
}

#[test]
fn derived_wrapper() {
    assert_eq!(pprint(Wrapper(X { a: -1, b: 0 })), "Wrapper(\nX {\na: -1,\nb: 0,\n},\n)");
}
