use debug2::{pprint, Formatter};

#[test]
fn complex() {
    let complex_structure = vec![
        vec![Some(1), Some(2), Some(3), None],
        vec![Some(2), None],
        vec![Some(4), Some(7)],
        vec![Some(1), Some(2), Some(3), None],
        vec![Some(2), None],
        vec![Some(4), Some(7)],
        vec![Some(1), Some(2), Some(3), None],
        vec![Some(2), None],
        vec![Some(4), Some(7)],
    ];

    // 300 characters when flat, so every entry gets a line of its own
    let indented = "\
[
    [
        Some(
            1,
        ),
        Some(
            2,
        ),
        Some(
            3,
        ),
        None,
    ],
    [
        Some(
            2,
        ),
        None,
    ],
    [
        Some(
            4,
        ),
        Some(
            7,
        ),
    ],
    [
        Some(
            1,
        ),
        Some(
            2,
        ),
        Some(
            3,
        ),
        None,
    ],
    [
        Some(
            2,
        ),
        None,
    ],
    [
        Some(
            4,
        ),
        Some(
            7,
        ),
    ],
    [
        Some(
            1,
        ),
        Some(
            2,
        ),
        Some(
            3,
        ),
        None,
    ],
    [
        Some(
            2,
        ),
        None,
    ],
    [
        Some(
            4,
        ),
        Some(
            7,
        ),
    ],
]";
    assert_eq!(format!("{:#?}", complex_structure), indented);
    assert_eq!(pprint(complex_structure), indented);
}

#[test]
fn one_sublist_stays_flat() {
    assert_eq!(
        pprint(vec![Some(1), Some(2), Some(3), None]),
        "[\nSome(\n1,\n),\nSome(\n2,\n),\nSome(\n3,\n),\nNone,\n]"
    );
}

#[derive(Debug)]
enum Instr {
    Push(i32),
    Load(&'static str),
    BinOp(BinOp),
    UnOp(UnOp),
}
#[derive(Debug)]
enum BinOp {
    Div,
    Mul,
    Minus,
    Pow,
    PlusMinus,
}
#[derive(Debug)]
enum UnOp {
    Minus,
    Sqrt,
}

impl debug2::Debug for UnOp {
    fn fmt(&self, f: &mut Formatter) -> std::fmt::Result {
        match self {
            UnOp::Minus => f.debug_tuple("Minus").finish(),
            UnOp::Sqrt => f.debug_tuple("Sqrt").finish(),
        }
    }
}
impl debug2::Debug for BinOp {
    fn fmt(&self, f: &mut Formatter) -> std::fmt::Result {
        match self {
            BinOp::Div => f.debug_tuple("Div").finish(),
            BinOp::Mul => f.debug_tuple("Mul").finish(),
            BinOp::Minus => f.debug_tuple("Minus").finish(),
            BinOp::Pow => f.debug_tuple("Pow").finish(),
            BinOp::PlusMinus => f.debug_tuple("PlusMinus").finish(),
        }
    }
}
impl debug2::Debug for Instr {
    fn fmt(&self, f: &mut Formatter) -> std::fmt::Result {
        match self {
            Instr::Push(v) => f.debug_tuple("Push").field(v).finish(),
            Instr::Load(v) => f.debug_tuple("Load").field(v).finish(),
            Instr::BinOp(v) => f.debug_tuple("BinOp").field(v).finish(),
            Instr::UnOp(v) => f.debug_tuple("UnOp").field(v).finish(),
        }
    }
}

#[test]
fn quadratic_form() {
    let instrs = vec![
        Instr::Load("b"),
        Instr::UnOp(UnOp::Minus),
        Instr::Load("b"),
        Instr::Push(2),
        Instr::BinOp(BinOp::Pow),
        Instr::Load("a"),
        Instr::Load("c"),
        Instr::Push(4),
        Instr::BinOp(BinOp::Mul),
        Instr::BinOp(BinOp::Mul),
        Instr::BinOp(BinOp::Minus),
        Instr::UnOp(UnOp::Sqrt),
        Instr::BinOp(BinOp::PlusMinus),
        Instr::Load("a"),
        Instr::Push(2),
        Instr::BinOp(BinOp::Div),
    ];

    let indented = "\
[
    Load(
        \"b\",
    ),
    UnOp(
        Minus,
    ),
    Load(
        \"b\",
    ),
    Push(
        2,
    ),
    BinOp(
        Pow,
    ),
    Load(
        \"a\",
    ),
    Load(
        \"c\",
    ),
    Push(
        4,
    ),
    BinOp(
        Mul,
    ),
    BinOp(
        Mul,
    ),
    BinOp(
        Minus,
    ),
    UnOp(
        Sqrt,
    ),
    BinOp(
        PlusMinus,
    ),
    Load(
        \"a\",
    ),
    Push(
        2,
    ),
    BinOp(
        Div,
    ),
]";
    assert_eq!(
        format!("{:?}", instrs),
        "[Load(\"b\"), UnOp(Minus), Load(\"b\"), Push(2), BinOp(Pow), Load(\"a\"), \
         Load(\"c\"), Push(4), BinOp(Mul), BinOp(Mul), BinOp(Minus), UnOp(Sqrt), \
         BinOp(PlusMinus), Load(\"a\"), Push(2), BinOp(Div)]"
    );
    assert_eq!(format!("{:#?}", instrs), indented);
    assert_eq!(pprint(instrs), indented);
}
