use vhdl_lower::codegen::{bit_width, ScoreContext};
use vhdl_lower::diag::{Failure, Severity};
use vhdl_lower::ty::{ArrayIndex, Dir, IntTy, IrType, Ty};

fn range_ty(l: i64, r: i64, dir: Dir) -> Ty {
    Ty::Int(IntTy { left_bound: l, right_bound: r, dir })
}

fn constrained(t: Ty) -> ArrayIndex {
    ArrayIndex::Constrained(Box::new(t))
}

#[test]
fn descending_to_range_is_void() {
    let mut cx = ScoreContext::new(vec![]);
    let r = cx.map_type(&range_ty(7, 0, Dir::To));
    assert!(matches!(r, Ok(IrType::Void)));
    assert!(cx.diags.is_empty());
}

#[test]
fn ascending_range_width_is_bits_of_difference() {
    let mut cx = ScoreContext::new(vec![]);
    let r = cx.map_type(&range_ty(0, 7, Dir::To));
    assert!(matches!(r, Ok(IrType::Int(3))));
    let r = cx.map_type(&range_ty(0, 8, Dir::To));
    assert!(matches!(r, Ok(IrType::Int(4))));
    let r = cx.map_type(&range_ty(5, 5, Dir::To));
    assert!(matches!(r, Ok(IrType::Int(0))));
}

#[test]
fn downto_range_uses_left_minus_right() {
    let mut cx = ScoreContext::new(vec![]);
    assert!(matches!(cx.map_type(&range_ty(31, 0, Dir::Downto)), Ok(IrType::Int(5))));
    assert!(matches!(cx.map_type(&range_ty(0, 31, Dir::Downto)), Ok(IrType::Void)));
}

#[test]
fn swapping_direction_and_bounds_keeps_type() {
    let mut cx = ScoreContext::new(vec![]);
    for (l, r) in [(0i64, 7i64), (7, 0), (-3, 100), (i64::MIN, i64::MAX)] {
        let a = cx.map_type(&range_ty(l, r, Dir::To));
        let b = cx.map_type(&range_ty(r, l, Dir::Downto));
        assert_eq!(format!("{:?}", a), format!("{:?}", b));
    }
}

#[test]
fn mapping_is_repeatable() {
    let mut cx = ScoreContext::new(vec![Some(3)]);
    let t = Ty::Array(
        Box::new(Ty::Enum(0)),
        vec![constrained(range_ty(0, 9, Dir::To))],
    );
    let a = cx.map_type(&t);
    let b = cx.map_type(&t);
    assert_eq!(format!("{:?}", a), format!("{:?}", b));
}

#[test]
fn widest_range_needs_sixty_four_bits() {
    let mut cx = ScoreContext::new(vec![]);
    assert!(matches!(cx.map_type(&range_ty(i64::MIN, i64::MAX, Dir::To)), Ok(IrType::Int(64))));
}

#[test]
fn bit_width_values() {
    assert_eq!(bit_width(0), 0);
    assert_eq!(bit_width(1), 1);
    assert_eq!(bit_width(7), 3);
    assert_eq!(bit_width(8), 4);
    assert_eq!(bit_width(u64::MAX), 64);
}

#[test]
fn two_index_array_nests_last_index_innermost() {
    let mut cx = ScoreContext::new(vec![]);
    let t = Ty::Array(
        Box::new(range_ty(0, 4294967295, Dir::To)),
        vec![constrained(range_ty(0, 3, Dir::To)), constrained(range_ty(0, 7, Dir::To))],
    );
    match cx.map_type(&t) {
        Ok(IrType::Array(4, inner)) => match *inner {
            IrType::Array(8, el) => assert!(matches!(*el, IrType::Int(32))),
            other => panic!("unexpected inner type {:?}", other),
        },
        other => panic!("unexpected type {:?}", other),
    }
}

#[test]
fn three_indices_mixing_enum_and_integer() {
    let mut cx = ScoreContext::new(vec![Some(5)]);
    let t = Ty::Array(
        Box::new(Ty::File),
        vec![
            constrained(Ty::Enum(0)),
            constrained(range_ty(1, 2, Dir::To)),
            constrained(range_ty(9, 0, Dir::Downto)),
        ],
    );
    match cx.map_type(&t) {
        Ok(IrType::Array(5, a)) => match *a {
            IrType::Array(2, b) => match *b {
                IrType::Array(10, c) => assert!(matches!(*c, IrType::Int(32))),
                other => panic!("unexpected {:?}", other),
            },
            other => panic!("unexpected {:?}", other),
        },
        other => panic!("unexpected {:?}", other),
    }
}

#[test]
fn empty_index_range_makes_array_void() {
    let mut cx = ScoreContext::new(vec![]);
    let t = Ty::Array(
        Box::new(Ty::File),
        vec![constrained(range_ty(0, 3, Dir::To)), constrained(range_ty(3, 0, Dir::To))],
    );
    assert!(matches!(cx.map_type(&t), Ok(IrType::Void)));
    assert!(cx.diags.is_empty());
}

#[test]
fn unbounded_index_is_reported() {
    let mut cx = ScoreContext::new(vec![]);
    let t = Ty::Array(Box::new(Ty::File), vec![ArrayIndex::Unbounded]);
    assert!(matches!(cx.map_type(&t), Err(Failure::Reported)));
    assert_eq!(cx.diags.len(), 1);
    assert_eq!(cx.diags[0].severity, Severity::Error);
    assert_eq!(cx.diags[0].message, "array type is unbounded");
}

#[test]
fn oversized_index_is_reported() {
    let mut cx = ScoreContext::new(vec![]);
    let t = Ty::Array(
        Box::new(Ty::File),
        vec![constrained(range_ty(i64::MIN, i64::MAX, Dir::To))],
    );
    assert!(matches!(cx.map_type(&t), Err(Failure::Reported)));
    assert_eq!(cx.diags.len(), 1);
    assert_eq!(cx.diags[0].message, "array index is too large");
}

#[test]
fn invalid_index_type_is_reported() {
    let mut cx = ScoreContext::new(vec![]);
    let t = Ty::Array(Box::new(Ty::File), vec![constrained(Ty::File)]);
    assert!(matches!(cx.map_type(&t), Err(Failure::Reported)));
    assert_eq!(cx.diags.len(), 1);
    assert_eq!(cx.diags[0].severity, Severity::Error);
    assert_eq!(cx.diags[0].message, "invalid array index type");
}

#[test]
fn physical_type_is_reported_with_its_name() {
    let mut cx = ScoreContext::new(vec![]);
    let r = cx.map_type(&Ty::Physical("time".to_string()));
    assert!(matches!(r, Err(Failure::Reported)));
    assert_eq!(cx.diags.len(), 1);
    assert_eq!(cx.diags[0].severity, Severity::Error);
    assert!(cx.diags[0].message.contains("time"));
    assert_eq!(cx.diags[0].message, "cannot generate code for physical type `time`");
}

#[test]
fn enum_type_uses_literal_count() {
    let mut cx = ScoreContext::new(vec![None, Some(4)]);
    assert!(matches!(cx.map_type(&Ty::Enum(1)), Ok(IrType::Enum(4))));
    assert!(matches!(cx.map_type(&Ty::Enum(0)), Err(Failure::Defect)));
    assert!(matches!(cx.map_type(&Ty::Enum(7)), Err(Failure::Defect)));
    assert!(cx.diags.is_empty());
}

#[test]
fn null_file_access_and_record() {
    let mut cx = ScoreContext::new(vec![]);
    assert!(matches!(cx.map_type(&Ty::Null), Ok(IrType::Void)));
    assert!(matches!(cx.map_type(&Ty::File), Ok(IrType::Int(32))));
    match cx.map_type(&Ty::Access(Box::new(range_ty(0, 1, Dir::To)))) {
        Ok(IrType::Pointer(p)) => assert!(matches!(*p, IrType::Int(1))),
        other => panic!("unexpected {:?}", other),
    }
    match cx.map_type(&Ty::Record(vec![Ty::File, range_ty(0, 255, Dir::To), Ty::Null])) {
        Ok(IrType::Struct(fs)) => {
            assert_eq!(fs.len(), 3);
            assert!(matches!(fs[0], IrType::Int(32)));
            assert!(matches!(fs[1], IrType::Int(8)));
            assert!(matches!(fs[2], IrType::Void));
        }
        other => panic!("unexpected {:?}", other),
    }
}

#[test]
fn record_fails_on_first_failing_field() {
    let mut cx = ScoreContext::new(vec![]);
    let t = Ty::Record(vec![
        Ty::File,
        Ty::Physical("a".to_string()),
        Ty::Physical("b".to_string()),
    ]);
    assert!(matches!(cx.map_type(&t), Err(Failure::Reported)));
    assert_eq!(cx.diags.len(), 1);
    assert_eq!(cx.diags[0].message, "cannot generate code for physical type `a`");
}

#[test]
fn unresolved_types_are_defects() {
    let mut cx = ScoreContext::new(vec![]);
    assert!(matches!(cx.map_type(&Ty::Named("t".to_string())), Err(Failure::Defect)));
    assert!(matches!(cx.map_type(&Ty::UnboundedInt), Err(Failure::Defect)));
    assert!(matches!(cx.map_type(&Ty::UniversalInt), Err(Failure::Defect)));
    assert!(matches!(cx.map_type(&Ty::Subprog), Err(Failure::Defect)));
    assert!(cx.diags.is_empty());
}
