use scheme_core::transpose_option;
use scheme_core::transpose_result;
use scheme_core::types::{new_symbol, CastError, ListFactory, SchemeObject, SchemeType};

fn pair(mutable: bool, car: SchemeType, cdr: SchemeType) -> SchemeType {
    SchemeType::Object(SchemeObject::Pair {
        mutable,
        car: Box::new(car),
        cdr: Box::new(cdr),
    })
}

#[test]
fn list_factory_builds_pair_chain() {
    let mut f = ListFactory::new(false);
    f.push(SchemeType::Number(1));
    f.push(SchemeType::Number(2));
    let built = f.build();
    let expected = pair(
        false,
        SchemeType::Number(1),
        pair(
            false,
            SchemeType::Number(2),
            SchemeType::Object(SchemeObject::EmptyList),
        ),
    );
    assert_eq!(built, expected);
}

#[test]
fn list_factory_with_tail_and_mutability() {
    let mut f = ListFactory::new(true);
    f.push(SchemeType::Number(1));
    let built = f.build_with_tail(SchemeType::Number(9));
    assert_eq!(built, pair(true, SchemeType::Number(1), SchemeType::Number(9)));

    let empty = ListFactory::new(false).build();
    assert_eq!(empty, SchemeType::Object(SchemeObject::EmptyList));
}

#[test]
fn symbols_intern_by_name() {
    assert_eq!(new_symbol("a".to_string()), new_symbol("a".to_string()));
    assert_ne!(new_symbol("a".to_string()), new_symbol("b".to_string()));
}

#[test]
fn casts_succeed_on_the_right_shape() {
    assert_eq!(SchemeType::Number(4).to_number(), Ok(4));
    assert_eq!(SchemeType::Number(4).to_index(), Ok(4usize));
    assert_eq!(SchemeType::Char('x').to_char(), Ok('x'));
    assert_eq!(
        SchemeType::String("s".to_string()).into_string(),
        Ok("s".to_string())
    );
    assert_eq!(
        SchemeType::Object(SchemeObject::EmptyList).into_object(),
        Ok(SchemeObject::EmptyList)
    );
}

#[test]
fn casts_fail_on_the_wrong_shape() {
    assert_eq!(SchemeType::Char('x').to_number(), Err(CastError));
    assert_eq!(SchemeType::Number(-1).to_index(), Err(CastError));
    assert_eq!(SchemeType::Number(0).to_char(), Err(CastError));
    assert_eq!(SchemeType::Number(0).into_object(), Err(CastError));
    assert_eq!(SchemeType::Number(0).into_string(), Err(CastError));
}

#[test]
fn everything_is_true_but_false() {
    assert!(!SchemeType::Object(SchemeObject::False).to_bool());
    assert!(SchemeType::Object(SchemeObject::True).to_bool());
    assert!(SchemeType::Number(0).to_bool());
    assert!(SchemeType::Object(SchemeObject::EmptyList).to_bool());
    assert_eq!(
        SchemeType::from_bool(false),
        SchemeType::Object(SchemeObject::False)
    );
    assert_eq!(
        SchemeType::from_bool(true),
        SchemeType::Object(SchemeObject::True)
    );
}

#[test]
fn index_and_object_constructors() {
    assert_eq!(SchemeType::from_index(3), SchemeType::Number(3));
    assert_eq!(
        SchemeType::from_object(SchemeObject::EmptyList),
        SchemeType::Object(SchemeObject::EmptyList)
    );
}

#[test]
fn transpose_helpers() {
    assert_eq!(
        transpose_result::<i32, &str>(Ok(Some(1))),
        Some(Ok(1))
    );
    assert_eq!(transpose_result::<i32, &str>(Ok(None)), None);
    assert_eq!(
        transpose_result::<i32, &str>(Err("e")),
        Some(Err("e"))
    );
    assert_eq!(transpose_option::<i32, &str>(Some(Ok(1))), Ok(Some(1)));
    assert_eq!(transpose_option::<i32, &str>(None), Ok(None));
    assert_eq!(transpose_option::<i32, &str>(Some(Err("e"))), Err("e"));
}
