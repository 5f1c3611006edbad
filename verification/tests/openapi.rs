use cs2kz_api::openapi::parameters::{Limit, LimitTooLarge, Offset, SortingOrder};
use cs2kz_api::openapi::responses::{Created, NoContent};

#[test]
fn limits() {
    assert_eq!(Limit::<200, 50>::default().0, 50);
    assert_eq!(Limit::<200, 50>::from_query(Some(10)).unwrap().0, 10);
    assert_eq!(Limit::<200, 50>::from_query(Some(200)).unwrap().0, 200);
    assert_eq!(Limit::<200, 50>::from_query(None).unwrap().0, 0);
    assert_eq!(
        Limit::<200, 50>::from_query(Some(201)).unwrap_err(),
        LimitTooLarge { value: 201, max: 200 }
    );
    assert_eq!(Limit::<200, 50>(7).as_usize(), 7);
}

#[test]
fn offsets() {
    assert_eq!(Offset::from_query(None), Offset(0));
    assert_eq!(Offset::from_query(Some(-3)), Offset(-3));
    assert_eq!(Offset::default(), Offset(0));
}

#[test]
fn sorting_order_sql() {
    assert_eq!(SortingOrder::Ascending.sql(), " ASC ");
    assert_eq!(SortingOrder::Descending.sql(), " DESC ");
    assert_eq!(SortingOrder::default(), SortingOrder::Ascending);
}

#[test]
fn response_status_codes() {
    let created = Created(String::from("body"));
    assert_eq!(created.status_code(), 201);
    assert_eq!(created.into_body(), "body");
    assert_eq!(NoContent.status_code(), 204);
}
