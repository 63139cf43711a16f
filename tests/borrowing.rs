use time_library::{Book, BorrowErrorKind, TimeLibrary, Timeline};

fn time_machine() -> Book {
    Book::new("The Time Machine".to_string(), "H. G. Wells".to_string(), 1895, None)
}

fn cardenio() -> Book {
    Book::new("Cardenio".to_string(), "William Shakespeare".to_string(), 1613, Some(1613))
}

#[test]
fn open_span_checkout_leaves_other_years_available() {
    let mut b = time_machine();
    assert!(b.checkout_at(1899).is_ok());
    assert!(!b.is_available_at(1899));
    assert!(b.is_available_at(1900));
}

#[test]
fn checkout_outside_closed_span_not_existent() {
    let mut b = cardenio();
    let e = b.checkout_at(1899).unwrap_err();
    assert_eq!(e.kind, BorrowErrorKind::NotExistent);
    assert_eq!(e.title, "Cardenio");
    assert_eq!(e.year, 1899);
    assert!(b.is_available_at(1613));
}

#[test]
fn return_without_checkout_not_checked_out() {
    let mut b = time_machine();
    let e = b.return_at(1950).unwrap_err();
    assert_eq!(e.kind, BorrowErrorKind::NotCheckedOut);
    assert_eq!(e.title, "The Time Machine");
    assert_eq!(e.year, 1950);
}

#[test]
fn catalog_lists_only_available_books() {
    let mut lib = TimeLibrary::new();
    lib.add_book(time_machine());
    lib.add_book(cardenio());
    let found = lib.available_books_in_year(1899);
    assert_eq!(found.len(), 1);
    assert_eq!(found[0].title(), "The Time Machine");
}

#[test]
fn catalog_keeps_insertion_order() {
    let mut lib = TimeLibrary::new();
    lib.add_book(Book::new("C".to_string(), "x".to_string(), 1900, None));
    lib.add_book(Book::new("A".to_string(), "y".to_string(), 1800, Some(1850)));
    lib.add_book(Book::new("B".to_string(), "z".to_string(), 1700, None));
    lib.add_book(Book::new("D".to_string(), "w".to_string(), 1600, None));
    assert!(lib.book_mut(3).checkout_at(1920).is_ok());
    let titles: Vec<&str> = lib
        .available_books_in_year(1920)
        .iter()
        .map(|b| b.title().as_str())
        .collect();
    assert_eq!(titles, vec!["C", "B"]);
}

#[test]
fn checkout_through_catalog() {
    let mut lib = TimeLibrary::new();
    lib.add_book(time_machine());
    lib.add_book(cardenio());
    let e = lib.book_mut(1).checkout_at(1899).unwrap_err();
    assert_eq!(e.kind, BorrowErrorKind::NotExistent);
    assert!(lib.book_mut(1).checkout_at(1613).is_ok());
    assert!(!lib.book(1).is_available_at(1613));
    assert_eq!(lib.len(), 2);
    assert!(lib.available_books_in_year(1613).is_empty());
}

#[test]
fn empty_catalog_lists_nothing() {
    let lib = TimeLibrary::new();
    assert_eq!(lib.len(), 0);
    assert!(lib.available_books_in_year(2000).is_empty());
}

#[test]
fn outside_span_both_operations_refused() {
    let mut b = Book::new("Span".to_string(), "a".to_string(), 1900, Some(1910));
    for year in [0u32, 1899, 1911, u32::MAX] {
        assert!(!b.exists_at(year));
        assert!(!b.is_available_at(year));
        assert_eq!(b.checkout_at(year).unwrap_err().kind, BorrowErrorKind::NotExistent);
        assert_eq!(b.return_at(year).unwrap_err().kind, BorrowErrorKind::NotExistent);
    }
    let mut open = time_machine();
    assert_eq!(open.checkout_at(1894).unwrap_err().kind, BorrowErrorKind::NotExistent);
    assert_eq!(open.return_at(1894).unwrap_err().kind, BorrowErrorKind::NotExistent);
}

#[test]
fn span_bounds_are_inclusive() {
    let b = Book::new("Span".to_string(), "a".to_string(), 1900, Some(1910));
    assert!(b.exists_at(1900));
    assert!(b.exists_at(1910));
    assert!(b.is_available_at(1900));
    assert!(b.is_available_at(1910));
    let open = time_machine();
    assert!(open.exists_at(u32::MAX));
}

#[test]
fn untouched_years_available() {
    let b = time_machine();
    for year in [1895u32, 1899, 2024, u32::MAX] {
        assert!(b.is_available_at(year));
    }
}

#[test]
fn checkout_then_return_restores_availability() {
    let mut b = time_machine();
    assert!(b.checkout_at(1900).is_ok());
    assert!(b.return_at(1900).is_ok());
    assert!(b.is_available_at(1900));
    assert!(b.checkout_at(1900).is_ok());
    assert!(!b.is_available_at(1900));
}

#[test]
fn second_checkout_refused() {
    let mut b = time_machine();
    assert!(b.checkout_at(1900).is_ok());
    let e = b.checkout_at(1900).unwrap_err();
    assert_eq!(e.kind, BorrowErrorKind::AlreadyCheckedOut);
    assert_eq!(e.year, 1900);
}

#[test]
fn second_return_refused() {
    let mut b = time_machine();
    assert!(b.checkout_at(1900).is_ok());
    assert!(b.return_at(1900).is_ok());
    assert_eq!(b.return_at(1900).unwrap_err().kind, BorrowErrorKind::NotCheckedOut);
}

#[test]
fn inverted_span_contains_no_year() {
    let b = Book::new("Odd".to_string(), "a".to_string(), 1910, Some(1900));
    for year in [1899u32, 1900, 1905, 1910, 1911] {
        assert!(!b.exists_at(year));
    }
}

#[test]
fn accessors_report_construction() {
    let b = cardenio();
    assert_eq!(b.title(), "Cardenio");
    assert_eq!(b.author(), "William Shakespeare");
    assert_eq!(*b.get_timeline(), Timeline { start_year: 1613, end_year: Some(1613) });
    assert!(b.get_timeline().exists_at(1613));
    assert!(!b.get_timeline().exists_at(1614));
}
