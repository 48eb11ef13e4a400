//! Platform-facing value types: identifiers, the library token and the
//! window handle record.

use nrg_core::HandleImpl;
use nrg_core::Library;
use nrg_core::SystemId;
use nrg_core::SystemIdGenerator;

#[test]
fn system_id_equality() {
    assert_eq!(SystemId(7), SystemId(7));
    assert_ne!(SystemId(7), SystemId(8));
}

#[test]
fn generator_draws_are_sequential_and_distinct() {
    let mut generator = SystemIdGenerator::new();
    assert_eq!(generator.peek_next(), 0);
    let a = generator.next_id();
    let b = generator.next_id();
    let c = generator.next_id();
    assert_eq!(a, SystemId(0));
    assert_eq!(b, SystemId(1));
    assert_eq!(c, SystemId(2));
    assert_ne!(a, b);
    assert_ne!(b, c);
    assert_ne!(a, c);
    assert_eq!(generator.peek_next(), 3);
}

#[test]
fn library_token_carries_its_identity() {
    let library = Library::new(31);
    assert_eq!(library.id(), 31);
    library.close();
}

#[test]
fn handle_record_compares_by_fields() {
    let a = HandleImpl { hwnd: 100, hinstance: 7 };
    let b = HandleImpl { hwnd: 100, hinstance: 7 };
    let c = HandleImpl { hwnd: 101, hinstance: 7 };
    assert_eq!(a, b);
    assert_ne!(a, c);
    assert_eq!(a.hwnd, 100);
    assert_eq!(a.hinstance, 7);
}
