use samp_cef::color::Color;
use samp_cef::refcount::RefCount;
use samp_cef::static_cell::StaticCell;
use samp_cef::values::{PaintElement, ProcessId, ValueType};

#[test]
fn ref_counting_via_base_callbacks() {
    let mut count = RefCount::new();
    count.add_ref();
    assert_eq!(count.count, 2);
    assert_eq!(count.has_one_ref(), 0);
    assert_eq!(count.has_at_least_one_ref(), 1);

    assert_eq!(count.release(), 0);
    assert_eq!(count.count, 1);

    assert_eq!(count.release(), 1);
    assert_eq!(count.count, 0);
}

#[test]
fn new_reference_count_holds_one() {
    let count = RefCount::new();
    assert_eq!(count.count, 1);
    assert_eq!(count.has_one_ref(), 1);
    assert_eq!(count.has_at_least_one_ref(), 1);
}

#[test]
fn add_then_release_keeps_count() {
    let mut count = RefCount::new();
    count.add_ref();
    count.add_ref();
    assert_eq!(count.release(), 0);
    assert_eq!(count.count, 2);
}

#[test]
fn colors_pack_most_significant_first() {
    assert_eq!(Color::from_rgba(0x11, 0x22, 0x33, 0x44).to_color(), 0x1122_3344);
    assert_eq!(Color::from_argb(0xFF, 0x00, 0x80, 0x01).to_color(), 0xFF00_8001);
    assert_eq!(Color::from_rgba(0, 0, 0, 0).to_color(), 0);
    assert_eq!(Color::from_argb(0xFF, 0xFF, 0xFF, 0xFF).to_color(), u32::MAX);
}

#[test]
fn value_types_from_codes() {
    assert_eq!(ValueType::from(0), ValueType::Invalid);
    assert_eq!(ValueType::from(1), ValueType::Null);
    assert_eq!(ValueType::from(2), ValueType::Bool);
    assert_eq!(ValueType::from(3), ValueType::Integer);
    assert_eq!(ValueType::from(4), ValueType::Double);
    assert_eq!(ValueType::from(5), ValueType::String);
    assert_eq!(ValueType::from(6), ValueType::Binary);
    assert_eq!(ValueType::from(7), ValueType::Dictionary);
    assert_eq!(ValueType::from(8), ValueType::List);
    assert_eq!(ValueType::from(9), ValueType::Invalid);
    assert_eq!(ValueType::from(-1), ValueType::Invalid);
}

#[test]
fn process_ids_round_trip() {
    assert_eq!(ProcessId::from(ProcessId::Browser.into()), ProcessId::Browser);
    assert_eq!(ProcessId::from(ProcessId::Renderer.into()), ProcessId::Renderer);
    assert_eq!(ProcessId::NoProcess.into(), 0);
    assert_eq!(ProcessId::from(7), ProcessId::NoProcess);
}

#[test]
fn paint_elements_round_trip() {
    assert_eq!(PaintElement::from(PaintElement::View.into()), PaintElement::View);
    assert_eq!(PaintElement::from(PaintElement::Popup.into()), PaintElement::Popup);
    assert_eq!(PaintElement::from(0), PaintElement::View);
    assert_eq!(PaintElement::from(5), PaintElement::Popup);
}

#[test]
fn static_cell_set_get_take() {
    let mut cell: StaticCell<u32> = StaticCell::new();
    assert!(cell.get_mut().is_none());
    *cell.set(5) += 1;
    assert_eq!(cell.get_mut().map(|v| *v), Some(6));
    if let Some(v) = cell.get_mut() {
        *v = 9;
    }
    assert_eq!(cell.take(), Some(9));
    assert!(cell.take().is_none());
}
