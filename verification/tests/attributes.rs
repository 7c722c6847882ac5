use kernel::task::attributes::ThreadAttributes;

#[test]
fn attribute_bits_are_one_two_four_eight() {
    assert_eq!(ThreadAttributes::empty().bits(), 0);
    assert_eq!(ThreadAttributes::queued().bits(), 0b0001);
    assert_eq!(ThreadAttributes::asleep().bits(), 0b0010);
    assert_eq!(ThreadAttributes::awake().bits(), 0b0100);
    assert_eq!(ThreadAttributes::zombie().bits(), 0b1000);
}

#[test]
fn attributes_are_set_and_cleared_alone() {
    let mut attribute = ThreadAttributes::empty();
    assert!(attribute.is_empty());
    attribute.insert(ThreadAttributes::queued());
    attribute.insert(ThreadAttributes::awake());
    assert_eq!(attribute.bits(), 0b0101);
    assert!(attribute.contains(ThreadAttributes::queued()));
    assert!(attribute.contains(ThreadAttributes::awake()));
    assert!(!attribute.contains(ThreadAttributes::asleep()));
    assert!(!attribute.contains(ThreadAttributes::zombie()));
    attribute.remove(ThreadAttributes::queued());
    assert_eq!(attribute.bits(), 0b0100);
    attribute.remove(ThreadAttributes::queued());
    assert_eq!(attribute.bits(), 0b0100);
    attribute.insert(ThreadAttributes::awake());
    assert_eq!(attribute.bits(), 0b0100);
    attribute.remove(ThreadAttributes::awake());
    assert!(attribute.is_empty());
    assert_eq!(attribute, ThreadAttributes::empty());
}

#[test]
fn contains_asks_for_every_attribute_of_its_argument() {
    let mut both = ThreadAttributes::asleep();
    both.insert(ThreadAttributes::zombie());
    let mut attribute = ThreadAttributes::asleep();
    assert!(!attribute.contains(both));
    attribute.insert(ThreadAttributes::zombie());
    assert!(attribute.contains(both));
    assert!(attribute.contains(ThreadAttributes::empty()));
    assert!(ThreadAttributes::empty().contains(ThreadAttributes::empty()));
}

#[test]
fn test_and_set_tells_what_was_there_before() {
    let mut attribute = ThreadAttributes::empty();
    assert!(!attribute.test_and_set(ThreadAttributes::queued()));
    assert_eq!(attribute.bits(), 0b0001);
    assert!(attribute.test_and_set(ThreadAttributes::queued()));
    assert_eq!(attribute.bits(), 0b0001);
}

#[test]
fn test_and_clear_tells_what_was_there_before() {
    let mut attribute = ThreadAttributes::awake();
    attribute.insert(ThreadAttributes::asleep());
    assert!(attribute.test_and_clear(ThreadAttributes::awake()));
    assert_eq!(attribute.bits(), 0b0010);
    assert!(!attribute.test_and_clear(ThreadAttributes::awake()));
    assert_eq!(attribute.bits(), 0b0010);
}

#[test]
fn the_letter_shows_the_weightiest_attribute() {
    let mut attribute = ThreadAttributes::empty();
    assert_eq!(attribute.to_char(), '-');
    attribute.insert(ThreadAttributes::queued());
    assert_eq!(attribute.to_char(), 'R');
    attribute.insert(ThreadAttributes::asleep());
    assert_eq!(attribute.to_char(), 'S');
    attribute.insert(ThreadAttributes::awake());
    assert_eq!(attribute.to_char(), 'W');
    attribute.insert(ThreadAttributes::zombie());
    assert_eq!(attribute.to_char(), 'Z');
    attribute.remove(ThreadAttributes::awake());
    assert_eq!(attribute.to_char(), 'Z');
    attribute.remove(ThreadAttributes::zombie());
    assert_eq!(attribute.to_char(), 'S');
}
