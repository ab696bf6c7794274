use myemu::constants::RAM_END_EXCLUSIVE;
use myemu::machine::Machine;

#[test]
fn empty_stack_pop_is_an_underflow() {
    let mut machine = Machine::new(false);
    assert!(machine.pop().is_err());
    assert_eq!(machine.stack_pointer, RAM_END_EXCLUSIVE);
}

#[test]
fn push_then_pop_preserves_value_and_stack_pointer() {
    let mut machine = Machine::new(false);
    machine.push(0xDEAD_BEEF).expect("push into an empty stack");
    assert_eq!(machine.pop().expect("pop pushed value"), 0xDEAD_BEEF);
    assert_eq!(machine.stack_pointer, RAM_END_EXCLUSIVE);
}

#[test]
fn underflow_message_names_the_stack_base() {
    let mut machine = Machine::new(false);
    assert_eq!(
        machine.pop(),
        Err("Stack underflow at address: 0x20000000 (STACKBASE: 0x20000000)".to_string())
    );
}

#[test]
fn misaligned_push_is_refused() {
    let mut machine = Machine::new(false);
    machine.stack_pointer = 0x1000_0002;
    assert_eq!(
        machine.push(1),
        Err("Invalid stack pointer for push: 0x10000002".to_string())
    );
}

#[test]
fn stack_listing_shows_words_from_the_top() {
    let mut machine = Machine::new(false);
    assert_eq!(machine.stack_listing(), "Stack Contents:\n  [Stack is empty]\n");
    machine.push(0x11).unwrap();
    machine.push(0x22).unwrap();
    assert_eq!(
        machine.stack_listing(),
        "Stack Contents:\n  Address: 0x1ffffff8 | Value: 0x22\n  Address: 0x1ffffffc | Value: 0x11\n"
    );
}
