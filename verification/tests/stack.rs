use aves_ir::interpret::{
    ProgramStack, ProgramStackItem, RawStackItem, StackError, StackErrorKind, STACK_INT, STACK_STR,
};

fn integer(value: i32) -> RawStackItem {
    RawStackItem { kind: STACK_INT, number: value, text: Vec::new() }
}

fn text(bytes: &[u8]) -> RawStackItem {
    RawStackItem { kind: STACK_STR, number: 0, text: bytes.to_vec() }
}

#[test]
fn a_stack_is_taken_over_bottom_first() {
    let top_first = [text(b"top"), integer(-2), integer(1), text("caf\u{e9}".as_bytes())];
    assert_eq!(
        ProgramStack::try_from(&top_first),
        Ok(ProgramStack(vec![
            ProgramStackItem::String("caf\u{e9}".into()),
            ProgramStackItem::Int(1),
            ProgramStackItem::Int(-2),
            ProgramStackItem::String("top".into()),
        ]))
    );
    assert_eq!(ProgramStack::try_from(&[]), Ok(ProgramStack(vec![])));
    assert_eq!(
        ProgramStack::try_from(&[integer(i32::MIN)]),
        Ok(ProgramStack(vec![ProgramStackItem::Int(-2147483648)]))
    );
}

#[test]
fn the_first_bad_item_from_the_top_fails_the_stack() {
    let bad_text = [integer(1), text(&[b'a', 0xff]), RawStackItem { kind: 7, number: 0, text: vec![] }];
    assert_eq!(
        ProgramStack::try_from(&bad_text),
        Err(StackError { kind: StackErrorKind::InvalidUtf8, depth: 1 })
    );
    let bad_kind = [RawStackItem { kind: 2, number: 0, text: vec![] }, text(&[0xc0])];
    assert_eq!(
        ProgramStack::try_from(&bad_kind),
        Err(StackError { kind: StackErrorKind::InvalidKind, depth: 0 })
    );
    // A truncated character is no text.
    assert_eq!(
        ProgramStack::try_from(&[text(&"\u{e9}".as_bytes()[..1])]),
        Err(StackError { kind: StackErrorKind::InvalidUtf8, depth: 0 })
    );
}
