use mutation_stream::encoder::{
    Interpreter, APPEND_CHILDREN, CLONE_NODE, CLONE_NODE_CHILDREN, CREATE_ELEMENT,
    CREATE_PLACEHOLDER, CREATE_TEXT_NODE, FIRST_CHILD, INSERT_AFTER, INSERT_BEFORE,
    NEW_EVENT_LISTENER, NEXT_SIBLING, PARENT_NODE, REMOVE, REMOVE_ATTRIBUTE,
    REMOVE_EVENT_LISTENER, REPLACE_WITH, SET_ATTRIBUTE, SET_ID_SIZE, SET_LAST_NODE, SET_TEXT,
    STOP, STORE_WITH_ID,
};

fn batch(e: &mut Interpreter) -> Vec<u8> {
    let mut bytes = e.flush();
    assert_eq!(bytes.pop(), Some(STOP));
    bytes
}

#[test]
fn upgrade_to_two_bytes_before_create_text() {
    let mut e = Interpreter::new();
    e.CreateTextNode("a", Some(1));
    e.StoreWithId(255);
    e.CreateTextNode("hi", Some(300));
    e.SetLastNode(5);
    e.StoreWithId(65535);
    e.StoreWithId(65536);
    assert_eq!(
        batch(&mut e),
        vec![
            CREATE_TEXT_NODE, 1, 1, 1, 0, b'a',
            STORE_WITH_ID, 1, 255,
            SET_ID_SIZE, 2, CREATE_TEXT_NODE, 1, 44, 1, 2, 0, b'h', b'i',
            SET_LAST_NODE, 1, 5, 0,
            STORE_WITH_ID, 1, 255, 255,
            SET_ID_SIZE, 3, STORE_WITH_ID, 1, 0, 0, 1,
        ]
    );
}

#[test]
fn identifier_zero_takes_one_byte() {
    let mut e = Interpreter::new();
    e.StoreWithId(0);
    assert_eq!(batch(&mut e), vec![STORE_WITH_ID, 1, 0]);
}

#[test]
fn largest_identifier_takes_eight_bytes() {
    let mut e = Interpreter::new();
    e.SetLastNode(u64::MAX);
    e.SetLastNode(1);
    assert_eq!(
        batch(&mut e),
        vec![
            SET_ID_SIZE, 8, SET_LAST_NODE, 1, 255, 255, 255, 255, 255, 255, 255, 255,
            SET_LAST_NODE, 1, 1, 0, 0, 0, 0, 0, 0, 0,
        ]
    );
}

#[test]
fn width_is_kept_across_flushes() {
    let mut e = Interpreter::new();
    e.Remove(Some(70000));
    assert_eq!(batch(&mut e), vec![SET_ID_SIZE, 3, REMOVE, 1, 0x70, 0x11, 0x01]);
    e.Remove(Some(2));
    assert_eq!(batch(&mut e), vec![REMOVE, 1, 2, 0, 0]);
}

#[test]
fn move_operations_write_count_and_ids() {
    let mut e = Interpreter::new();
    e.AppendChildren(None, vec![1, 2]);
    e.ReplaceWith(Some(3), vec![]);
    e.InsertAfter(Some(4), vec![5]);
    e.InsertBefore(None, vec![6]);
    assert_eq!(
        batch(&mut e),
        vec![
            APPEND_CHILDREN, 0, 2, 0, 0, 0, 1, 2,
            REPLACE_WITH, 1, 3, 0, 0, 0, 0,
            INSERT_AFTER, 1, 4, 1, 0, 0, 0, 5,
            INSERT_BEFORE, 0, 1, 0, 0, 0, 6,
        ]
    );
}

#[test]
fn upgrade_from_a_child_applies_to_root_too() {
    let mut e = Interpreter::new();
    e.AppendChildren(Some(1), vec![2, 256]);
    assert_eq!(
        batch(&mut e),
        vec![SET_ID_SIZE, 2, APPEND_CHILDREN, 1, 1, 0, 2, 0, 0, 0, 2, 0, 0, 1]
    );
}

#[test]
fn element_operations() {
    let mut e = Interpreter::new();
    e.CreateElement("div", None, 3);
    e.CreateElementNs("svg", Some(7), "ns", 1);
    e.CreatePlaceholder(Some(8));
    assert_eq!(
        batch(&mut e),
        vec![
            CREATE_ELEMENT, 0, 3, 0, b'd', b'i', b'v', 0, 3, 0, 0, 0,
            CREATE_ELEMENT, 1, 7, 3, 0, b's', b'v', b'g', 1, 2, 0, b'n', b's', 1, 0, 0, 0,
            CREATE_PLACEHOLDER, 1, 8,
        ]
    );
}

#[test]
fn attribute_and_text_operations() {
    let mut e = Interpreter::new();
    e.SetText(None, "t");
    e.SetAttribute(Some(1), "k", "v", None);
    e.SetAttribute(None, "k", "v", Some("n"));
    e.RemoveAttribute(Some(2), "k", None);
    e.RemoveAttribute(None, "k", Some("n"));
    assert_eq!(
        batch(&mut e),
        vec![
            SET_TEXT, 0, 1, 0, b't',
            SET_ATTRIBUTE, 1, 1, 1, 0, b'k', 0, 1, 0, b'v',
            SET_ATTRIBUTE, 0, 1, 0, b'k', 1, 1, 0, b'n', 1, 0, b'v',
            REMOVE_ATTRIBUTE, 1, 2, 1, 0, b'k', 0,
            REMOVE_ATTRIBUTE, 0, 1, 0, b'k', 1, 1, 0, b'n',
        ]
    );
}

#[test]
fn strings_carry_byte_length() {
    let mut e = Interpreter::new();
    let long = "x".repeat(300);
    e.SetText(None, "é");
    e.SetText(None, &long);
    let bytes = batch(&mut e);
    assert_eq!(&bytes[..6], &[SET_TEXT, 0, 2, 0, 0xC3, 0xA9]);
    assert_eq!(&bytes[6..10], &[SET_TEXT, 0, 44, 1]);
    assert_eq!(bytes.len(), 10 + 300);
}

#[test]
fn listener_operations() {
    let mut e = Interpreter::new();
    e.NewEventListener("click", Some(1), true);
    e.RemoveEventListener(None, "click", false);
    assert_eq!(
        batch(&mut e),
        vec![
            NEW_EVENT_LISTENER, 1, 1, 5, 0, b'c', b'l', b'i', b'c', b'k', 1,
            REMOVE_EVENT_LISTENER, 0, 5, 0, b'c', b'l', b'i', b'c', b'k', 0,
        ]
    );
}

#[test]
fn clone_operations() {
    let mut e = Interpreter::new();
    e.CloneNode(Some(1), 2);
    e.CloneNodeChildren(None, vec![3, 4]);
    assert_eq!(
        batch(&mut e),
        vec![
            CLONE_NODE, 1, 1, 2, 0, 0, 0, 0, 0, 0, 0,
            CLONE_NODE_CHILDREN, 0, 1, 3, 1, 4,
        ]
    );
}

#[test]
fn navigation_operations() {
    let mut e = Interpreter::new();
    e.FirstChild();
    e.NextSibling();
    e.ParentNode();
    assert_eq!(batch(&mut e), vec![FIRST_CHILD, NEXT_SIBLING, PARENT_NODE]);
}

#[test]
fn flush_threshold() {
    let mut e = Interpreter::new();
    assert!(!e.should_flush());
    let mut pushed = 0;
    while !e.should_flush() {
        e.FirstChild();
        pushed += 1;
    }
    assert_eq!(pushed, 1025);
    let bytes = e.flush();
    assert_eq!(bytes.len(), 1026);
    assert_eq!(bytes[1025], STOP);
    assert!(!e.should_flush());
    assert_eq!(e.flush(), vec![STOP]);
}

fn run_sequence() -> Vec<u8> {
    let mut e = Interpreter::new();
    e.CreateElement("ul", None, 2);
    e.CreateTextNode("one", None);
    e.StoreWithId(1000);
    e.AppendChildren(Some(1000), vec![1, 2, 3]);
    e.SetAttribute(Some(9), "class", "big", None);
    e.Remove(Some(1 << 40));
    e.flush()
}

#[test]
fn same_operations_give_same_bytes() {
    assert_eq!(run_sequence(), run_sequence());
}
