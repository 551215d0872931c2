use mutation_stream::encoder::{Interpreter, SET_ID_SIZE, STOP, STORE_WITH_ID};
use mutation_stream::mutation::{encode_batch, Mutation};

fn operations<'a>(children: &'a [u64], clones: &'a [u64]) -> Vec<Mutation<'a>> {
    vec![
        Mutation::CreateElement { tag: "ul", root: None, ns: None, child_count: 2 },
        Mutation::CreateElement { tag: "svg", root: Some(4), ns: Some("svg"), child_count: 0 },
        Mutation::CreateTextNode { text: "one", root: None },
        Mutation::StoreWithId { id: 1000 },
        Mutation::AppendChildren { root: Some(1000), children },
        Mutation::ReplaceWith { root: None, nodes: children },
        Mutation::InsertAfter { root: Some(2), nodes: children },
        Mutation::InsertBefore { root: Some(3), nodes: children },
        Mutation::SetAttribute { root: Some(9), field: "class", value: "big", ns: None },
        Mutation::RemoveAttribute { root: Some(9), field: "class", ns: Some("x") },
        Mutation::NewEventListener { name: "click", root: None, bubbles: true },
        Mutation::RemoveEventListener { root: None, name: "click", bubbles: false },
        Mutation::SetText { root: Some(5), text: "two" },
        Mutation::CreatePlaceholder { root: Some(6) },
        Mutation::CloneNode { root: Some(7), new_id: 8 },
        Mutation::CloneNodeChildren { root: None, new_ids: clones },
        Mutation::FirstChild,
        Mutation::NextSibling,
        Mutation::ParentNode,
        Mutation::SetLastNode { id: 1 << 40 },
        Mutation::Remove { root: Some(1) },
    ]
}

#[test]
fn batch_matches_method_calls() {
    let children = [1, 2, 3];
    let clones = [10, 11];
    let mut e = Interpreter::new();
    e.CreateElement("ul", None, 2);
    e.CreateElementNs("svg", Some(4), "svg", 0);
    e.CreateTextNode("one", None);
    e.StoreWithId(1000);
    e.AppendChildren(Some(1000), children.to_vec());
    e.ReplaceWith(None, children.to_vec());
    e.InsertAfter(Some(2), children.to_vec());
    e.InsertBefore(Some(3), children.to_vec());
    e.SetAttribute(Some(9), "class", "big", None);
    e.RemoveAttribute(Some(9), "class", Some("x"));
    e.NewEventListener("click", None, true);
    e.RemoveEventListener(None, "click", false);
    e.SetText(Some(5), "two");
    e.CreatePlaceholder(Some(6));
    e.CloneNode(Some(7), 8);
    e.CloneNodeChildren(None, clones.to_vec());
    e.FirstChild();
    e.NextSibling();
    e.ParentNode();
    e.SetLastNode(1 << 40);
    e.Remove(Some(1));
    assert_eq!(encode_batch(&operations(&children, &clones)), e.flush());
}

#[test]
fn encoding_twice_gives_identical_batches() {
    let children = [1, 2, 3];
    let clones = [10, 11];
    let first = encode_batch(&operations(&children, &clones));
    let second = encode_batch(&operations(&children, &clones));
    assert_eq!(first, second);
    assert_eq!(first.last(), Some(&STOP));
}

#[test]
fn empty_batch_is_just_stop() {
    assert_eq!(encode_batch(&[]), vec![STOP]);
}

#[test]
fn applied_mutation_upgrades_width() {
    let mut e = Interpreter::new();
    e.apply(&Mutation::StoreWithId { id: 300 });
    assert_eq!(e.flush(), vec![SET_ID_SIZE, 2, STORE_WITH_ID, 1, 44, 1, STOP]);
}
