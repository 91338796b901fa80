use jsoth::{parse, Deserialize, ForEach, Identity, Index, Node, Pointer};

fn sample_doc() -> Node {
    Node::Obj(vec![
        (String::from("a"), Node::Int(1)),
        (String::from("b"), Node::Arr(vec![Node::Int(2), Node::Int(3)])),
        (
            String::from("c"),
            Node::Obj(vec![
                (String::from("x"), Node::Int(0)),
                (String::from("y"), Node::Int(1)),
            ]),
        ),
    ])
}

#[test]
fn test_index() {
    let jsoth = Index { index: "a", inner: Identity };

    let value = Node::Obj(vec![(String::from("a"), Node::Int(1))]);

    assert_eq!(vec![Node::Int(1)], parse(jsoth, &value));
}

#[test]
fn test_identity() {
    let value = sample_doc();

    let jsoth = Identity;

    assert_eq!(vec![value.clone()], parse(jsoth, &value));
}

#[test]
fn test_pointer() {
    let value = sample_doc();

    let jsoth = Pointer { pointer: "/c/x", inner: Identity };

    assert_eq!(vec![Node::Int(0)], parse(jsoth, &value));
}

#[test]
fn test_deserialize() {
    let value = Node::Int(1);

    let jsoth = Deserialize::<u8>::new();

    assert_eq!(vec![1], parse(jsoth, &value));
}

#[test]
fn test_for_each() {
    let value = Node::Arr(vec![Node::Int(1), Node::Int(2), Node::Int(3)]);

    let jsoth = ForEach(Identity);

    assert_eq!(
        vec![Node::Int(1), Node::Int(2), Node::Int(3)],
        parse(jsoth, &value)
    );
}

#[test]
fn test_complex() {
    let value = Node::Obj(vec![
        (String::from("a"), Node::Int(1)),
        (String::from("b"), Node::Arr(vec![Node::Int(2), Node::Int(3)])),
        (
            String::from("c"),
            Node::Obj(vec![
                (String::from("x"), Node::Int(0)),
                (String::from("y"), Node::Int(1)),
                (
                    String::from("z"),
                    Node::Arr(vec![
                        Node::Obj(vec![(String::from("A"), Node::Int(1))]),
                        Node::Obj(vec![(String::from("A"), Node::Int(2))]),
                    ]),
                ),
            ]),
        ),
    ]);

    let jsoth = Pointer {
        pointer: "/c/z",
        inner: ForEach(Index { index: "A", inner: Deserialize::<u8>::new() }),
    };

    assert_eq!(vec![1, 2], parse(jsoth, &value));
}
