use jsoth::{parse, Deserialize, ForEach, Identity, Index, Jsoth, Node, Pointer};

fn pair_doc() -> Node {
    Node::Obj(vec![
        (String::from("a"), Node::Int(1)),
        (String::from("b"), Node::Str(String::from("two"))),
    ])
}

#[test]
fn identity_on_scalar_yields_it_once() {
    assert_eq!(vec![Node::Null], parse(Identity, &Node::Null));
    assert_eq!(vec![Node::Bool(true)], parse(Identity, &Node::Bool(true)));
}

#[test]
fn index_absent_key_yields_nothing() {
    let jsoth = Index { index: "missing", inner: Identity };
    assert_eq!(Vec::<Node>::new(), parse(jsoth, &pair_doc()));
}

#[test]
fn index_on_non_mapping_yields_nothing() {
    let jsoth = Index { index: "a", inner: Identity };
    assert_eq!(Vec::<Node>::new(), parse(jsoth, &Node::Int(7)));
}

#[test]
fn index_by_owned_string_key() {
    let jsoth = Index { index: String::from("b"), inner: Identity };
    assert_eq!(
        vec![Node::Str(String::from("two"))],
        parse(jsoth, &pair_doc())
    );
}

#[test]
fn index_by_position() {
    let value = Node::Arr(vec![Node::Int(10), Node::Int(11), Node::Int(12)]);
    let jsoth = Index { index: 1usize, inner: Identity };
    assert_eq!(vec![Node::Int(11)], parse(jsoth, &value));
}

#[test]
fn index_by_position_on_mapping_yields_nothing() {
    let jsoth = Index { index: 0usize, inner: Identity };
    assert_eq!(Vec::<Node>::new(), parse(jsoth, &pair_doc()));
}

#[test]
fn index_by_position_out_of_range_yields_nothing() {
    let value = Node::Arr(vec![Node::Int(10)]);
    let jsoth = Index { index: 5usize, inner: Identity };
    assert_eq!(Vec::<Node>::new(), parse(jsoth, &value));
}

#[test]
fn index_duplicate_key_takes_first_entry() {
    let value = Node::Obj(vec![
        (String::from("k"), Node::Int(1)),
        (String::from("k"), Node::Int(2)),
    ]);
    let jsoth = Index { index: "k", inner: Identity };
    assert_eq!(vec![Node::Int(1)], parse(jsoth, &value));
}

#[test]
fn pointer_empty_path_is_whole_document() {
    let value = pair_doc();
    let jsoth = Pointer { pointer: "", inner: Identity };
    assert_eq!(vec![value.clone()], parse(jsoth, &value));
}

#[test]
fn pointer_unresolvable_yields_nothing() {
    let jsoth = Pointer { pointer: "/a/b/c", inner: Identity };
    assert_eq!(Vec::<Node>::new(), parse(jsoth, &pair_doc()));
}

#[test]
fn pointer_without_leading_slash_yields_nothing() {
    let jsoth = Pointer { pointer: "a", inner: Identity };
    assert_eq!(Vec::<Node>::new(), parse(jsoth, &pair_doc()));
}

#[test]
fn pointer_unescapes_slash_and_tilde() {
    let value = Node::Obj(vec![
        (String::from("a/b"), Node::Int(1)),
        (String::from("m~n"), Node::Int(2)),
    ]);
    assert_eq!(
        vec![Node::Int(1)],
        parse(Pointer { pointer: "/a~1b", inner: Identity }, &value)
    );
    assert_eq!(
        vec![Node::Int(2)],
        parse(Pointer { pointer: "/m~0n", inner: Identity }, &value)
    );
}

#[test]
fn pointer_numeric_segment_indexes_sequences() {
    let value = Node::Obj(vec![(
        String::from("b"),
        Node::Arr(vec![Node::Int(2), Node::Int(3)]),
    )]);
    assert_eq!(
        vec![Node::Int(3)],
        parse(Pointer { pointer: "/b/1", inner: Identity }, &value)
    );
}

#[test]
fn pointer_rejects_leading_zero_and_out_of_range_positions() {
    let value = Node::Arr(vec![Node::Int(2), Node::Int(3)]);
    assert_eq!(
        Vec::<Node>::new(),
        parse(Pointer { pointer: "/01", inner: Identity }, &value)
    );
    assert_eq!(
        Vec::<Node>::new(),
        parse(Pointer { pointer: "/7", inner: Identity }, &value)
    );
}

#[test]
fn pointer_empty_segment_finds_empty_key() {
    let value = Node::Obj(vec![(String::from(""), Node::Int(9))]);
    assert_eq!(
        vec![Node::Int(9)],
        parse(Pointer { pointer: "/", inner: Identity }, &value)
    );
}

#[test]
fn for_each_on_non_sequence_yields_nothing() {
    assert_eq!(Vec::<Node>::new(), parse(ForEach(Identity), &pair_doc()));
    assert_eq!(Vec::<Node>::new(), parse(ForEach(Identity), &Node::Int(3)));
}

#[test]
fn for_each_interleaves_inner_outputs_in_order() {
    let value = Node::Arr(vec![
        Node::Arr(vec![Node::Int(1), Node::Int(2)]),
        Node::Arr(vec![]),
        Node::Arr(vec![Node::Int(3)]),
    ]);
    let jsoth = ForEach(ForEach(Identity));
    assert_eq!(
        vec![Node::Int(1), Node::Int(2), Node::Int(3)],
        parse(jsoth, &value)
    );
}

#[test]
fn deserialize_out_of_range_number_yields_nothing() {
    assert_eq!(
        Vec::<u8>::new(),
        parse(Deserialize::<u8>::new(), &Node::Int(300))
    );
    assert_eq!(
        Vec::<u8>::new(),
        parse(Deserialize::<u8>::new(), &Node::Int(-1))
    );
}

#[test]
fn deserialize_wrong_shape_yields_nothing() {
    assert_eq!(
        Vec::<u8>::new(),
        parse(Deserialize::<u8>::new(), &Node::Str(String::from("1")))
    );
    assert_eq!(
        Vec::<bool>::new(),
        parse(Deserialize::<bool>::new(), &Node::Int(0))
    );
}

#[test]
fn deserialize_other_target_types() {
    assert_eq!(
        vec![true],
        parse(Deserialize::<bool>::new(), &Node::Bool(true))
    );
    assert_eq!(vec![-4i64], parse(Deserialize::<i64>::new(), &Node::Int(-4)));
    assert_eq!(vec![4u64], parse(Deserialize::<u64>::new(), &Node::Int(4)));
    assert_eq!(
        Vec::<u64>::new(),
        parse(Deserialize::<u64>::new(), &Node::Int(-4))
    );
    assert_eq!(
        vec![String::from("hi")],
        parse(Deserialize::<String>::new(), &Node::Str(String::from("hi")))
    );
}

#[test]
fn rerunning_one_tree_gives_identical_output() {
    let tree = Pointer { pointer: "/b", inner: Identity };
    let doc = pair_doc();
    let mut first: Vec<Node> = Vec::new();
    let mut second: Vec<Node> = Vec::new();
    tree.act(&doc, &mut first);
    tree.act(&doc, &mut second);
    assert_eq!(first, second);
    assert_eq!(vec![Node::Str(String::from("two"))], first);
}

#[test]
fn one_tree_reused_across_documents_stays_isolated() {
    let tree = Index { index: "a", inner: Identity };
    let doc1 = pair_doc();
    let doc2 = Node::Obj(vec![(String::from("a"), Node::Int(42))]);
    let mut out1: Vec<Node> = Vec::new();
    let mut out2: Vec<Node> = Vec::new();
    tree.act(&doc1, &mut out1);
    tree.act(&doc2, &mut out2);
    assert_eq!(vec![Node::Int(1)], out1);
    assert_eq!(vec![Node::Int(42)], out2);
}

#[test]
fn act_only_appends_to_the_accumulator() {
    let tree = Index { index: "a", inner: Identity };
    let mut out = vec![Node::Str(String::from("kept"))];
    tree.act(&pair_doc(), &mut out);
    assert_eq!(
        vec![Node::Str(String::from("kept")), Node::Int(1)],
        out
    );
}
