use rvsdg::{NodeCtxt, Sig, SigS};

#[derive(Clone, Copy, PartialEq, Eq, Hash, Debug)]
enum TestData {
    Lit(u32),
    St,
    BinAdd,
    Load,
    Store,
}

impl Sig for TestData {
    fn sig(&self) -> SigS {
        match self {
            TestData::Lit(..) => SigS {
                val_outs: 1,
                ..SigS::default()
            },
            TestData::St => SigS {
                st_outs: 1,
                ..SigS::default()
            },
            TestData::BinAdd => SigS {
                val_ins: 2,
                val_outs: 1,
                ..SigS::default()
            },
            TestData::Load => SigS {
                val_ins: 1,
                val_outs: 1,
                st_ins: 1,
                st_outs: 0,
            },
            TestData::Store => SigS {
                val_ins: 2,
                val_outs: 0,
                st_ins: 1,
                st_outs: 1,
            },
        }
    }
}

#[test]
fn printing_load_store_nodes() {
    let mut ncx = NodeCtxt::new();

    let n_x = ncx.mk_node(TestData::Lit(100));
    let n_y = ncx.mk_node(TestData::Lit(104));
    let n_4 = ncx.mk_node(TestData::Lit(4));
    let n_5 = ncx.mk_node(TestData::Lit(5));
    let n_s = ncx.mk_node(TestData::St);

    let n_l1 = ncx
        .node_builder(TestData::Load)
        .operand(n_x.val_out(&ncx, 0))
        .state(n_s.st_out(&ncx, 0))
        .finish(&mut ncx);

    let n_add_4 = ncx
        .node_builder(TestData::BinAdd)
        .operand(n_l1.val_out(&ncx, 0))
        .operand(n_4.val_out(&ncx, 0))
        .finish(&mut ncx);

    let n_store1 = ncx
        .node_builder(TestData::Store)
        .operand(n_x.val_out(&ncx, 0))
        .operand(n_add_4.val_out(&ncx, 0))
        .state(n_s.st_out(&ncx, 0))
        .finish(&mut ncx);

    let n_l2 = ncx
        .node_builder(TestData::Load)
        .operand(n_y.val_out(&ncx, 0))
        .state(n_store1.st_out(&ncx, 0))
        .finish(&mut ncx);

    let n_add_5 = ncx
        .node_builder(TestData::BinAdd)
        .operand(n_l2.val_out(&ncx, 0))
        .operand(n_5.val_out(&ncx, 0))
        .finish(&mut ncx);

    let _ = ncx
        .node_builder(TestData::Store)
        .operand(n_y.val_out(&ncx, 0))
        .operand(n_add_5.val_out(&ncx, 0))
        .state(n_store1.st_out(&ncx, 0))
        .finish(&mut ncx);

    let content = ncx.print();
    assert_eq!(
        content,
        r#"digraph rvsdg {
    node [shape=record]
    edge [arrowhead=none]
    n0 [label="{{Lit(100)}|{<o0>0}}"]
    n1 [label="{{Lit(104)}|{<o0>0}}"]
    n2 [label="{{Lit(4)}|{<o0>0}}"]
    n3 [label="{{Lit(5)}|{<o0>0}}"]
    n4 [label="{{St}|{<o0>0}}"]
    n5 [label="{{<i0>0|<i1>1}|{Load}|{<o0>0}}"]
    n0:o0 -> n5:i0 [color=blue]
    n4:o0 -> n5:i1 [style=dashed, color=red]
    n6 [label="{{<i0>0|<i1>1}|{BinAdd}|{<o0>0}}"]
    n5:o0 -> n6:i0 [color=blue]
    n2:o0 -> n6:i1 [color=blue]
    n7 [label="{{<i0>0|<i1>1|<i2>2}|{Store}|{<o0>0}}"]
    n0:o0 -> n7:i0 [color=blue]
    n6:o0 -> n7:i1 [color=blue]
    n4:o0 -> n7:i2 [style=dashed, color=red]
    n8 [label="{{<i0>0|<i1>1}|{Load}|{<o0>0}}"]
    n1:o0 -> n8:i0 [color=blue]
    n7:o0 -> n8:i1 [style=dashed, color=red]
    n9 [label="{{<i0>0|<i1>1}|{BinAdd}|{<o0>0}}"]
    n8:o0 -> n9:i0 [color=blue]
    n3:o0 -> n9:i1 [color=blue]
    n10 [label="{{<i0>0|<i1>1|<i2>2}|{Store}|{<o0>0}}"]
    n1:o0 -> n10:i0 [color=blue]
    n9:o0 -> n10:i1 [color=blue]
    n7:o0 -> n10:i2 [style=dashed, color=red]
}
"#
    );
}

#[test]
fn empty_graph_prints_head_and_foot() {
    let ncx: NodeCtxt<TestData> = NodeCtxt::new();
    assert_eq!(
        ncx.print(),
        "digraph rvsdg {\n    node [shape=record]\n    edge [arrowhead=none]\n}\n"
    );
}

#[test]
fn render_escapes_braces_and_drops_empty_fields() {
    let mut ncx = NodeCtxt::new();
    let _ = ncx.mk_node(TestData::Lit(1));
    let _ = ncx.mk_node(TestData::St);
    let text = ncx.render(&["P { x: 1 }".to_string(), String::new()]);
    assert_eq!(
        text,
        "digraph rvsdg {\n    node [shape=record]\n    edge [arrowhead=none]\n    n0 [label=\"{{P \\{ x: 1 \\}}|{<o0>0}}\"]\n    n1 [label=\"{{<o0>0}}\"]\n}\n"
    );
}

#[test]
fn render_numbers_ports_beyond_nine_in_decimal() {
    #[derive(Clone, PartialEq, Eq, Hash, Debug)]
    enum Wide {
        Src,
        Sink,
    }
    impl Sig for Wide {
        fn sig(&self) -> SigS {
            match self {
                Wide::Src => SigS { val_outs: 12, ..SigS::default() },
                Wide::Sink => SigS { val_ins: 1, ..SigS::default() },
            }
        }
    }
    let mut ncx = NodeCtxt::new();
    let src = ncx.mk_node(Wide::Src);
    let _ = ncx
        .node_builder(Wide::Sink)
        .operand(src.val_out(&ncx, 11))
        .finish(&mut ncx);
    let text = ncx.print();
    assert!(text.contains("<o9>9|<o10>10|<o11>11}}\"]\n"));
    assert!(text.contains("    n1 [label=\"{{<i0>0}|{Sink}}\"]\n"));
    assert!(text.ends_with("    n0:o11 -> n1:i0 [color=blue]\n}\n"));
}
