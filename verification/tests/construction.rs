use rvsdg::{NodeCtxt, NodeKind, OriginId, RegionId, Sig, SigS};

#[derive(Clone, Copy, PartialEq, Eq, Hash, Debug)]
enum TestData {
    Lit(u32),
    Neg,
    St,
    BinAdd,
    LoadOffset,
}

impl Sig for TestData {
    fn sig(&self) -> SigS {
        match self {
            TestData::Lit(..) => SigS {
                val_outs: 1,
                ..SigS::default()
            },
            TestData::Neg => SigS {
                val_ins: 1,
                val_outs: 1,
                ..SigS::default()
            },
            TestData::St => SigS {
                st_outs: 1,
                ..SigS::default()
            },
            TestData::BinAdd => SigS {
                val_ins: 2,
                val_outs: 1,
                ..SigS::default()
            },
            TestData::LoadOffset => SigS {
                val_ins: 2,
                val_outs: 1,
                st_ins: 1,
                st_outs: 1,
            },
        }
    }
}

#[test]
fn create_single_node() {
    let mut ncx = NodeCtxt::new();
    let n0 = ncx.mk_node_with(NodeKind::Op(TestData::Lit(0)), &[]);
    assert_eq!(0, ncx.node_data(n0).ins.len());
    assert_eq!(1, ncx.node_data(n0).outs.len());
}

#[test]
fn create_node_with_an_input() {
    let mut ncx = NodeCtxt::new();
    let n0 = ncx.mk_node_with(NodeKind::Op(TestData::Lit(0)), &[]);
    let n1 = ncx.mk_node_with(
        NodeKind::Op(TestData::Neg),
        &[OriginId::Out { node: n0, index: 0 }],
    );

    assert_eq!(
        Some(n0),
        ncx.node_data(n1).ins[0].origin.unwrap().node_id()
    );
}

#[test]
fn create_node_with_an_input_using_builder() {
    let mut ncx = NodeCtxt::new();

    let n0 = ncx.mk_node(TestData::Lit(0));
    let n1 = ncx
        .node_builder(TestData::Neg)
        .operand(n0.val_out(&ncx, 0))
        .finish(&mut ncx);

    assert_eq!(
        Some(n0.id),
        n1.data(&ncx).ins[0].origin.unwrap().node_id()
    );

    assert_eq!(n0.val_out(&ncx, 0), n1.val_in(&ncx, 0).origin(&ncx));
}

#[test]
fn create_node_with_input_ports() {
    let mut ncx = NodeCtxt::new();

    let n0 = ncx.mk_node_with(NodeKind::Op(TestData::Lit(2)), &[]);

    assert_eq!(0, ncx.node_data(n0).ins.len());
    assert_eq!(1, ncx.node_data(n0).outs.len());

    let n1 = ncx.mk_node_with(NodeKind::Op(TestData::Lit(3)), &[]);

    assert_eq!(0, ncx.node_data(n1).ins.len());
    assert_eq!(1, ncx.node_data(n1).outs.len());

    let n2 = ncx.mk_node_with(
        NodeKind::Op(TestData::BinAdd),
        &[
            OriginId::Out { node: n0, index: 0 },
            OriginId::Out { node: n1, index: 0 },
        ],
    );

    assert_eq!(2, ncx.node_data(n2).ins.len());
    assert_eq!(1, ncx.node_data(n2).outs.len());

    assert_eq!(
        Some(n2),
        ncx.node_data(n0).outs[0].users.unwrap().first.node_id()
    );
    assert_eq!(
        Some(n2),
        ncx.node_data(n0).outs[0].users.unwrap().last.node_id()
    );
    assert_eq!(
        Some(n2),
        ncx.node_data(n1).outs[0].users.unwrap().first.node_id()
    );
    assert_eq!(
        Some(n2),
        ncx.node_data(n1).outs[0].users.unwrap().last.node_id()
    );
}

#[test]
fn create_node_operands_and_states_using_builder_single() {
    let mut ncx = NodeCtxt::new();

    let n0 = ncx.mk_node(TestData::Lit(2));
    let n1 = ncx.mk_node(TestData::Lit(3));
    let n2 = ncx.mk_node(TestData::St);

    let n3 = ncx
        .node_builder(TestData::LoadOffset)
        .operand(n0.val_out(&ncx, 0))
        .operand(n1.val_out(&ncx, 0))
        .state(n2.st_out(&ncx, 0))
        .finish(&mut ncx);

    assert_eq!(n0.val_out(&ncx, 0), n3.val_in(&ncx, 0).origin(&ncx));
    assert_eq!(n1.val_out(&ncx, 0), n3.val_in(&ncx, 1).origin(&ncx));
    assert_eq!(n2.st_out(&ncx, 0), n3.st_in(&ncx, 0).origin(&ncx));
}

#[test]
fn create_node_operands_and_states_using_builder_slice() {
    let mut ncx = NodeCtxt::new();

    let n0 = ncx.mk_node(TestData::Lit(2));
    let n1 = ncx.mk_node(TestData::Lit(3));
    let n2 = ncx.mk_node(TestData::St);

    let n3 = ncx
        .node_builder(TestData::LoadOffset)
        .operands(&[n0.val_out(&ncx, 0), n1.val_out(&ncx, 0)])
        .states(&[n2.st_out(&ncx, 0)])
        .finish(&mut ncx);

    assert_eq!(n0.val_out(&ncx, 0), n3.val_in(&ncx, 0).origin(&ncx));
    assert_eq!(n1.val_out(&ncx, 0), n3.val_in(&ncx, 1).origin(&ncx));
    assert_eq!(n2.st_out(&ncx, 0), n3.st_in(&ncx, 0).origin(&ncx));
}

#[test]
fn reuse_existing_eq_nodes_at_creation() {
    let mut ncx = NodeCtxt::new();

    let n0 = ncx.mk_node(TestData::Lit(2));
    let n1 = ncx.mk_node(TestData::Lit(3));
    let n2 = ncx.mk_node(TestData::Lit(2));

    assert_eq!(n0.id, n2.id);
    assert_ne!(n0.id, n1.id);
    assert_ne!(n1.id, n2.id);

    let n3 = ncx
        .node_builder(TestData::BinAdd)
        .operand(n0.val_out(&ncx, 0))
        .operand(n1.val_out(&ncx, 0))
        .finish(&mut ncx);

    let n4 = ncx
        .node_builder(TestData::BinAdd)
        .operand(n0.val_out(&ncx, 0))
        .operand(n2.val_out(&ncx, 0))
        .finish(&mut ncx);

    let n5 = ncx
        .node_builder(TestData::BinAdd)
        .operand(n2.val_out(&ncx, 0))
        .operand(n1.val_out(&ncx, 0))
        .finish(&mut ncx);

    assert_ne!(n3.id, n4.id);
    assert_ne!(n4.id, n5.id);
    assert_eq!(n3.id, n5.id);
}

#[test]
fn manually_connecting_ports() {
    let mut ncx = NodeCtxt::new();

    let lit_a = ncx.create_node(NodeKind::Op(TestData::Lit(2)), RegionId(0));
    let lit_b = ncx.create_node(NodeKind::Op(TestData::Lit(3)), RegionId(0));
    let add = ncx.create_node(NodeKind::Op(TestData::BinAdd), RegionId(0));

    let out_a = lit_a.val_out(&ncx, 0);
    add.val_in(&ncx, 0).connect(&mut ncx, out_a);
    let out_b = lit_b.val_out(&ncx, 0);
    add.val_in(&ncx, 1).connect(&mut ncx, out_b);

    let mut users = lit_a.val_out(&ncx, 0).users(&ncx);

    assert_eq!(Some(add.val_in(&ncx, 0)), users.next(&ncx));
    assert_eq!(None, users.next(&ncx));

    let mut users = lit_b.val_out(&ncx, 0).users(&ncx);

    assert_eq!(Some(add.val_in(&ncx, 1)), users.next(&ncx));
    assert_eq!(None, users.next(&ncx));
}

#[test]
fn bug_traverse() {
    let mut ncx = NodeCtxt::new();

    let n0 = ncx.mk_node(TestData::Lit(0));
    let n1 = ncx
        .node_builder(TestData::Neg)
        .operand(n0.val_out(&ncx, 0))
        .finish(&mut ncx);
    let o = n1.val_in(&ncx, 0).origin(&ncx).producer(&ncx);
    let op = *o.kind(&ncx);
    let n2 = ncx
        .node_builder(TestData::Neg)
        .operand(n1.val_out(&ncx, 0))
        .finish(&mut ncx);

    assert_eq!(op, NodeKind::Op(TestData::Lit(0)));
    assert_eq!(o.id(), n0.id());
    assert_ne!(n2.id(), n1.id());
}
