use rvsdg::{NodeCtxt, NodeId, NodeKind, OriginId, Sig, SigS, UserId};

#[derive(Clone, Copy, PartialEq, Eq, Hash, Debug)]
enum Op {
    Lit(u32),
    St,
    Both,
    LoadOffset,
}

impl Sig for Op {
    fn sig(&self) -> SigS {
        match self {
            Op::Lit(..) => SigS {
                val_outs: 1,
                ..SigS::default()
            },
            Op::St => SigS {
                st_outs: 1,
                ..SigS::default()
            },
            Op::Both => SigS {
                val_ins: 0,
                val_outs: 2,
                st_ins: 0,
                st_outs: 2,
            },
            Op::LoadOffset => SigS {
                val_ins: 2,
                val_outs: 1,
                st_ins: 1,
                st_outs: 1,
            },
        }
    }
}

#[test]
fn every_node_has_the_ports_of_its_signature() {
    let mut ncx = NodeCtxt::new();
    let a = ncx.mk_node(Op::Lit(1));
    let b = ncx.mk_node(Op::Lit(2));
    let s = ncx.mk_node(Op::St);
    let both = ncx.mk_node(Op::Both);
    let load = ncx
        .node_builder(Op::LoadOffset)
        .operand(a.val_out(&ncx, 0))
        .operand(b.val_out(&ncx, 0))
        .state(s.st_out(&ncx, 0))
        .finish(&mut ncx);
    for idx in 0..ncx.num_nodes() {
        let data = ncx.node_data(NodeId(idx));
        let sig = data.sig();
        assert_eq!(data.ins.len(), sig.val_ins + sig.st_ins);
        assert_eq!(data.outs.len(), sig.val_outs + sig.st_outs);
    }
    assert_eq!(3, load.data(&ncx).ins.len());
    assert_eq!(2, load.data(&ncx).outs.len());
    assert_eq!(4, both.data(&ncx).outs.len());
    assert_eq!(5, ncx.num_nodes());
    assert_eq!(3, ncx.num_edges());
}

#[test]
fn state_ports_come_after_value_ports() {
    let mut ncx = NodeCtxt::new();
    let a = ncx.mk_node(Op::Lit(1));
    let b = ncx.mk_node(Op::Lit(2));
    let both = ncx.mk_node(Op::Both);
    let load = ncx
        .node_builder(Op::LoadOffset)
        .operand(a.val_out(&ncx, 0))
        .operand(b.val_out(&ncx, 0))
        .state(both.st_out(&ncx, 1))
        .finish(&mut ncx);

    assert_eq!(
        load.val_in(&ncx, 1).id(),
        UserId::In {
            node: load.id(),
            index: 1
        }
    );
    assert_eq!(
        load.st_in(&ncx, 0).id(),
        UserId::In {
            node: load.id(),
            index: 2
        }
    );
    assert_eq!(
        load.val_out(&ncx, 0).id(),
        OriginId::Out {
            node: load.id(),
            index: 0
        }
    );
    assert_eq!(
        load.st_out(&ncx, 0).id(),
        OriginId::Out {
            node: load.id(),
            index: 1
        }
    );
    assert_eq!(
        both.st_out(&ncx, 1).id(),
        OriginId::Out {
            node: both.id(),
            index: 3
        }
    );
}

#[test]
fn a_value_input_has_a_value_origin_and_a_state_input_a_state_origin() {
    let mut ncx = NodeCtxt::new();
    let a = ncx.mk_node(Op::Lit(1));
    let both = ncx.mk_node(Op::Both);
    let load = ncx
        .node_builder(Op::LoadOffset)
        .operand(a.val_out(&ncx, 0))
        .operand(both.val_out(&ncx, 1))
        .state(both.st_out(&ncx, 0))
        .finish(&mut ncx);

    for port in 0..2 {
        let origin = load.val_in(&ncx, port).origin(&ncx);
        let producer = origin.producer(&ncx);
        let sig = producer.data(&ncx).sig();
        match origin.id() {
            OriginId::Out { index, .. } => assert!(index < sig.val_outs),
            OriginId::Arg { .. } => panic!("a node input is connected to a node output"),
        }
    }
    let origin = load.st_in(&ncx, 0).origin(&ncx);
    let producer = origin.producer(&ncx);
    let sig = producer.data(&ncx).sig();
    match origin.id() {
        OriginId::Out { index, .. } => {
            assert!(sig.val_outs <= index && index < sig.val_outs + sig.st_outs)
        }
        OriginId::Arg { .. } => panic!("a node input is connected to a node output"),
    }
    assert_eq!(origin, both.st_out(&ncx, 0));
    assert_eq!(producer.id(), both.id());
}

#[test]
fn handles_are_made_from_identifiers() {
    let mut ncx = NodeCtxt::new();
    let a = ncx.mk_node_with(NodeKind::Op(Op::Lit(1)), &[]);
    let node = ncx.node_ref(a);
    assert_eq!(node.id(), a);
    assert_eq!(*node.kind(&ncx), NodeKind::Op(Op::Lit(1)));
    let out = OriginId::Out { node: a, index: 0 };
    let origin = ncx.origin_ref(out);
    assert_eq!(origin.id(), out);
    assert!(origin.data(&ncx).users.is_none());
    assert_eq!(origin.producer(&ncx).id(), a);
    let both = ncx.mk_node_with(NodeKind::Op(Op::LoadOffset), &[out, out, out]);
    let input = UserId::In {
        node: both,
        index: 2,
    };
    let user = ncx.user_ref(input);
    assert_eq!(user.id(), input);
    assert_eq!(user.data(&ncx).origin, Some(out));
    assert_eq!(user.origin(&ncx).id(), out);
    assert_eq!(
        user.data(&ncx).prev_user,
        Some(UserId::In {
            node: both,
            index: 1
        })
    );
}
