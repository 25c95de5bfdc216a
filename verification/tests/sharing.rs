use rvsdg::{NodeCtxt, NodeCtxtConfig, NodeKind, OriginId, Sig, SigS};

#[derive(Clone, Hash, PartialEq, Eq, Debug)]
enum Inst {
    Val(usize),
    Stateful,
    Stateless,
    Add,
}

impl Sig for Inst {
    fn sig(&self) -> SigS {
        match self {
            Inst::Val(..) => SigS {
                val_outs: 1,
                ..SigS::default()
            },
            Inst::Stateful => SigS {
                val_ins: 1,
                val_outs: 1,
                st_outs: 1,
                ..SigS::default()
            },
            Inst::Stateless => SigS {
                val_ins: 1,
                st_ins: 1,
                val_outs: 1,
                ..SigS::default()
            },
            Inst::Add => SigS {
                val_ins: 2,
                val_outs: 1,
                ..SigS::default()
            },
        }
    }
}

#[test]
fn do_not_intern_stateful_nodes() {
    let mut ncx = NodeCtxt::new();

    let n_val = ncx.mk_node(Inst::Val(42));

    let n_stateful_1 = ncx
        .node_builder(Inst::Stateful)
        .operand(n_val.val_out(&ncx, 0))
        .finish(&mut ncx);

    let n_stateful_2 = ncx
        .node_builder(Inst::Stateful)
        .operand(n_val.val_out(&ncx, 0))
        .finish(&mut ncx);

    assert_ne!(n_stateful_1.id(), n_stateful_2.id());

    let n_stateless_1 = ncx
        .node_builder(Inst::Stateless)
        .operand(n_stateful_1.val_out(&ncx, 0))
        .state(n_stateful_1.st_out(&ncx, 0))
        .finish(&mut ncx);

    let n_stateless_2 = ncx
        .node_builder(Inst::Stateless)
        .operand(n_stateful_1.val_out(&ncx, 0))
        .state(n_stateful_1.st_out(&ncx, 0))
        .finish(&mut ncx);

    assert_eq!(n_stateless_1.id(), n_stateless_2.id());

    let n_stateless_3 = ncx
        .node_builder(Inst::Stateless)
        .operand(n_stateful_2.val_out(&ncx, 0))
        .state(n_stateful_2.st_out(&ncx, 0))
        .finish(&mut ncx);

    assert_ne!(n_stateless_3.id(), n_stateless_1.id());
    assert_ne!(n_stateless_3.id(), n_stateless_2.id());
}

#[test]
fn sum_with_a_literal_created_twice() {
    let mut ncx = NodeCtxt::new();
    let two = ncx.mk_node(Inst::Val(2));
    let three = ncx.mk_node(Inst::Val(3));
    let two_again = ncx.mk_node(Inst::Val(2));
    assert_eq!(two.id(), two_again.id());

    let sum = ncx
        .node_builder(Inst::Add)
        .operand(two.val_out(&ncx, 0))
        .operand(three.val_out(&ncx, 0))
        .finish(&mut ncx);
    let sum_again = ncx
        .node_builder(Inst::Add)
        .operand(two_again.val_out(&ncx, 0))
        .operand(three.val_out(&ncx, 0))
        .finish(&mut ncx);
    assert_eq!(sum.id(), sum_again.id());

    let swapped = ncx
        .node_builder(Inst::Add)
        .operand(three.val_out(&ncx, 0))
        .operand(two.val_out(&ncx, 0))
        .finish(&mut ncx);
    assert_ne!(sum.id(), swapped.id());
}

#[test]
fn operand_order_is_part_of_the_key() {
    let mut ncx = NodeCtxt::new();
    let a = ncx.mk_node(Inst::Val(2));
    let b = ncx.mk_node(Inst::Val(3));
    let ab = ncx
        .node_builder(Inst::Add)
        .operand(a.val_out(&ncx, 0))
        .operand(b.val_out(&ncx, 0))
        .finish(&mut ncx);
    let ba = ncx
        .node_builder(Inst::Add)
        .operand(b.val_out(&ncx, 0))
        .operand(a.val_out(&ncx, 0))
        .finish(&mut ncx);
    assert_ne!(ab.id(), ba.id());
    let ab_again = ncx
        .node_builder(Inst::Add)
        .operand(a.val_out(&ncx, 0))
        .operand(b.val_out(&ncx, 0))
        .finish(&mut ncx);
    assert_eq!(ab.id(), ab_again.id());
}

#[test]
fn shared_node_is_not_linked_again() {
    let mut ncx = NodeCtxt::new();
    let a = ncx.mk_node(Inst::Val(2));
    let b = ncx.mk_node(Inst::Val(3));
    let origins = [
        OriginId::Out { node: a.id(), index: 0 },
        OriginId::Out { node: b.id(), index: 0 },
    ];
    let first = ncx.mk_node_with(NodeKind::Op(Inst::Add), &origins);
    let nodes = ncx.num_nodes();
    let edges = ncx.num_edges();
    let second = ncx.mk_node_with(NodeKind::Op(Inst::Add), &origins);
    assert_eq!(first, second);
    assert_eq!(nodes, ncx.num_nodes());
    assert_eq!(edges, ncx.num_edges());
    assert_eq!(3, nodes);
    assert_eq!(2, edges);
    let mut users = a.val_out(&ncx, 0).users(&ncx);
    assert!(users.next(&ncx).is_some());
    assert_eq!(None, users.next(&ncx));
}

#[test]
fn more_than_four_inputs_are_compared_in_full() {
    #[derive(Clone, Hash, PartialEq, Eq, Debug)]
    enum Wide {
        Val(usize),
        Six,
    }
    impl Sig for Wide {
        fn sig(&self) -> SigS {
            match self {
                Wide::Val(..) => SigS { val_outs: 1, ..SigS::default() },
                Wide::Six => SigS { val_ins: 6, val_outs: 1, ..SigS::default() },
            }
        }
    }
    let mut ncx = NodeCtxt::new();
    let a = ncx.mk_node(Wide::Val(1)).id();
    let b = ncx.mk_node(Wide::Val(2)).id();
    let oa = OriginId::Out { node: a, index: 0 };
    let ob = OriginId::Out { node: b, index: 0 };
    let x = ncx.mk_node_with(NodeKind::Op(Wide::Six), &[oa, oa, oa, oa, oa, oa]);
    let y = ncx.mk_node_with(NodeKind::Op(Wide::Six), &[oa, oa, oa, oa, oa, ob]);
    let z = ncx.mk_node_with(NodeKind::Op(Wide::Six), &[oa, oa, oa, oa, oa, oa]);
    assert_ne!(x, y);
    assert_eq!(x, z);
}

#[test]
fn one_node_using_one_origin_twice() {
    let mut ncx = NodeCtxt::new();
    let a = ncx.mk_node(Inst::Val(2));
    let twice = ncx
        .node_builder(Inst::Add)
        .operand(a.val_out(&ncx, 0))
        .operand(a.val_out(&ncx, 0))
        .finish(&mut ncx);
    let first = twice.val_in(&ncx, 0).id();
    let second = twice.val_in(&ncx, 1).id();
    let ends = ncx
        .origin_data(OriginId::Out { node: a.id(), index: 0 })
        .users
        .unwrap();
    assert_eq!(ends.first, first);
    assert_eq!(ends.last, second);
    assert_eq!(ncx.user_data(first).next_user, Some(second));
    assert_eq!(ncx.user_data(first).prev_user, None);
    assert_eq!(ncx.user_data(second).prev_user, Some(first));
    assert_eq!(ncx.user_data(second).next_user, None);
}

#[test]
fn without_interning_every_construction_is_a_new_node() {
    let mut ncx = NodeCtxt::with_config(NodeCtxtConfig {
        opt_interning: false,
    });
    let a = ncx.mk_node(Inst::Val(2));
    let b = ncx.mk_node(Inst::Val(2));
    assert_ne!(a.id(), b.id());
    assert_eq!(2, ncx.num_nodes());
}

#[test]
fn default_config_shares_pure_nodes() {
    assert!(NodeCtxtConfig::default().opt_interning);
}

#[test]
fn created_nodes_are_never_shared() {
    let mut ncx = NodeCtxt::new();
    let a = ncx.create_node(NodeKind::Op(Inst::Val(2)), rvsdg::RegionId(0));
    let b = ncx.mk_node(Inst::Val(2));
    let c = ncx.mk_node(Inst::Val(2));
    assert_ne!(a.id(), b.id());
    assert_eq!(b.id(), c.id());
}
