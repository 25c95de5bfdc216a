use rvsdg::{NodeId, NodeKind, OriginId, RegionId, RegionSigS, Sig, SigS, UserId};

#[derive(Clone, PartialEq, Eq, Hash, Debug)]
struct Unit;

impl Sig for Unit {
    fn sig(&self) -> SigS {
        SigS {
            val_ins: 3,
            val_outs: 2,
            st_ins: 1,
            st_outs: 0,
        }
    }
}

#[test]
fn port_counts_add_values_and_states() {
    let sig = SigS {
        val_ins: 3,
        val_outs: 2,
        st_ins: 4,
        st_outs: 5,
    };
    assert_eq!(7, sig.num_input_ports());
    assert_eq!(7, sig.num_output_ports());
    let region = RegionSigS {
        val_args: 2,
        val_res: 1,
        st_args: 3,
        st_res: 4,
    };
    assert_eq!(5, region.num_argument_ports());
    assert_eq!(5, region.num_result_ports());
    assert_eq!(0, RegionSigS::default().num_argument_ports());
}

#[test]
fn side_effect_is_a_state_output() {
    assert!(!SigS::default().is_side_effectful());
    assert!(SigS {
        st_outs: 1,
        ..SigS::default()
    }
    .is_side_effectful());
    assert!(!SigS {
        val_ins: 1,
        val_outs: 1,
        st_ins: 1,
        st_outs: 0
    }
    .is_side_effectful());
}

#[test]
fn structured_kinds_add_their_first_input() {
    let apply: NodeKind<Unit> = NodeKind::Apply {
        arg_val_ins: 2,
        arg_st_ins: 1,
        region_val_res: 3,
        region_st_res: 4,
    };
    assert_eq!(
        apply.sig(),
        SigS {
            val_ins: 3,
            val_outs: 3,
            st_ins: 1,
            st_outs: 4
        }
    );
    let gamma: NodeKind<Unit> = NodeKind::Gamma {
        val_ins: 2,
        val_outs: 5,
        st_ins: 6,
        st_outs: 7,
    };
    assert_eq!(
        gamma.sig(),
        SigS {
            val_ins: 3,
            val_outs: 5,
            st_ins: 6,
            st_outs: 7
        }
    );
    let omega: NodeKind<Unit> = NodeKind::Omega {
        imports: 1,
        exports: 1,
    };
    assert_eq!(omega.sig(), SigS::default());
    assert_eq!(NodeKind::Op(Unit).sig(), Unit.sig());
}

#[test]
fn kinds_compare_by_variant_and_fields() {
    let a: NodeKind<Unit> = NodeKind::Omega {
        imports: 1,
        exports: 1,
    };
    let b: NodeKind<Unit> = NodeKind::Omega {
        imports: 1,
        exports: 2,
    };
    assert!(a == a.clone());
    assert!(a != b);
    assert!(NodeKind::Op(Unit) == NodeKind::Op(Unit));
    assert!(NodeKind::Op(Unit) != a);
}

#[test]
fn only_node_ports_have_an_owner() {
    let n = NodeId(7);
    assert_eq!(Some(n), UserId::In { node: n, index: 0 }.node_id());
    assert_eq!(
        None,
        UserId::Res {
            region: RegionId(0),
            index: 0
        }
        .node_id()
    );
    assert_eq!(Some(n), OriginId::Out { node: n, index: 3 }.node_id());
    assert_eq!(
        None,
        OriginId::Arg {
            region: RegionId(0),
            index: 3
        }
        .node_id()
    );
}
