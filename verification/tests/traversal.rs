use rvsdg::{NodeCtxt, Sig, SigS};

#[derive(Clone, Copy, PartialEq, Eq, Hash, Debug)]
enum TestData {
    Lit(u32),
    OpA,
    OpB,
    OpC,
}

impl Sig for TestData {
    fn sig(&self) -> SigS {
        match self {
            TestData::Lit(..) => SigS {
                val_outs: 1,
                ..SigS::default()
            },
            TestData::OpA | TestData::OpB | TestData::OpC => SigS {
                val_ins: 1,
                val_outs: 1,
                ..SigS::default()
            },
        }
    }
}

#[test]
fn users_iterator() {
    let mut ncx = NodeCtxt::new();

    let n0 = ncx.mk_node(TestData::Lit(0));

    let n1 = ncx
        .node_builder(TestData::OpA)
        .operand(n0.val_out(&ncx, 0))
        .finish(&mut ncx);

    let n2 = ncx
        .node_builder(TestData::OpB)
        .operand(n0.val_out(&ncx, 0))
        .finish(&mut ncx);

    let n3 = ncx
        .node_builder(TestData::OpC)
        .operand(n0.val_out(&ncx, 0))
        .finish(&mut ncx);

    let mut users = n0.val_out(&ncx, 0).users(&ncx);

    assert_eq!(Some(n1.val_in(&ncx, 0)), users.next(&ncx));
    assert_eq!(Some(n2.val_in(&ncx, 0)), users.next(&ncx));
    assert_eq!(Some(n3.val_in(&ncx, 0)), users.next(&ncx));
    assert_eq!(None, users.next(&ncx));
}

#[test]
fn users_double_ended_iterator() {
    let mut ncx = NodeCtxt::new();

    let n0 = ncx.mk_node(TestData::Lit(0));

    let n1 = ncx
        .node_builder(TestData::OpA)
        .operand(n0.val_out(&ncx, 0))
        .finish(&mut ncx);

    let n2 = ncx
        .node_builder(TestData::OpB)
        .operand(n0.val_out(&ncx, 0))
        .finish(&mut ncx);

    let n3 = ncx
        .node_builder(TestData::OpC)
        .operand(n0.val_out(&ncx, 0))
        .finish(&mut ncx);

    let mut users = n0.val_out(&ncx, 0).users(&ncx);

    assert_eq!(Some(n1.val_in(&ncx, 0)), users.next(&ncx));
    assert_eq!(Some(n3.val_in(&ncx, 0)), users.next_back(&ncx));
    assert_eq!(Some(n2.val_in(&ncx, 0)), users.next_back(&ncx));
    assert_eq!(None, users.next(&ncx));
    assert_eq!(None, users.next_back(&ncx));
}

#[test]
fn users_backward_is_reverse_of_forward() {
    let mut ncx = NodeCtxt::new();
    let n0 = ncx.mk_node(TestData::Lit(7));
    let a = ncx
        .node_builder(TestData::OpA)
        .operand(n0.val_out(&ncx, 0))
        .finish(&mut ncx);
    let b = ncx
        .node_builder(TestData::OpB)
        .operand(n0.val_out(&ncx, 0))
        .finish(&mut ncx);
    let c = ncx
        .node_builder(TestData::OpC)
        .operand(n0.val_out(&ncx, 0))
        .finish(&mut ncx);

    let origin = n0.val_out(&ncx, 0).0;
    let mut forward = Vec::new();
    let mut users = origin.users(&ncx);
    while let Some(user) = users.next(&ncx) {
        forward.push(user.id());
    }
    let mut backward = Vec::new();
    let mut users = origin.users(&ncx);
    while let Some(user) = users.next_back(&ncx) {
        backward.push(user.id());
    }
    backward.reverse();
    assert_eq!(forward, backward);
    assert_eq!(
        forward,
        vec![
            a.val_in(&ncx, 0).id(),
            b.val_in(&ncx, 0).id(),
            c.val_in(&ncx, 0).id()
        ]
    );
}

#[test]
fn user_list_records_follow_the_connection_order() {
    let mut ncx = NodeCtxt::new();
    let n0 = ncx.mk_node(TestData::Lit(7));
    let a = ncx
        .node_builder(TestData::OpA)
        .operand(n0.val_out(&ncx, 0))
        .finish(&mut ncx);
    let b = ncx
        .node_builder(TestData::OpB)
        .operand(n0.val_out(&ncx, 0))
        .finish(&mut ncx);
    let c = ncx
        .node_builder(TestData::OpC)
        .operand(n0.val_out(&ncx, 0))
        .finish(&mut ncx);
    let (ua, ub, uc) = (
        a.val_in(&ncx, 0).id(),
        b.val_in(&ncx, 0).id(),
        c.val_in(&ncx, 0).id(),
    );

    let ends = n0.val_out(&ncx, 0).0.data(&ncx).users.unwrap();
    assert_eq!(ends.first, ua);
    assert_eq!(ends.last, uc);
    assert_eq!(ncx.user_data(ua).prev_user, None);
    assert_eq!(ncx.user_data(ua).next_user, Some(ub));
    assert_eq!(ncx.user_data(ub).prev_user, Some(ua));
    assert_eq!(ncx.user_data(ub).next_user, Some(uc));
    assert_eq!(ncx.user_data(uc).prev_user, Some(ub));
    assert_eq!(ncx.user_data(uc).next_user, None);
    // The outputs of the consumers have no users.
    assert!(a.val_out(&ncx, 0).0.data(&ncx).users.is_none());
    assert_eq!(None, a.val_out(&ncx, 0).users(&ncx).next(&ncx));
}

#[test]
fn empty_user_list_yields_nothing_either_way() {
    let mut ncx = NodeCtxt::new();
    let n0 = ncx.mk_node(TestData::Lit(1));
    let mut users = n0.val_out(&ncx, 0).users(&ncx);
    assert_eq!(None, users.next_back(&ncx));
    assert_eq!(None, users.next(&ncx));
}
