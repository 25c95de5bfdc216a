//! The graph as text in the DOT language: one record node for each node, in
//! the order of creation, each followed by the edges that end at its inputs.

use vstd::prelude::*;
use vstd::string::StringExecFns;
use crate::ctxt::NodeCtxt;
use crate::graph::Graph;
use crate::ids::{NodeId, OriginId};
use crate::kind::NodeKind;
use crate::sig::Sig;

verus! {

/// Calls `String::push`. Trusted: the string is what it was, with `c` at its
/// end.
#[verifier::external_body]
fn push_char(text: &mut String, c: char)
    ensures
        final(text)@ == old(text)@.push(c),
{
    text.push(c)
}

/// Calls `format!` with `{:?}`, which renders `op` as its `Debug`
/// implementation does. Nothing is claimed of the text.
#[verifier::external_body]
fn debug_text<S: core::fmt::Debug>(op: &S) -> (text: String) {
    format!("{:?}", op)
}

/// The decimal digit `d`.
pub open spec fn digit(d: int) -> char {
    if d == 0 {
        '0'
    } else if d == 1 {
        '1'
    } else if d == 2 {
        '2'
    } else if d == 3 {
        '3'
    } else if d == 4 {
        '4'
    } else if d == 5 {
        '5'
    } else if d == 6 {
        '6'
    } else if d == 7 {
        '7'
    } else if d == 8 {
        '8'
    } else {
        '9'
    }
}

/// `n` in decimal digits, without leading zeros.
pub open spec fn decimal(n: nat) -> Seq<char>
    decreases n,
{
    if n < 10 {
        seq![digit(n as int)]
    } else {
        decimal(n / 10).push(digit((n % 10) as int))
    }
}

/// The decimal digit `d`.
fn digit_char(d: usize) -> (c: char)
    requires
        d < 10,
    ensures
        c == digit(d as int),
{
    if d == 0 {
        '0'
    } else if d == 1 {
        '1'
    } else if d == 2 {
        '2'
    } else if d == 3 {
        '3'
    } else if d == 4 {
        '4'
    } else if d == 5 {
        '5'
    } else if d == 6 {
        '6'
    } else if d == 7 {
        '7'
    } else if d == 8 {
        '8'
    } else {
        '9'
    }
}

/// Appends `n` in decimal digits.
fn push_decimal(text: &mut String, n: usize)
    ensures
        final(text)@ == old(text)@ + decimal(n as nat),
    decreases n,
{
    if n >= 10 {
        push_decimal(text, n / 10);
    }
    push_char(text, digit_char(n % 10));
    assert(text@ =~= old(text)@ + decimal(n as nat));
}

/// `label` with a backslash before each brace.
pub open spec fn escaped(label: Seq<char>) -> Seq<char>
    decreases label.len(),
{
    if label.len() == 0 {
        Seq::empty()
    } else if label.last() == '{' || label.last() == '}' {
        escaped(label.drop_last()).push('\\').push(label.last())
    } else {
        escaped(label.drop_last()).push(label.last())
    }
}

/// Appends `label` with a backslash before each brace.
fn push_escaped(text: &mut String, label: &str)
    ensures
        final(text)@ == old(text)@ + escaped(label@),
{
    let n = label.unicode_len();
    let mut i: usize = 0;
    assert(text@ =~= old(text)@ + escaped(label@.take(0)));
    while i < n
        invariant
            i <= n == label@.len(),
            text@ == old(text)@ + escaped(label@.take(i as int)),
        decreases n - i,
    {
        let c = label.get_char(i);
        if c == '{' || c == '}' {
            push_char(text, '\\');
        }
        push_char(text, c);
        i += 1;
        proof {
            let taken = label@.take(i as int);
            assert(taken.drop_last() =~= label@.take(i - 1));
            assert(taken.last() == c);
            assert(text@ =~= old(text)@ + escaped(taken));
        }
    }
    assert(label@.take(i as int) =~= label@);
}

/// The text of port `k` of a record: its name, `prefix` and `k` in angle
/// brackets, and `k` as its caption.
pub open spec fn port_text(prefix: char, k: nat) -> Seq<char> {
    seq!['<', prefix] + decimal(k) + seq!['>'] + decimal(k)
}

/// The texts of the ports `0` to `n - 1`, with a bar between two of them.
pub open spec fn ports_text(prefix: char, n: nat) -> Seq<char>
    decreases n,
{
    if n == 0 {
        Seq::empty()
    } else if n == 1 {
        port_text(prefix, 0)
    } else {
        ports_text(prefix, (n - 1) as nat) + seq!['|'] + port_text(prefix, (n - 1) as nat)
    }
}

/// Two fields of a record with the separator between them; an empty field
/// is left out, and the separator with it.
pub open spec fn joined(a: Seq<char>, b: Seq<char>) -> Seq<char> {
    if a.len() == 0 {
        b
    } else if b.len() == 0 {
        a
    } else {
        a + "}|{"@ + b
    }
}

/// The label of the record of a node with `ins` inputs and `outs` outputs
/// whose operation is rendered as `label`: the inputs, the operation with
/// its braces escaped, and the outputs, those of them that are not empty.
pub open spec fn record_label(ins: nat, label: Seq<char>, outs: nat) -> Seq<char> {
    "{{"@ + joined(joined(ports_text('i', ins), escaped(label)), ports_text('o', outs)) + "}}"@
}

/// The line that declares node `id`.
pub open spec fn node_line(id: nat, ins: nat, label: Seq<char>, outs: nat) -> Seq<char> {
    "    n"@ + decimal(id) + " [label=\""@ + record_label(ins, label, outs) + "\"]\n"@
}

/// The line of the edge from output `out` of node `from` to input `port` of
/// node `to`: blue for a value, dashed and red for a state.
pub open spec fn edge_line(from: nat, out: nat, to: nat, port: nat, state: bool) -> Seq<char> {
    "    n"@ + decimal(from) + ":o"@ + decimal(out) + " -> n"@ + decimal(to) + ":i"@ + decimal(
        port,
    ) + (if state {
        " [style=dashed, color=red]\n"@
    } else {
        " [color=blue]\n"@
    })
}

/// The first lines of the text.
pub open spec fn dot_head() -> Seq<char> {
    "digraph rvsdg {\n    node [shape=record]\n    edge [arrowhead=none]\n"@
}

/// The last line of the text.
pub open spec fn dot_foot() -> Seq<char> {
    "}\n"@
}

impl<S: Sig> Graph<S> {
    /// The graph can be rendered: every node is an operation, and every
    /// input is connected to an output of a node.
    pub open spec fn printable(self) -> bool {
        forall|n: int|
            0 <= n < self.nodes.len() ==> {
                &&& (#[trigger] self.nodes[n]).kind is Op
                &&& forall|i: int|
                    0 <= i < self.nodes[n].ins.len() ==> (#[trigger] self.nodes[n].ins[i]).origin
                        matches Some(OriginId::Out { .. })
            }
    }

    /// The lines of the edges that end at the first `k` inputs of node `n`,
    /// in the order of the inputs.
    pub open spec fn edges_text(self, n: int, k: nat) -> Seq<char>
        decreases k,
    {
        if k == 0 {
            Seq::empty()
        } else {
            let origin = self.nodes[n].ins[k - 1].origin->0;
            self.edges_text(n, (k - 1) as nat) + edge_line(
                origin->Out_node.0 as nat,
                origin->Out_index as nat,
                n as nat,
                (k - 1) as nat,
                k - 1 >= self.nodes[n].kind.sig_spec().val_ins,
            )
        }
    }

    /// The lines of node `n`: its declaration, then its edges.
    pub open spec fn node_text(self, n: int, label: Seq<char>) -> Seq<char> {
        node_line(n as nat, self.nodes[n].ins.len(), label, self.nodes[n].outs.len())
            + self.edges_text(n, self.nodes[n].ins.len())
    }

    /// The lines of the first `k` nodes, where `labels[n]` renders the
    /// operation of node `n`.
    pub open spec fn nodes_text(self, labels: Seq<Seq<char>>, k: nat) -> Seq<char>
        decreases k,
    {
        if k == 0 {
            Seq::empty()
        } else {
            self.nodes_text(labels, (k - 1) as nat) + self.node_text(k - 1, labels[k - 1])
        }
    }

    /// The graph as text in the DOT language, where `labels[n]` renders the
    /// operation of node `n`.
    pub open spec fn dot_text(self, labels: Seq<Seq<char>>) -> Seq<char> {
        dot_head() + self.nodes_text(labels, self.nodes.len()) + dot_foot()
    }
}

/// Appends the texts of the ports `0` to `n - 1`.
fn push_ports(text: &mut String, prefix: char, n: usize)
    ensures
        final(text)@ == old(text)@ + ports_text(prefix, n as nat),
{
    let mut k: usize = 0;
    assert(text@ =~= old(text)@ + ports_text(prefix, 0));
    while k < n
        invariant
            k <= n,
            text@ == old(text)@ + ports_text(prefix, k as nat),
        decreases n - k,
    {
        let ghost before = text@;
        if k > 0 {
            push_char(text, '|');
        }
        push_char(text, '<');
        push_char(text, prefix);
        push_decimal(text, k);
        push_char(text, '>');
        push_decimal(text, k);
        proof {
            let port = port_text(prefix, k as nat);
            if k > 0 {
                assert(text@ =~= before + seq!['|'] + port);
                assert(text@ =~= old(text)@ + (ports_text(prefix, k as nat) + seq!['|'] + port));
            } else {
                assert(text@ =~= before + port);
                assert(ports_text(prefix, 0) =~= Seq::<char>::empty());
                assert(text@ =~= old(text)@ + port);
            }
        }
        k += 1;
    }
}

/// Joins two fields of a record.
fn join_fields(a: String, b: &str) -> (r: String)
    ensures
        r@ == joined(a@, b@),
{
    if a.as_str().is_empty() {
        let mut r = String::new();
        r.append(b);
        assert(r@ =~= b@);
        r
    } else if b.is_empty() {
        a
    } else {
        let mut r = a;
        r.append("}|{");
        r.append(b);
        assert(r@ =~= a@ + "}|{"@ + b@);
        r
    }
}

/// Appends the label of the record of a node.
fn push_record_label(text: &mut String, ins: usize, label: &str, outs: usize)
    ensures
        final(text)@ == old(text)@ + record_label(ins as nat, label@, outs as nat),
{
    let mut dot_ins = String::new();
    push_ports(&mut dot_ins, 'i', ins);
    assert(dot_ins@ =~= ports_text('i', ins as nat));
    let mut dot_outs = String::new();
    push_ports(&mut dot_outs, 'o', outs);
    assert(dot_outs@ =~= ports_text('o', outs as nat));
    let mut label_op = String::new();
    push_escaped(&mut label_op, label);
    assert(label_op@ =~= escaped(label@));
    let label_value = join_fields(join_fields(dot_ins, label_op.as_str()), dot_outs.as_str());
    text.append("{{");
    text.append(label_value.as_str());
    text.append("}}");
    assert(text@ =~= old(text)@ + ("{{"@ + label_value@ + "}}"@));
}

/// Appends the line that declares node `id`.
fn push_node_line(text: &mut String, id: usize, ins: usize, label: &str, outs: usize)
    ensures
        final(text)@ == old(text)@ + node_line(id as nat, ins as nat, label@, outs as nat),
{
    text.append("    n");
    push_decimal(text, id);
    text.append(" [label=\"");
    let ghost start = text@;
    assert(start =~= old(text)@ + ("    n"@ + decimal(id as nat) + " [label=\""@));
    push_record_label(text, ins, label, outs);
    text.append("\"]\n");
    assert(text@ =~= old(text)@ + ("    n"@ + decimal(id as nat) + " [label=\""@ + record_label(
        ins as nat,
        label@,
        outs as nat,
    ) + "\"]\n"@));
}

/// Appends the line of an edge.
fn push_edge_line(text: &mut String, from: usize, out: usize, to: usize, port: usize, state: bool)
    ensures
        final(text)@ == old(text)@ + edge_line(
            from as nat,
            out as nat,
            to as nat,
            port as nat,
            state,
        ),
{
    text.append("    n");
    push_decimal(text, from);
    text.append(":o");
    push_decimal(text, out);
    text.append(" -> n");
    push_decimal(text, to);
    text.append(":i");
    push_decimal(text, port);
    if state {
        text.append(" [style=dashed, color=red]\n");
    } else {
        text.append(" [color=blue]\n");
    }
    assert(text@ =~= old(text)@ + edge_line(
        from as nat,
        out as nat,
        to as nat,
        port as nat,
        state,
    ));
}

impl<S: Sig> NodeCtxt<S> {
    /// Appends the lines of the edges that end at the inputs of node `idx`:
    /// those of the value inputs first, then those of the state inputs.
    fn push_edges(&self, text: &mut String, idx: usize)
        requires
            self@.wf(),
            self@.printable(),
            idx < self@.nodes.len(),
        ensures
            final(text)@ == old(text)@ + self@.edges_text(
                idx as int,
                self@.nodes[idx as int].ins.len(),
            ),
    {
        let node = self.node_ref(NodeId(idx));
        proof {
            assert(self@.node_shaped(idx as int));
        }
        let sig = self.node_data(NodeId(idx)).sig();
        assert(text@ =~= old(text)@ + self@.edges_text(idx as int, 0));
        let mut i: usize = 0;
        while i < sig.val_ins
            invariant
                i <= sig.val_ins,
                self@.wf(),
                self@.printable(),
                idx < self@.nodes.len(),
                node.id == NodeId(idx),
                sig == self@.nodes[idx as int].kind.sig_spec(),
                self@.node_shaped(idx as int),
                text@ == old(text)@ + self@.edges_text(idx as int, i as nat),
            decreases sig.val_ins - i,
        {
            let origin = node.val_in(self, i).origin(self);
            if let OriginId::Out { node: origin_node_id, index } = origin.id() {
                push_edge_line(text, origin_node_id.0, index, idx, i, false);
            }
            i += 1;
            assert(text@ =~= old(text)@ + self@.edges_text(idx as int, i as nat));
        }
        let mut i: usize = 0;
        while i < sig.st_ins
            invariant
                i <= sig.st_ins,
                self@.wf(),
                self@.printable(),
                idx < self@.nodes.len(),
                node.id == NodeId(idx),
                sig == self@.nodes[idx as int].kind.sig_spec(),
                self@.node_shaped(idx as int),
                text@ == old(text)@ + self@.edges_text(idx as int, (sig.val_ins + i) as nat),
            decreases sig.st_ins - i,
        {
            let origin = node.st_in(self, i).origin(self);
            if let OriginId::Out { node: origin_node_id, index } = origin.id() {
                push_edge_line(text, origin_node_id.0, index, idx, sig.val_ins + i, true);
            }
            i += 1;
            assert(text@ =~= old(text)@ + self@.edges_text(idx as int, (sig.val_ins + i) as nat));
        }
    }

    /// The graph as text in the DOT language, where `labels[n]` renders the
    /// operation of node `n`.
    pub fn render(&self, labels: &[String]) -> (text: String)
        requires
            self@.wf(),
            self@.printable(),
            labels@.len() == self@.nodes.len(),
        ensures
            text@ == self@.dot_text(labels@.map_values(|label: String| label@)),
    {
        let ghost views = labels@.map_values(|label: String| label@);
        let mut text = String::new();
        text.append("digraph rvsdg {\n    node [shape=record]\n    edge [arrowhead=none]\n");
        assert(text@ =~= dot_head() + self@.nodes_text(views, 0));
        let mut idx: usize = 0;
        while idx < self.num_nodes()
            invariant
                idx <= self@.nodes.len(),
                self@.wf(),
                self@.printable(),
                labels@.len() == self@.nodes.len(),
                views == labels@.map_values(|label: String| label@),
                text@ == dot_head() + self@.nodes_text(views, idx as nat),
            decreases self@.nodes.len() - idx,
        {
            proof {
                assert(self@.node_shaped(idx as int));
            }
            let sig = self.node_data(NodeId(idx)).sig();
            push_node_line(
                &mut text,
                idx,
                sig.num_input_ports(),
                labels[idx].as_str(),
                sig.num_output_ports(),
            );
            self.push_edges(&mut text, idx);
            idx += 1;
            assert(text@ =~= dot_head() + self@.nodes_text(views, idx as nat));
        }
        text.append("}\n");
        text
    }
}

impl<S: Sig + core::fmt::Debug> NodeCtxt<S> {
    /// The graph as text in the DOT language, each operation rendered as its
    /// `Debug` implementation renders it.
    pub fn print(&self) -> (text: String)
        requires
            self@.wf(),
            self@.printable(),
        ensures
            exists|labels: Seq<Seq<char>>|
                labels.len() == self@.nodes.len() && text@ == #[trigger] self@.dot_text(labels),
    {
        let mut labels: Vec<String> = Vec::new();
        let mut idx: usize = 0;
        while idx < self.num_nodes()
            invariant
                idx <= self@.nodes.len(),
                self@.printable(),
                labels@.len() == idx,
            decreases self@.nodes.len() - idx,
        {
            if let NodeKind::Op(operation) = &self.node_data(NodeId(idx)).kind {
                labels.push(debug_text(operation));
            }
            idx += 1;
        }
        self.render(labels.as_slice())
    }
}

} // verus!
