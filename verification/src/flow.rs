//! Priority-based visual branching, with bounded polling and explicit error routes.
use crate::action::{performable, Action, ActionModel, Actions};
use crate::automation::{Error, ErrorModel};
use crate::clock::{after_or_end, find_after, find_after_or_end, Nanos, CLOCK_END};
use crate::copy::Dup;
use crate::recognition::{Recognition, RecognitionModel, Recognizers, RecognizersModel};
use crate::text;
use crate::text::Text;
use vstd::prelude::*;

verus! {

/// How long a backend may take to release held input, in nanoseconds.
pub const INPUT_CLEANUP_TIMEOUT: Nanos = 2_000_000_000;

/// The nanoseconds in a millisecond.
pub const MILLISECOND: Nanos = 1_000_000;

/// One state of the application, and what to do in it.
#[derive(Debug)]
pub struct Node {
    /// What has to be found for the node to be entered.
    pub recognition: Recognition,
    pub actions: Vec<Action>,
    pub next: Vec<String>,
    pub on_error: Vec<String>,
    /// Candidates to look for after an input may have been interrupted.
    pub on_interrupted: Vec<String>,
    /// Bounds each phase: the node's actions, and looking for its next candidates.
    pub timeout_ms: u64,
}

#[verifier::ext_equal]
pub struct NodeModel {
    pub recognition: RecognitionModel,
    pub actions: Seq<ActionModel>,
    pub next: Seq<Text>,
    pub on_error: Seq<Text>,
    pub on_interrupted: Seq<Text>,
    pub timeout_ms: u64,
}

impl View for Node {
    type V = NodeModel;

    open spec fn view(&self) -> NodeModel {
        NodeModel {
            recognition: self.recognition@,
            actions: self.actions.deep_view(),
            next: self.next.deep_view(),
            on_error: self.on_error.deep_view(),
            on_interrupted: self.on_interrupted.deep_view(),
            timeout_ms: self.timeout_ms,
        }
    }
}

impl DeepView for Node {
    type V = NodeModel;

    open spec fn deep_view(&self) -> NodeModel {
        self@
    }
}

/// A node under its name.
#[derive(Debug)]
pub struct NamedNode {
    pub name: String,
    pub node: Node,
}

#[verifier::ext_equal]
pub struct NamedNodeModel {
    pub name: Text,
    pub node: NodeModel,
}

impl View for NamedNode {
    type V = NamedNodeModel;

    open spec fn view(&self) -> NamedNodeModel {
        NamedNodeModel {
            name: self.name@,
            node: self.node@,
        }
    }
}

impl DeepView for NamedNode {
    type V = NamedNodeModel;

    open spec fn deep_view(&self) -> NamedNodeModel {
        self@
    }
}

/// What to look for and do, and in which order.
#[derive(Debug)]
pub struct Flow {
    pub entry: String,
    /// In the order of their names, each name once.
    pub nodes: Vec<NamedNode>,
    pub poll_interval_ms: u64,
    /// All looks and actions, those on error routes too. No loop resets it.
    pub max_operations: u64,
}

#[verifier::ext_equal]
pub struct FlowModel {
    pub entry: Text,
    pub nodes: Seq<NamedNodeModel>,
    pub poll_interval_ms: u64,
    pub max_operations: u64,
}

impl View for Flow {
    type V = FlowModel;

    open spec fn view(&self) -> FlowModel {
        FlowModel {
            entry: self.entry@,
            nodes: self.nodes.deep_view(),
            poll_interval_ms: self.poll_interval_ms,
            max_operations: self.max_operations,
        }
    }
}

impl DeepView for Flow {
    type V = FlowModel;

    open spec fn deep_view(&self) -> FlowModel {
        self@
    }
}

/// The first unknown name, from an index on.
pub open spec fn unknown_target(nodes: Seq<NamedNodeModel>, targets: Seq<Text>, i: int) -> Option<
    Text,
>
    decreases targets.len() - i,
{
    if i < 0 || i >= targets.len() {
        None
    } else if node_index(nodes, targets[i], 0) is None {
        Some(targets[i])
    } else {
        unknown_target(nodes, targets, i + 1)
    }
}

/// The index of the first node, from an index on, that has a name.
pub open spec fn node_index(nodes: Seq<NamedNodeModel>, name: Text, i: int) -> Option<int>
    decreases nodes.len() - i,
{
    if i < 0 || i >= nodes.len() {
        None
    } else if nodes[i].name == name {
        Some(i)
    } else {
        node_index(nodes, name, i + 1)
    }
}

/// A node that is found by its name has that name.
pub proof fn found_nodes_have_their_names(nodes: Seq<NamedNodeModel>, name: Text, i: int)
    requires
        0 <= i,
    ensures
        node_index(nodes, name, i) matches Some(j) ==> i <= j < nodes.len() && nodes[j].name
            == name,
    decreases nodes.len() - i,
{
    if i < nodes.len() {
        found_nodes_have_their_names(nodes, name, i + 1);
    }
}

proof fn lemma_known_targets(nodes: Seq<NamedNodeModel>, targets: Seq<Text>, i: int)
    requires
        0 <= i,
        unknown_target(nodes, targets, i) is None,
    ensures
        forall|j: int|
            i <= j < targets.len() ==> node_index(nodes, #[trigger] targets[j], 0) is Some,
    decreases targets.len() - i,
{
    if i < targets.len() {
        lemma_known_targets(nodes, targets, i + 1);
    }
}

/// What is wrong with an action of a node, if anything is.
pub open spec fn action_flaw(action: ActionModel, name: Text, timeout_ms: u64) -> Option<
    ErrorModel,
> {
    match action {
        ActionModel::KeyDown { key } if text::blank(key) => Some(
            ErrorModel::Invalid("empty key"@),
        ),
        ActionModel::KeyUp { key } if text::blank(key) => Some(ErrorModel::Invalid("empty key"@)),
        ActionModel::Custom { name, .. } if text::blank(name) => Some(
            ErrorModel::Invalid("empty custom action"@),
        ),
        ActionModel::Wait { duration_ms } if duration_ms > timeout_ms => Some(too_long(name)),
        ActionModel::LongPress { duration_ms, .. } if duration_ms > timeout_ms => Some(
            too_long(name),
        ),
        ActionModel::Swipe { duration_ms, .. } if duration_ms > timeout_ms => Some(too_long(name)),
        _ => None,
    }
}

/// An action of this node takes longer than the node may.
pub open spec fn too_long(name: Text) -> ErrorModel {
    ErrorModel::Invalid("action duration exceeds node timeout: "@ + name)
}

/// What is wrong with the first action, from an index on, with which something is wrong.
pub open spec fn actions_flaw(
    actions: Seq<ActionModel>,
    name: Text,
    timeout_ms: u64,
    i: int,
) -> Option<ErrorModel>
    decreases actions.len() - i,
{
    if i < 0 || i >= actions.len() {
        None
    } else {
        match action_flaw(actions[i], name, timeout_ms) {
            Some(error) => Some(error),
            None => actions_flaw(actions, name, timeout_ms, i + 1),
        }
    }
}

/// A target that no node has the name of.
pub open spec fn unknown(target: Text, name: Text) -> ErrorModel {
    ErrorModel::Invalid("unknown target "@ + target + " in "@ + name)
}

/// The time at which so many milliseconds have passed, on a clock that stops at its end.
pub open spec fn later(now: Nanos, ms: u64) -> Nanos {
    after_or_end(now, ms * MILLISECOND)
}

/// Whether the clock reaches the time at which so many milliseconds have passed.
pub open spec fn reachable(now: Nanos, ms: u64) -> bool {
    now + ms * MILLISECOND <= CLOCK_END
}

fn check_reachable(now: Nanos, ms: u64) -> (r: bool)
    ensures
        r == reachable(now, ms),
{
    find_after(now, ms as Nanos * MILLISECOND).is_some()
}

/// The time at which so many milliseconds have passed, on a clock that stops at its end.
pub fn find_later(now: Nanos, ms: u64) -> (r: Nanos)
    ensures
        r == later(now, ms),
{
    find_after_or_end(now, ms as Nanos * MILLISECOND)
}

/// The names of nodes increase: they come in order, and none comes twice.
pub open spec fn increasing(nodes: Seq<NamedNodeModel>) -> bool {
    forall|i: int, j: int|
        0 <= i < j < nodes.len() ==> text::before(
            (#[trigger] nodes[i]).name,
            (#[trigger] nodes[j]).name,
        )
}

/// Of nodes whose names increase each is found by its name, and no two have the same.
pub proof fn nodes_are_found_by_their_names(nodes: Seq<NamedNodeModel>, i: int)
    requires
        increasing(nodes),
        0 <= i < nodes.len(),
    ensures
        node_index(nodes, nodes[i].name, 0) == Some(i),
        forall|j: int| 0 <= j < nodes.len() && (#[trigger] nodes[j]).name == nodes[i].name ==> j == i,
{
    text::before_is_irreflexive(nodes[i].name);
    lemma_first_node(nodes, nodes[i].name, i, 0);
}

proof fn lemma_first_node(nodes: Seq<NamedNodeModel>, name: Text, i: int, from: int)
    requires
        0 <= from <= i < nodes.len(),
        nodes[i].name == name,
        forall|j: int| from <= j < i ==> (#[trigger] nodes[j]).name != name,
    ensures
        node_index(nodes, name, from) == Some(i),
    decreases i - from,
{
    if from < i {
        lemma_first_node(nodes, name, i, from + 1);
    }
}

impl FlowModel {
    /// What holds of every flow: its nodes come in the order of their names, each name once.
    pub open spec fn in_order(self) -> bool {
        increasing(self.nodes)
    }

    /// The node that has a name.
    pub open spec fn node(self, name: Text) -> NodeModel {
        self.nodes[node_index(self.nodes, name, 0)->0].node
    }

    /// Whether some node has a name.
    pub open spec fn has(self, name: Text) -> bool {
        node_index(self.nodes, name, 0) is Some
    }

    /// What is wrong with a node, if anything is.
    pub open spec fn node_flaw(self, i: int, now: Nanos) -> Option<ErrorModel> {
        let name = self.nodes[i].name;
        let node = self.nodes[i].node;
        if text::blank(name) || node.timeout_ms == 0 || !reachable(now, node.timeout_ms) {
            Some(ErrorModel::Invalid("invalid node or timeout: "@ + name))
        } else if node.recognition.flaw() is Some {
            node.recognition.flaw()
        } else if unknown_target(self.nodes, node.next, 0) is Some {
            Some(unknown(unknown_target(self.nodes, node.next, 0)->0, name))
        } else if unknown_target(self.nodes, node.on_error, 0) is Some {
            Some(unknown(unknown_target(self.nodes, node.on_error, 0)->0, name))
        } else if unknown_target(self.nodes, node.on_interrupted, 0) is Some {
            Some(unknown(unknown_target(self.nodes, node.on_interrupted, 0)->0, name))
        } else {
            actions_flaw(node.actions, name, node.timeout_ms, 0)
        }
    }

    /// What is wrong with the first node, from an index on, with which something is wrong.
    pub open spec fn nodes_flaw(self, i: int, now: Nanos) -> Option<ErrorModel>
        decreases self.nodes.len() - i,
    {
        if i < 0 || i >= self.nodes.len() {
            None
        } else {
            match self.node_flaw(i, now) {
                Some(error) => Some(error),
                None => self.nodes_flaw(i + 1, now),
            }
        }
    }

    /// What is wrong with a flow, if anything is.
    pub open spec fn flaw(self, now: Nanos) -> Option<ErrorModel> {
        if !self.has(self.entry) || self.poll_interval_ms == 0 || self.max_operations == 0 {
            Some(ErrorModel::Invalid("entry and positive budgets required"@))
        } else {
            self.nodes_flaw(0, now)
        }
    }

    /// Every name that the flow speaks of has a node.
    pub open spec fn linked(self) -> bool {
        &&& self.has(self.entry)
        &&& forall|i: int, j: int|
            0 <= i < self.nodes.len() && 0 <= j < self.nodes[i].node.next.len() ==> self.has(
                #[trigger] self.nodes[i].node.next[j],
            )
        &&& forall|i: int, j: int|
            0 <= i < self.nodes.len() && 0 <= j < self.nodes[i].node.on_error.len() ==> self.has(
                #[trigger] self.nodes[i].node.on_error[j],
            )
        &&& forall|i: int, j: int|
            0 <= i < self.nodes.len() && 0 <= j < self.nodes[i].node.on_interrupted.len()
                ==> self.has(#[trigger] self.nodes[i].node.on_interrupted[j])
    }

    /// The first node, from an index on, that the host cannot serve.
    pub open spec fn unsupported(
        self,
        recognizers: RecognizersModel,
        custom: Seq<Text>,
        i: int,
    ) -> Option<ErrorModel>
        decreases self.nodes.len() - i,
    {
        if i < 0 || i >= self.nodes.len() {
            None
        } else if !serves(self.nodes[i].node, recognizers, custom) {
            Some(ErrorModel::Unsupported("unregistered capability in "@ + self.nodes[i].name))
        } else {
            self.unsupported(recognizers, custom, i + 1)
        }
    }
}

/// Whether the host can serve a node.
pub open spec fn serves(node: NodeModel, recognizers: RecognizersModel, custom: Seq<Text>) -> bool {
    recognizers.supports(node.recognition) && forall|j: int|
        0 <= j < node.actions.len() ==> performable(#[trigger] node.actions[j], custom)
}

proof fn lemma_nodes(flow: FlowModel, i: int, now: Nanos)
    requires
        0 <= i,
        flow.nodes_flaw(i, now) is None,
    ensures
        forall|j: int| i <= j < flow.nodes.len() ==> #[trigger] flow.node_flaw(j, now) is None,
    decreases flow.nodes.len() - i,
{
    if i < flow.nodes.len() {
        lemma_nodes(flow, i + 1, now);
    }
}

/// In a flow with which nothing is wrong every name leads to a node, whose recognition and
/// actions are in order.
pub proof fn flawless_flows_are_linked(flow: FlowModel, now: Nanos)
    requires
        flow.flaw(now) is None,
    ensures
        flow.linked(),
        forall|i: int|
            0 <= i < flow.nodes.len() ==> (#[trigger] flow.nodes[i]).node.timeout_ms > 0
                && flow.nodes[i].node.recognition.flaw() is None && actions_flaw(
                flow.nodes[i].node.actions,
                flow.nodes[i].name,
                flow.nodes[i].node.timeout_ms,
                0,
            ) is None,
{
    lemma_nodes(flow, 0, now);
    assert forall|i: int, j: int|
        0 <= i < flow.nodes.len() && 0 <= j < flow.nodes[i].node.next.len() implies flow.has(
        #[trigger] flow.nodes[i].node.next[j],
    ) by {
        assert(flow.node_flaw(i, now) is None);
        lemma_known_targets(flow.nodes, flow.nodes[i].node.next, 0);
    }
    assert forall|i: int, j: int|
        0 <= i < flow.nodes.len() && 0 <= j < flow.nodes[i].node.on_error.len() implies flow.has(
        #[trigger] flow.nodes[i].node.on_error[j],
    ) by {
        assert(flow.node_flaw(i, now) is None);
        lemma_known_targets(flow.nodes, flow.nodes[i].node.on_error, 0);
    }
    assert forall|i: int, j: int|
        0 <= i < flow.nodes.len() && 0 <= j
            < flow.nodes[i].node.on_interrupted.len() implies flow.has(
        #[trigger] flow.nodes[i].node.on_interrupted[j],
    ) by {
        assert(flow.node_flaw(i, now) is None);
        lemma_known_targets(flow.nodes, flow.nodes[i].node.on_interrupted, 0);
    }
    assert forall|i: int| 0 <= i < flow.nodes.len() implies (#[trigger] flow.nodes[i]).node.timeout_ms
        > 0 && flow.nodes[i].node.recognition.flaw() is None && actions_flaw(
        flow.nodes[i].node.actions,
        flow.nodes[i].name,
        flow.nodes[i].node.timeout_ms,
        0,
    ) is None by {
        assert(flow.node_flaw(i, now) is None);
    }
}

fn check_actions(actions: &Vec<Action>, name: &str, timeout_ms: u64) -> (r: Result<(), Error>)
    ensures
        match r {
            Ok(()) => actions_flaw(actions.deep_view(), name@, timeout_ms, 0) is None,
            Err(error) => actions_flaw(actions.deep_view(), name@, timeout_ms, 0) == Some(error@),
        },
{
    let ghost all = actions.deep_view();
    let mut i: usize = 0;
    while i < actions.len()
        invariant
            i <= actions@.len(),
            all == actions.deep_view(),
            actions_flaw(all, name@, timeout_ms, 0) == actions_flaw(
                all,
                name@,
                timeout_ms,
                i as int,
            ),
        decreases actions@.len() - i,
    {
        assert(all[i as int] == actions@[i as int]@);
        let duration: u64 = match &actions[i] {
            Action::KeyDown { key } | Action::KeyUp { key } => {
                if text::is_blank(key.as_str()) {
                    return Err(Error::Invalid("empty key".to_owned()));
                }
                0
            },
            Action::Custom { name, .. } => {
                if text::is_blank(name.as_str()) {
                    return Err(Error::Invalid("empty custom action".to_owned()));
                }
                0
            },
            Action::Wait { duration_ms } => *duration_ms,
            Action::LongPress { duration_ms, .. } => *duration_ms,
            Action::Swipe { duration_ms, .. } => *duration_ms,
            Action::Click { .. } => 0,
        };
        if duration > timeout_ms {
            return Err(
                Error::Invalid(text::cat2("action duration exceeds node timeout: ", name)),
            );
        }
        i += 1;
    }
    Ok(())
}

/// A node that is put among others at its place is found under its name, and every other under
/// its own as before.
proof fn lemma_put(
    nodes: Seq<NamedNodeModel>,
    new: NamedNodeModel,
    at: int,
    after: Seq<NamedNodeModel>,
)
    requires
        increasing(nodes),
        0 <= at <= nodes.len(),
        forall|i: int| 0 <= i < at ==> text::before((#[trigger] nodes[i]).name, new.name),
        ({
            ||| at < nodes.len() && nodes[at].name == new.name && after == nodes.update(at, new)
            ||| (at < nodes.len() ==> text::before(new.name, nodes[at].name)) && after
                == nodes.insert(at, new)
        }),
    ensures
        increasing(after),
        node_index(after, new.name, 0) == Some(at),
        after[at] == new,
        forall|name: Text| #![trigger node_index(after, name, 0)]
            name != new.name ==> match node_index(nodes, name, 0) {
                Some(i) => node_index(after, name, 0) matches Some(j) && after[j] == nodes[i],
                None => node_index(after, name, 0) is None,
            },
{
    let replaced = after.len() == nodes.len();
    assert(increasing(after)) by {
        assert forall|i: int, j: int| 0 <= i < j < after.len() implies text::before(
            (#[trigger] after[i]).name,
            (#[trigger] after[j]).name,
        ) by {
            let a = if replaced || i < at { i } else { i - 1 };
            let b = if replaced || j < at { j } else { j - 1 };
            if i == at && !replaced && j > at + 1 {
                assert(text::before(nodes[at].name, nodes[b].name));
                text::before_is_transitive(new.name, nodes[at].name, nodes[b].name);
            } else if i != at && j != at {
                assert(after[i] == nodes[a] && after[j] == nodes[b]);
            } else if j == at {
                assert(after[i] == nodes[i]);
            } else if replaced {
                assert(text::before(nodes[i].name, nodes[j].name));
            } else {
                assert(after[j] == nodes[at]);
            }
        }
    }
    nodes_are_found_by_their_names(after, at);
    assert forall|name: Text| #![trigger node_index(after, name, 0)]
        name != new.name implies match node_index(nodes, name, 0) {
        Some(i) => node_index(after, name, 0) matches Some(j) && after[j] == nodes[i],
        None => node_index(after, name, 0) is None,
    } by {
        found_nodes_have_their_names(nodes, name, 0);
        found_nodes_have_their_names(after, name, 0);
        if let Some(i) = node_index(nodes, name, 0) {
            let j = if replaced || i < at { i } else { i + 1 };
            assert(after[j] == nodes[i]);
            nodes_are_found_by_their_names(after, j);
        } else if let Some(j) = node_index(after, name, 0) {
            let i = if replaced || j < at { j } else { j - 1 };
            assert(after[j] == nodes[i]);
            nodes_are_found_by_their_names(nodes, i);
        }
    }
}

impl Flow {
    /// A flow without nodes.
    pub fn new(entry: &str, poll_interval_ms: u64, max_operations: u64) -> (r: Flow)
        ensures
            r@ == (FlowModel {
                entry: entry@,
                nodes: Seq::empty(),
                poll_interval_ms,
                max_operations,
            }),
            r@.in_order(),
    {
        let r = Flow {
            entry: entry.to_owned(),
            nodes: Vec::new(),
            poll_interval_ms,
            max_operations,
        };
        assert(r.nodes.deep_view() =~= Seq::empty());
        r
    }

    /// Puts a node under a name, in place of the one that had it.
    pub fn insert(&mut self, name: String, node: Node)
        requires
            old(self)@.in_order(),
        ensures
            final(self)@.in_order(),
            final(self)@.has(name@),
            final(self)@.node(name@) == node@,
            forall|other: Text| #![trigger final(self)@.has(other)]
                other != name@ ==> final(self)@.has(other) == old(self)@.has(other),
            forall|other: Text| #![trigger final(self)@.node(other)]
                other != name@ && old(self)@.has(other) ==> final(self)@.node(other) == old(
                    self,
                )@.node(other),
            final(self)@.entry == old(self)@.entry,
            final(self)@.poll_interval_ms == old(self)@.poll_interval_ms,
            final(self)@.max_operations == old(self)@.max_operations,
    {
        let ghost nodes = self@.nodes;
        let new = NamedNode { name, node };
        let mut at: usize = 0;
        while at < self.nodes.len() && text::is_before(
            self.nodes[at].name.as_str(),
            new.name.as_str(),
        )
            invariant
                at <= self.nodes@.len(),
                nodes == self@.nodes,
                forall|i: int| 0 <= i < at ==> text::before((#[trigger] nodes[i]).name, new.name@),
            decreases self.nodes@.len() - at,
        {
            assert(nodes[at as int] == self.nodes@[at as int]@);
            at += 1;
        }
        let ghost placed = new@;
        if at < self.nodes.len() && text::same(self.nodes[at].name.as_str(), new.name.as_str()) {
            assert(nodes[at as int] == self.nodes@[at as int]@);
            self.nodes.set(at, new);
            assert(self@.nodes =~= nodes.update(at as int, placed));
        } else {
            if at < self.nodes.len() {
                assert(nodes[at as int] == self.nodes@[at as int]@);
                proof {
                    text::before_is_total(nodes[at as int].name, placed.name);
                }
            }
            self.nodes.insert(at, new);
            assert(self@.nodes =~= nodes.insert(at as int, placed));
        }
        proof {
            lemma_put(nodes, placed, at as int, self@.nodes);
            assert(self@.has(placed.name));
        }
    }

    /// The index of the node that has a name.
    pub fn find(&self, name: &str) -> (r: Option<usize>)
        ensures
            match r {
                Some(i) => node_index(self@.nodes, name@, 0) == Some(i as int) && i
                    < self.nodes@.len() && self@.nodes[i as int] == self.nodes@[i as int]@
                    && self@.node(name@) == self.nodes@[i as int].node@,
                None => node_index(self@.nodes, name@, 0) is None,
            },
    {
        let ghost nodes = self@.nodes;
        let mut i: usize = 0;
        while i < self.nodes.len()
            invariant
                i <= self.nodes@.len(),
                nodes == self@.nodes,
                node_index(nodes, name@, 0) == node_index(nodes, name@, i as int),
            decreases self.nodes@.len() - i,
        {
            assert(nodes[i as int] == self.nodes@[i as int]@);
            if text::same(self.nodes[i].name.as_str(), name) {
                return Some(i);
            }
            i += 1;
        }
        None
    }

    fn check_targets(&self, targets: &Vec<String>, name: &str) -> (r: Result<(), Error>)
        ensures
            match r {
                Ok(()) => unknown_target(self@.nodes, targets.deep_view(), 0) is None,
                Err(error) => unknown_target(self@.nodes, targets.deep_view(), 0) is Some && error@
                    == unknown(unknown_target(self@.nodes, targets.deep_view(), 0)->0, name@),
            },
    {
        let ghost nodes = self@.nodes;
        let ghost all = targets.deep_view();
        let mut i: usize = 0;
        while i < targets.len()
            invariant
                i <= targets@.len(),
                nodes == self@.nodes,
                all == targets.deep_view(),
                unknown_target(nodes, all, 0) == unknown_target(nodes, all, i as int),
            decreases targets@.len() - i,
        {
            assert(all[i as int] == targets@[i as int]@);
            if self.find(targets[i].as_str()).is_none() {
                let mut message = text::cat3("unknown target ", targets[i].as_str(), " in ");
                message.append(name);
                return Err(Error::Invalid(message));
            }
            i += 1;
        }
        Ok(())
    }

    fn check_node(&self, i: usize, now: Nanos) -> (r: Result<(), Error>)
        requires
            i < self.nodes@.len(),
        ensures
            match r {
                Ok(()) => self@.node_flaw(i as int, now) is None,
                Err(error) => self@.node_flaw(i as int, now) == Some(error@),
            },
    {
        let name = self.nodes[i].name.as_str();
        let node = &self.nodes[i].node;
        assert(self@.nodes[i as int] == self.nodes@[i as int]@);
        if text::is_blank(name) || node.timeout_ms == 0 || !check_reachable(now, node.timeout_ms) {
            return Err(Error::Invalid(text::cat2("invalid node or timeout: ", name)));
        }
        match node.recognition.validate() {
            Ok(()) => {},
            Err(error) => {
                return Err(error);
            },
        }
        match self.check_targets(&node.next, name) {
            Ok(()) => {},
            Err(error) => {
                return Err(error);
            },
        }
        match self.check_targets(&node.on_error, name) {
            Ok(()) => {},
            Err(error) => {
                return Err(error);
            },
        }
        match self.check_targets(&node.on_interrupted, name) {
            Ok(()) => {},
            Err(error) => {
                return Err(error);
            },
        }
        check_actions(&node.actions, name, node.timeout_ms)
    }

    /// Accepts a flow with which nothing is wrong.
    pub fn validate(&self, now: Nanos) -> (r: Result<(), Error>)
        requires
            self@.in_order(),
        ensures
            match r {
                Ok(()) => self@.flaw(now) is None,
                Err(error) => self@.flaw(now) == Some(error@),
            },
    {
        if self.find(self.entry.as_str()).is_none() || self.poll_interval_ms == 0
            || self.max_operations == 0 {
            return Err(Error::Invalid("entry and positive budgets required".to_owned()));
        }
        let mut i: usize = 0;
        while i < self.nodes.len()
            invariant
                i <= self.nodes@.len(),
                self@.has(self@.entry) && self@.poll_interval_ms != 0 && self@.max_operations != 0,
                self@.nodes_flaw(0, now) == self@.nodes_flaw(i as int, now),
            decreases self.nodes@.len() - i,
        {
            match self.check_node(i, now) {
                Ok(()) => {},
                Err(error) => {
                    return Err(error);
                },
            }
            i += 1;
        }
        Ok(())
    }

    /// Accepts a flow that the host can serve.
    pub fn check_capabilities(&self, recognizers: &Recognizers, actions: &Actions) -> (r: Result<
        (),
        Error,
    >)
        requires
            self@.in_order(),
        ensures
            match r {
                Ok(()) => self@.unsupported(recognizers@, actions@, 0) is None,
                Err(error) => self@.unsupported(recognizers@, actions@, 0) == Some(error@),
            },
    {
        let ghost flow = self@;
        let mut i: usize = 0;
        while i < self.nodes.len()
            invariant
                i <= self.nodes@.len(),
                flow == self@,
                flow.unsupported(recognizers@, actions@, 0) == flow.unsupported(
                    recognizers@,
                    actions@,
                    i as int,
                ),
            decreases self.nodes@.len() - i,
        {
            let node = &self.nodes[i].node;
            assert(flow.nodes[i as int] == self.nodes@[i as int]@);
            let ghost all = node@.actions;
            let mut served = recognizers.supports(&node.recognition);
            let mut j: usize = 0;
            while j < node.actions.len()
                invariant
                    j <= node.actions@.len(),
                    all == node.actions.deep_view(),
                    served == (recognizers@.supports(node.recognition@) && forall|k: int|
                        0 <= k < j ==> performable(#[trigger] all[k], actions@)),
                decreases node.actions@.len() - j,
            {
                assert(all[j as int] == node.actions@[j as int]@);
                served = served && actions.supports(&node.actions[j]);
                j += 1;
            }
            assert(served == serves(node@, recognizers@, actions@));
            if !served {
                return Err(
                    Error::Unsupported(
                        text::cat2("unregistered capability in ", self.nodes[i].name.as_str()),
                    ),
                );
            }
            i += 1;
        }
        Ok(())
    }
}

/// Whether some node has a name.
pub open spec fn named(nodes: Seq<NamedNodeModel>, name: Text) -> bool {
    exists|k: int| 0 <= k < nodes.len() && (#[trigger] nodes[k]).name == name
}

proof fn lemma_named(nodes: Seq<NamedNodeModel>, name: Text, i: int)
    requires
        0 <= i,
    ensures
        node_index(nodes, name, i) is Some <==> exists|k: int|
            i <= k < nodes.len() && (#[trigger] nodes[k]).name == name,
    decreases nodes.len() - i,
{
    if i < nodes.len() {
        lemma_named(nodes, name, i + 1);
    }
}

proof fn lemma_targets_named(nodes: Seq<NamedNodeModel>, targets: Seq<Text>, i: int)
    requires
        0 <= i,
    ensures
        unknown_target(nodes, targets, i) is None <==> forall|k: int|
            i <= k < targets.len() ==> named(nodes, #[trigger] targets[k]),
    decreases targets.len() - i,
{
    if i < targets.len() {
        lemma_targets_named(nodes, targets, i + 1);
        lemma_named(nodes, targets[i], 0);
        if unknown_target(nodes, targets, i) is None {
            assert forall|k: int| i <= k < targets.len() implies named(
                nodes,
                #[trigger] targets[k],
            ) by {
                if k > i {
                    assert(i + 1 <= k);
                }
            }
        }
    }
}

/// Whether an action can be part of a node: keys and handlers have names, and nothing takes longer
/// than the node may.
pub open spec fn possible(action: ActionModel, timeout_ms: u64) -> bool {
    match action {
        ActionModel::KeyDown { key } => exists|i: int|
            0 <= i < key.len() && !text::white(#[trigger] key[i]),
        ActionModel::KeyUp { key } => exists|i: int|
            0 <= i < key.len() && !text::white(#[trigger] key[i]),
        ActionModel::Custom { name, .. } => exists|i: int|
            0 <= i < name.len() && !text::white(#[trigger] name[i]),
        ActionModel::Wait { duration_ms } => duration_ms <= timeout_ms,
        ActionModel::LongPress { duration_ms, .. } => duration_ms <= timeout_ms,
        ActionModel::Swipe { duration_ms, .. } => duration_ms <= timeout_ms,
        ActionModel::Click { .. } => true,
    }
}

proof fn lemma_actions_possible(
    actions: Seq<ActionModel>,
    name: Text,
    timeout_ms: u64,
    i: int,
)
    requires
        0 <= i,
    ensures
        actions_flaw(actions, name, timeout_ms, i) is None <==> forall|k: int|
            i <= k < actions.len() ==> possible(#[trigger] actions[k], timeout_ms),
    decreases actions.len() - i,
{
    if i < actions.len() {
        lemma_actions_possible(actions, name, timeout_ms, i + 1);
        assert(action_flaw(actions[i], name, timeout_ms) is None <==> possible(
            actions[i],
            timeout_ms,
        ));
        if actions_flaw(actions, name, timeout_ms, i) is None {
            assert forall|k: int| i <= k < actions.len() implies possible(
                #[trigger] actions[k],
                timeout_ms,
            ) by {
                if k > i {
                    assert(i + 1 <= k);
                }
            }
        }
    }
}

/// Whether a node can be part of a flow: it has a name, a time that the clock reaches, a
/// recognition and actions that are in order, and nothing but nodes of the flow behind it.
pub open spec fn sound_node(nodes: Seq<NamedNodeModel>, named: NamedNodeModel, now: Nanos) -> bool {
    let node = named.node;
    &&& exists|i: int| 0 <= i < named.name.len() && !text::white(#[trigger] named.name[i])
    &&& node.timeout_ms > 0
    &&& now + node.timeout_ms * 1_000_000 <= CLOCK_END
    &&& node.recognition.flaw() is None
    &&& forall|k: int| 0 <= k < node.next.len() ==> self::named(nodes, #[trigger] node.next[k])
    &&& forall|k: int|
        0 <= k < node.on_error.len() ==> self::named(nodes, #[trigger] node.on_error[k])
    &&& forall|k: int|
        0 <= k < node.on_interrupted.len() ==> self::named(
            nodes,
            #[trigger] node.on_interrupted[k],
        )
    &&& forall|k: int|
        0 <= k < node.actions.len() ==> possible(#[trigger] node.actions[k], node.timeout_ms)
}

proof fn lemma_nodes_sound(flow: FlowModel, i: int, now: Nanos)
    requires
        0 <= i,
    ensures
        flow.nodes_flaw(i, now) is None <==> forall|k: int|
            i <= k < flow.nodes.len() ==> sound_node(flow.nodes, #[trigger] flow.nodes[k], now),
    decreases flow.nodes.len() - i,
{
    if i < flow.nodes.len() {
        let node = flow.nodes[i].node;
        lemma_nodes_sound(flow, i + 1, now);
        lemma_targets_named(flow.nodes, node.next, 0);
        lemma_targets_named(flow.nodes, node.on_error, 0);
        lemma_targets_named(flow.nodes, node.on_interrupted, 0);
        lemma_actions_possible(node.actions, flow.nodes[i].name, node.timeout_ms, 0);
        assert(flow.node_flaw(i, now) is None <==> sound_node(flow.nodes, flow.nodes[i], now));
        if flow.nodes_flaw(i, now) is None {
            assert forall|k: int| i <= k < flow.nodes.len() implies sound_node(
                flow.nodes,
                #[trigger] flow.nodes[k],
                now,
            ) by {
                if k > i {
                    assert(i + 1 <= k);
                }
            }
        }
    }
}

/// A flow is accepted exactly if it has its entry, looks again after some time and may do
/// something, and every node is in order.
pub proof fn sound_flows_are_accepted(flow: FlowModel, now: Nanos)
    ensures
        flow.flaw(now) is None <==> {
            &&& named(flow.nodes, flow.entry)
            &&& flow.poll_interval_ms > 0
            &&& flow.max_operations > 0
            &&& forall|k: int|
                0 <= k < flow.nodes.len() ==> sound_node(flow.nodes, #[trigger] flow.nodes[k], now)
        },
{
    lemma_named(flow.nodes, flow.entry, 0);
    lemma_nodes_sound(flow, 0, now);
}

/// A flow can be served exactly if the backends of all recognitions and the handlers of all
/// custom actions are there.
pub proof fn flows_need_their_capabilities(
    flow: FlowModel,
    recognizers: RecognizersModel,
    custom: Seq<Text>,
    i: int,
)
    requires
        0 <= i,
    ensures
        flow.unsupported(recognizers, custom, i) is None <==> forall|k: int|
            i <= k < flow.nodes.len() ==> {
                &&& recognizers.supports((#[trigger] flow.nodes[k]).node.recognition)
                &&& forall|a: int|
                    0 <= a < flow.nodes[k].node.actions.len() ==> (
                    #[trigger] flow.nodes[k].node.actions[a] matches ActionModel::Custom {
                        name,
                        ..
                    } ==> custom.contains(name))
            },
    decreases flow.nodes.len() - i,
{
    if i < flow.nodes.len() {
        flows_need_their_capabilities(flow, recognizers, custom, i + 1);
        let node = flow.nodes[i].node;
        assert(serves(node, recognizers, custom) <==> {
            &&& recognizers.supports(node.recognition)
            &&& forall|a: int|
                0 <= a < node.actions.len() ==> (#[trigger] node.actions[a]
                    matches ActionModel::Custom { name, .. } ==> custom.contains(name))
        }) by {
            if serves(node, recognizers, custom) {
                assert forall|a: int| 0 <= a < node.actions.len() implies (
                #[trigger] node.actions[a] matches ActionModel::Custom { name, .. }
                    ==> custom.contains(name)) by {
                    assert(performable(node.actions[a], custom));
                }
            }
        }
        if flow.unsupported(recognizers, custom, i) is None {
            assert forall|k: int| i <= k < flow.nodes.len() implies {
                &&& recognizers.supports((#[trigger] flow.nodes[k]).node.recognition)
                &&& forall|a: int|
                    0 <= a < flow.nodes[k].node.actions.len() ==> (
                    #[trigger] flow.nodes[k].node.actions[a] matches ActionModel::Custom {
                        name,
                        ..
                    } ==> custom.contains(name))
            } by {
                if k > i {
                    assert(i + 1 <= k);
                }
            }
        }
    }
}

} // verus!
