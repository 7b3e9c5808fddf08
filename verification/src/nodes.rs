use vstd::prelude::*;
use crate::message::NodeId;

verus! {

/// The part of a node's state that an update message replaces.
#[derive(PartialEq, Eq, Structural, Clone, Copy)]
pub enum NodeField {
    Positions,
    Balance,
    OpenOrders,
    Liquidations,
}

/// What the server knows of a node: whether it is connected, and the last
/// data it reported of each kind, as the text it was sent in.
pub struct NodeRecord<S> {
    pub active: bool,
    pub positions: Option<S>,
    pub balance: Option<S>,
    pub open_orders: Option<S>,
    pub liquidations: Option<S>,
}

/// A report from a node that replaces one part of its state.
pub struct NodeUpdate<S> {
    pub node: NodeId<S>,
    pub field: NodeField,
    pub data: S,
}

pub type IdView = NodeId<Seq<char>>;

pub type RecordView = NodeRecord<Seq<char>>;

pub open spec fn opt_view(o: Option<String>) -> Option<Seq<char>> {
    match o {
        Some(s) => Some(s@),
        None => None,
    }
}

impl View for NodeRecord<String> {
    type V = RecordView;

    open spec fn view(&self) -> RecordView {
        NodeRecord {
            active: self.active,
            positions: opt_view(self.positions),
            balance: opt_view(self.balance),
            open_orders: opt_view(self.open_orders),
            liquidations: opt_view(self.liquidations),
        }
    }
}

impl View for NodeUpdate<String> {
    type V = NodeUpdate<Seq<char>>;

    open spec fn view(&self) -> NodeUpdate<Seq<char>> {
        NodeUpdate { node: self.node@, field: self.field, data: self.data@ }
    }
}

/// The record of a node that has just connected for the first time.
pub open spec fn fresh_record() -> RecordView {
    NodeRecord { active: true, positions: None, balance: None, open_orders: None, liquidations: None }
}

/// `r` with its activity flag set to `active`.
pub open spec fn with_active(r: RecordView, active: bool) -> RecordView {
    NodeRecord { active, ..r }
}

/// `r` with the part `field` replaced by `data`.
pub open spec fn with_field(r: RecordView, field: NodeField, data: Seq<char>) -> RecordView {
    match field {
        NodeField::Positions => NodeRecord { positions: Some(data), ..r },
        NodeField::Balance => NodeRecord { balance: Some(data), ..r },
        NodeField::OpenOrders => NodeRecord { open_orders: Some(data), ..r },
        NodeField::Liquidations => NodeRecord { liquidations: Some(data), ..r },
    }
}

/// The registry after `id` connects.
pub open spec fn connected(m: Map<IdView, RecordView>, id: IdView) -> Map<IdView, RecordView> {
    m.insert(id, if m.dom().contains(id) { with_active(m[id], true) } else { fresh_record() })
}

/// The registry after `id` disconnects.
pub open spec fn disconnected(m: Map<IdView, RecordView>, id: IdView) -> Map<IdView, RecordView> {
    if m.dom().contains(id) {
        m.insert(id, with_active(m[id], false))
    } else {
        m
    }
}

/// The registry after the report `u` is taken in.
pub open spec fn updated(m: Map<IdView, RecordView>, u: NodeUpdate<Seq<char>>) -> Map<IdView, RecordView> {
    if m.dom().contains(u.node) {
        m.insert(u.node, with_field(m[u.node], u.field, u.data))
    } else {
        m
    }
}

pub open spec fn entries_view(v: Seq<(NodeId<String>, NodeRecord<String>)>) -> Seq<(IdView, RecordView)> {
    v.map_values(|e: (NodeId<String>, NodeRecord<String>)| (e.0@, e.1@))
}

pub open spec fn ids_unique(s: Seq<(IdView, RecordView)>) -> bool {
    forall|i: int, j: int| 0 <= i < s.len() && 0 <= j < s.len() && i != j ==> #[trigger] s[i].0 != #[trigger] s[j].0
}

pub open spec fn has_id(s: Seq<(IdView, RecordView)>, id: IdView) -> bool {
    exists|i: int| 0 <= i < s.len() && #[trigger] s[i].0 == id
}

pub open spec fn entries_map(s: Seq<(IdView, RecordView)>) -> Map<IdView, RecordView> {
    Map::new(
        |k: IdView| has_id(s, k),
        |k: IdView| s[choose|i: int| 0 <= i < s.len() && #[trigger] s[i].0 == k].1,
    )
}

proof fn lemma_entry_at(s: Seq<(IdView, RecordView)>, i: int)
    requires
        ids_unique(s),
        0 <= i < s.len(),
    ensures
        entries_map(s).dom().contains(s[i].0),
        entries_map(s)[s[i].0] == s[i].1,
{
    assert(has_id(s, s[i].0));
    let j = choose|j: int| 0 <= j < s.len() && #[trigger] s[j].0 == s[i].0;
    assert(i == j);
}

proof fn lemma_update_entry(s: Seq<(IdView, RecordView)>, i: int, r: RecordView)
    requires
        ids_unique(s),
        0 <= i < s.len(),
    ensures
        ids_unique(s.update(i, (s[i].0, r))),
        entries_map(s.update(i, (s[i].0, r))) == entries_map(s).insert(s[i].0, r),
{
    let t = s.update(i, (s[i].0, r));
    assert forall|a: int, b: int| 0 <= a < t.len() && 0 <= b < t.len() && a != b implies #[trigger] t[a].0 != #[trigger] t[b].0 by {
        assert(t[a].0 == s[a].0 && t[b].0 == s[b].0);
    }
    let m = entries_map(s).insert(s[i].0, r);
    assert forall|k: IdView| #[trigger] entries_map(t).dom().contains(k) <==> m.dom().contains(k) by {
        if entries_map(t).dom().contains(k) {
            let a = choose|a: int| 0 <= a < t.len() && #[trigger] t[a].0 == k;
            assert(s[a].0 == k);
            assert(has_id(s, k));
        }
        if m.dom().contains(k) && k != s[i].0 {
            let a = choose|a: int| 0 <= a < s.len() && #[trigger] s[a].0 == k;
            assert(t[a].0 == k);
        }
        if k == s[i].0 {
            assert(t[i].0 == k);
        }
    }
    assert forall|k: IdView| #[trigger] entries_map(t).dom().contains(k) implies entries_map(t)[k] == m[k] by {
        let a = choose|a: int| 0 <= a < t.len() && #[trigger] t[a].0 == k;
        lemma_entry_at(t, a);
        lemma_entry_at(s, a);
    }
    assert(entries_map(t) =~= m);
}

proof fn lemma_push_entry(s: Seq<(IdView, RecordView)>, k: IdView, r: RecordView)
    requires
        ids_unique(s),
        !has_id(s, k),
    ensures
        ids_unique(s.push((k, r))),
        entries_map(s.push((k, r))) == entries_map(s).insert(k, r),
{
    let t = s.push((k, r));
    assert forall|a: int, b: int| 0 <= a < t.len() && 0 <= b < t.len() && a != b implies #[trigger] t[a].0 != #[trigger] t[b].0 by {
        if a < s.len() && b < s.len() {
            assert(t[a].0 == s[a].0 && t[b].0 == s[b].0);
        } else if a < s.len() {
            assert(t[a].0 == s[a].0);
        } else {
            assert(t[b].0 == s[b].0);
        }
    }
    let m = entries_map(s).insert(k, r);
    assert forall|q: IdView| #[trigger] entries_map(t).dom().contains(q) <==> m.dom().contains(q) by {
        if entries_map(t).dom().contains(q) {
            let a = choose|a: int| 0 <= a < t.len() && #[trigger] t[a].0 == q;
            if a < s.len() {
                assert(s[a].0 == q);
                assert(has_id(s, q));
            }
        }
        if m.dom().contains(q) && q != k {
            let a = choose|a: int| 0 <= a < s.len() && #[trigger] s[a].0 == q;
            assert(t[a].0 == q);
        }
        if q == k {
            assert(t[s.len() as int].0 == q);
        }
    }
    assert forall|q: IdView| #[trigger] entries_map(t).dom().contains(q) implies entries_map(t)[q] == m[q] by {
        let a = choose|a: int| 0 <= a < t.len() && #[trigger] t[a].0 == q;
        lemma_entry_at(t, a);
        if a < s.len() {
            lemma_entry_at(s, a);
        }
    }
    assert(entries_map(t) =~= m);
}

fn copy_opt(o: &Option<String>) -> (c: Option<String>)
    ensures
        opt_view(c) == opt_view(*o),
{
    match o {
        Some(s) => Some(s.clone()),
        None => None,
    }
}

impl NodeRecord<String> {
    /// A copy of this record.
    pub fn duplicate(&self) -> (c: NodeRecord<String>)
        ensures
            c@ == self@,
    {
        NodeRecord {
            active: self.active,
            positions: copy_opt(&self.positions),
            balance: copy_opt(&self.balance),
            open_orders: copy_opt(&self.open_orders),
            liquidations: copy_opt(&self.liquidations),
        }
    }
}

/// The nodes known to the server, one record per node.
pub struct NodeRegistry {
    entries: Vec<(NodeId<String>, NodeRecord<String>)>,
}

impl View for NodeRegistry {
    type V = Map<IdView, RecordView>;

    closed spec fn view(&self) -> Map<IdView, RecordView> {
        entries_map(entries_view(self.entries@))
    }
}

impl NodeRegistry {
    #[verifier::type_invariant]
    spec fn unique(self) -> bool {
        ids_unique(entries_view(self.entries@))
    }

    /// A registry that knows no node.
    pub fn new() -> (r: NodeRegistry)
        ensures
            r@ == Map::<IdView, RecordView>::empty(),
    {
        let r = NodeRegistry { entries: Vec::new() };
        assert(r@ =~= Map::<IdView, RecordView>::empty());
        r
    }

    fn find(&self, id: &NodeId<String>) -> (r: Option<usize>)
        ensures
            match r {
                Some(i) => i < self.entries@.len() && entries_view(self.entries@)[i as int].0 == id@,
                None => !has_id(entries_view(self.entries@), id@),
            },
    {
        let ghost s = entries_view(self.entries@);
        let n = self.entries.len();
        let mut i: usize = 0;
        while i < n
            invariant
                n == self.entries@.len(),
                s == entries_view(self.entries@),
                0 <= i <= n,
                forall|j: int| 0 <= j < i ==> #[trigger] s[j].0 != id@,
            decreases n - i,
        {
            if self.entries[i].0.same(id) {
                return Some(i);
            }
            i = i + 1;
        }
        None
    }

    /// The record of a node, if it is known.
    pub fn record(&self, id: &NodeId<String>) -> (r: Option<NodeRecord<String>>)
        ensures
            match r {
                Some(rec) => self@.dom().contains(id@) && self@[id@] == rec@,
                None => !self@.dom().contains(id@),
            },
    {
        proof { use_type_invariant(self); }
        match self.find(id) {
            Some(i) => {
                proof { lemma_entry_at(entries_view(self.entries@), i as int); }
                Some(self.entries[i].1.duplicate())
            },
            None => None,
        }
    }

    /// Records that a node has connected: a known node becomes active and
    /// keeps its data, an unknown one is added, active and without data.
    pub fn connect(&mut self, id: NodeId<String>)
        ensures
            final(self)@ == connected(old(self)@, id@),
    {
        proof { use_type_invariant(&*self); }
        let ghost s = entries_view(self.entries@);
        match self.find(&id) {
            Some(i) => {
                let mut rec = self.entries[i].1.duplicate();
                rec.active = true;
                let key = self.entries[i].0.duplicate();
                proof {
                    lemma_entry_at(s, i as int);
                    lemma_update_entry(s, i as int, rec@);
                }
                let mut entries: Vec<(NodeId<String>, NodeRecord<String>)> = Vec::new();
                std::mem::swap(&mut entries, &mut self.entries);
                entries.set(i, (key, rec));
                assert(entries_view(entries@) =~= s.update(i as int, (s[i as int].0, with_active(s[i as int].1, true))));
                self.entries = entries;
            },
            None => {
                let rec = NodeRecord { active: true, positions: None, balance: None, open_orders: None, liquidations: None };
                proof { lemma_push_entry(s, id@, rec@); }
                let mut entries: Vec<(NodeId<String>, NodeRecord<String>)> = Vec::new();
                std::mem::swap(&mut entries, &mut self.entries);
                entries.push((id, rec));
                assert(entries_view(entries@) =~= s.push((id@, fresh_record())));
                self.entries = entries;
            },
        }
    }

    /// Records that a node has disconnected: a known node becomes inactive and
    /// keeps its data; nothing changes for an unknown one.
    pub fn set_inactive(&mut self, id: &NodeId<String>)
        ensures
            final(self)@ == disconnected(old(self)@, id@),
    {
        proof { use_type_invariant(&*self); }
        let ghost s = entries_view(self.entries@);
        match self.find(id) {
            Some(i) => {
                let mut rec = self.entries[i].1.duplicate();
                rec.active = false;
                let key = self.entries[i].0.duplicate();
                proof {
                    lemma_entry_at(s, i as int);
                    lemma_update_entry(s, i as int, rec@);
                }
                let mut entries: Vec<(NodeId<String>, NodeRecord<String>)> = Vec::new();
                std::mem::swap(&mut entries, &mut self.entries);
                entries.set(i, (key, rec));
                assert(entries_view(entries@) =~= s.update(i as int, (s[i as int].0, with_active(s[i as int].1, false))));
                self.entries = entries;
            },
            None => {},
        }
    }

    /// Takes in a report from a node: the reported part of a known node's
    /// state is replaced; a report from an unknown node changes nothing.
    pub fn apply_update(&mut self, update: NodeUpdate<String>)
        ensures
            final(self)@ == updated(old(self)@, update@),
    {
        proof { use_type_invariant(&*self); }
        let ghost s = entries_view(self.entries@);
        match self.find(&update.node) {
            Some(i) => {
                let mut rec = self.entries[i].1.duplicate();
                let ghost old_rec = rec@;
                match update.field {
                    NodeField::Positions => { rec.positions = Some(update.data); },
                    NodeField::Balance => { rec.balance = Some(update.data); },
                    NodeField::OpenOrders => { rec.open_orders = Some(update.data); },
                    NodeField::Liquidations => { rec.liquidations = Some(update.data); },
                }
                let key = self.entries[i].0.duplicate();
                proof {
                    lemma_entry_at(s, i as int);
                    assert(rec@ == with_field(old_rec, update.field, update.data@));
                    lemma_update_entry(s, i as int, rec@);
                }
                let mut entries: Vec<(NodeId<String>, NodeRecord<String>)> = Vec::new();
                std::mem::swap(&mut entries, &mut self.entries);
                entries.set(i, (key, rec));
                assert(entries_view(entries@) =~= s.update(i as int, (s[i as int].0, with_field(s[i as int].1, update.field, update.data@))));
                self.entries = entries;
            },
            None => {},
        }
    }
}

/// A node that connects and later disconnects is still known, inactive, and
/// keeps every report it made before; the other nodes are untouched.
pub proof fn lemma_disconnect_keeps_reports(m: Map<IdView, RecordView>, id: IdView)
    ensures
        disconnected(connected(m, id), id).dom().contains(id),
        !disconnected(connected(m, id), id)[id].active,
        m.dom().contains(id) ==> disconnected(connected(m, id), id)[id] == with_active(m[id], false),
        forall|k: IdView| k != id ==> (#[trigger] disconnected(connected(m, id), id).dom().contains(k)
            <==> m.dom().contains(k)),
        forall|k: IdView| k != id && m.dom().contains(k) ==> #[trigger] disconnected(connected(m, id), id)[k] == m[k],
{
}

/// A report replaces only the part it is about, of the node it names; a
/// report from a node that is not known changes nothing.
pub proof fn lemma_update_touches_one_part(m: Map<IdView, RecordView>, u: NodeUpdate<Seq<char>>)
    ensures
        !m.dom().contains(u.node) ==> updated(m, u) == m,
        m.dom().contains(u.node) ==> {
            let r = updated(m, u)[u.node];
            &&& r.active == m[u.node].active
            &&& u.field == NodeField::Positions ==> r.positions == Some(u.data) && r.balance == m[u.node].balance
                && r.open_orders == m[u.node].open_orders && r.liquidations == m[u.node].liquidations
            &&& u.field == NodeField::Balance ==> r.balance == Some(u.data) && r.positions == m[u.node].positions
                && r.open_orders == m[u.node].open_orders && r.liquidations == m[u.node].liquidations
            &&& u.field == NodeField::OpenOrders ==> r.open_orders == Some(u.data) && r.positions == m[u.node].positions
                && r.balance == m[u.node].balance && r.liquidations == m[u.node].liquidations
            &&& u.field == NodeField::Liquidations ==> r.liquidations == Some(u.data) && r.positions == m[u.node].positions
                && r.balance == m[u.node].balance && r.open_orders == m[u.node].open_orders
        },
        updated(m, u).dom() == m.dom(),
{
    if m.dom().contains(u.node) {
        assert(updated(m, u).dom() =~= m.dom());
    }
}


/// What connecting, disconnecting and a report do to the record of a node,
/// for every registry: connecting a known node and disconnecting it set its
/// activity flag and leave every report it made as it was; a node connecting
/// for the first time is active and has reported nothing; a report replaces
/// the part it is about and nothing else; a report or a disconnection of an
/// unknown node changes nothing; other nodes are never touched.
pub proof fn lemma_registry_steps(m: Map<IdView, RecordView>, id: IdView, u: NodeUpdate<Seq<char>>)
    ensures
        m.dom().contains(id) ==> connected(m, id) == m.insert(
            id,
            NodeRecord {
                active: true,
                positions: m[id].positions,
                balance: m[id].balance,
                open_orders: m[id].open_orders,
                liquidations: m[id].liquidations,
            },
        ),
        !m.dom().contains(id) ==> connected(m, id) == m.insert(
            id,
            NodeRecord { active: true, positions: None, balance: None, open_orders: None, liquidations: None },
        ),
        m.dom().contains(id) ==> disconnected(m, id) == m.insert(
            id,
            NodeRecord {
                active: false,
                positions: m[id].positions,
                balance: m[id].balance,
                open_orders: m[id].open_orders,
                liquidations: m[id].liquidations,
            },
        ),
        !m.dom().contains(id) ==> disconnected(m, id) == m,
        !m.dom().contains(u.node) ==> updated(m, u) == m,
        m.dom().contains(u.node) && u.field == NodeField::Positions ==> updated(m, u) == m.insert(
            u.node,
            NodeRecord {
                active: m[u.node].active,
                positions: Some(u.data),
                balance: m[u.node].balance,
                open_orders: m[u.node].open_orders,
                liquidations: m[u.node].liquidations,
            },
        ),
        m.dom().contains(u.node) && u.field == NodeField::Balance ==> updated(m, u) == m.insert(
            u.node,
            NodeRecord {
                active: m[u.node].active,
                positions: m[u.node].positions,
                balance: Some(u.data),
                open_orders: m[u.node].open_orders,
                liquidations: m[u.node].liquidations,
            },
        ),
        m.dom().contains(u.node) && u.field == NodeField::OpenOrders ==> updated(m, u) == m.insert(
            u.node,
            NodeRecord {
                active: m[u.node].active,
                positions: m[u.node].positions,
                balance: m[u.node].balance,
                open_orders: Some(u.data),
                liquidations: m[u.node].liquidations,
            },
        ),
        m.dom().contains(u.node) && u.field == NodeField::Liquidations ==> updated(m, u) == m.insert(
            u.node,
            NodeRecord {
                active: m[u.node].active,
                positions: m[u.node].positions,
                balance: m[u.node].balance,
                open_orders: m[u.node].open_orders,
                liquidations: Some(u.data),
            },
        ),
{
}

} // verus!
