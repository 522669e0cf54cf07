//! The routing table: which backend serves which model.

use vstd::prelude::*;

verus! {

/// Where a backend listens. Backends run on the relay's own host, so the
/// port tells them apart.
#[derive(Debug, Clone, Copy, PartialEq, Eq, Structural)]
pub struct Endpoint {
    pub port: u16,
}

/// The answer to a request for a model that no backend serves.
#[derive(Debug, Clone, Copy, PartialEq, Eq, Structural)]
pub struct ModelNotFound;

/// One line of the table: the model `model_name` is served at `port`.
#[derive(Debug, Clone, PartialEq, Eq)]
pub struct RouteEntry {
    pub model_name: String,
    pub port: u16,
}

/// The table that a list of routes makes up, a model's name and a port each.
/// Where a name occurs twice, the route given later counts.
pub open spec fn table_of(routes: Seq<(Seq<char>, u16)>) -> Map<Seq<char>, u16>
    decreases routes.len(),
{
    if routes.len() == 0 {
        Map::empty()
    } else {
        table_of(routes.drop_last()).insert(routes.last().0, routes.last().1)
    }
}

/// Whether no name occurs twice in a list of routes.
pub open spec fn names_distinct(routes: Seq<(Seq<char>, u16)>) -> bool {
    forall|i: int, j: int|
        0 <= i < j < routes.len() ==> (#[trigger] routes[i]).0 != (#[trigger] routes[j]).0
}

/// A name that no route of the list bears is not in the table.
pub proof fn lemma_table_lacks(routes: Seq<(Seq<char>, u16)>, name: Seq<char>)
    requires
        forall|i: int| 0 <= i < routes.len() ==> (#[trigger] routes[i]).0 != name,
    ensures
        !table_of(routes).contains_key(name),
    decreases routes.len(),
{
    if routes.len() > 0 {
        assert(routes.last() == routes[routes.len() - 1]);
        assert forall|i: int| 0 <= i < routes.drop_last().len() implies (
        #[trigger] routes.drop_last()[i]).0 != name by {
            assert(routes.drop_last()[i] == routes[i]);
        }
        lemma_table_lacks(routes.drop_last(), name);
    }
}

/// Where no name occurs twice, the table holds each route of the list.
pub proof fn lemma_table_holds(routes: Seq<(Seq<char>, u16)>, i: int)
    requires
        names_distinct(routes),
        0 <= i < routes.len(),
    ensures
        table_of(routes).contains_key(routes[i].0),
        table_of(routes)[routes[i].0] == routes[i].1,
    decreases routes.len(),
{
    let front = routes.drop_last();
    if i < routes.len() - 1 {
        assert(names_distinct(front)) by {
            assert forall|a: int, b: int| 0 <= a < b < front.len() implies (#[trigger] front[a]).0
                != (#[trigger] front[b]).0 by {
                assert(front[a] == routes[a] && front[b] == routes[b]);
            }
        }
        lemma_table_holds(front, i);
        assert(front[i] == routes[i]);
        assert(routes[i].0 != routes[routes.len() - 1].0);
    }
}

/// Where no name occurs twice, to give the route at `i` another port is to
/// put its name into the table anew.
pub proof fn lemma_table_replace(routes: Seq<(Seq<char>, u16)>, i: int, port: u16)
    requires
        names_distinct(routes),
        0 <= i < routes.len(),
    ensures
        names_distinct(routes.update(i, (routes[i].0, port))),
        table_of(routes.update(i, (routes[i].0, port))) == table_of(routes).insert(
            routes[i].0,
            port,
        ),
    decreases routes.len(),
{
    let name = routes[i].0;
    let changed = routes.update(i, (name, port));
    assert(names_distinct(changed)) by {
        assert forall|a: int, b: int| 0 <= a < b < changed.len() implies (#[trigger] changed[a]).0
            != (#[trigger] changed[b]).0 by {
            assert(changed[a].0 == routes[a].0 && changed[b].0 == routes[b].0);
        }
    }
    let front = routes.drop_last();
    if i == routes.len() - 1 {
        assert(changed.drop_last() == front);
        assert(table_of(changed) == table_of(routes).insert(name, port));
    } else {
        assert(names_distinct(front)) by {
            assert forall|a: int, b: int| 0 <= a < b < front.len() implies (#[trigger] front[a]).0
                != (#[trigger] front[b]).0 by {
                assert(front[a] == routes[a] && front[b] == routes[b]);
            }
        }
        assert(front[i] == routes[i]);
        lemma_table_replace(front, i, port);
        assert(changed.drop_last() == front.update(i, (name, port)));
        assert(changed.last() == routes.last());
        assert(routes[i].0 != routes[routes.len() - 1].0);
        assert(table_of(changed) == table_of(routes).insert(name, port));
    }
}

/// Where no name occurs twice, the table has as many models as the list has
/// routes.
pub proof fn lemma_table_size(routes: Seq<(Seq<char>, u16)>)
    requires
        names_distinct(routes),
    ensures
        table_of(routes).dom().finite(),
        table_of(routes).dom().len() == routes.len(),
    decreases routes.len(),
{
    if routes.len() > 0 {
        let front = routes.drop_last();
        assert(names_distinct(front)) by {
            assert forall|a: int, b: int| 0 <= a < b < front.len() implies (#[trigger] front[a]).0
                != (#[trigger] front[b]).0 by {
                assert(front[a] == routes[a] && front[b] == routes[b]);
            }
        }
        lemma_table_size(front);
        assert forall|i: int| 0 <= i < front.len() implies (#[trigger] front[i]).0
            != routes.last().0 by {
            assert(front[i] == routes[i]);
            assert(routes.last() == routes[routes.len() - 1]);
        }
        lemma_table_lacks(front, routes.last().0);
        assert(table_of(routes).dom() == table_of(front).dom().insert(routes.last().0));
    }
}

/// The routing table. It is built once, when the relay starts, and only read
/// afterwards. No model has two entries.
pub struct RoutingTable {
    entries: Vec<RouteEntry>,
}

impl View for RoutingTable {
    type V = Map<Seq<char>, u16>;

    /// The table as a map from each model's name to the port of its backend.
    closed spec fn view(&self) -> Map<Seq<char>, u16> {
        table_of(self.routes())
    }
}

impl RoutingTable {
    /// The entries as a list of names and ports.
    spec fn routes(self) -> Seq<(Seq<char>, u16)> {
        self.entries@.map_values(|e: RouteEntry| (e.model_name@, e.port))
    }

    #[verifier::type_invariant]
    spec fn unique(self) -> bool {
        names_distinct(self.routes())
    }

    /// A table without entries.
    pub fn new() -> (r: RoutingTable)
        ensures
            r@ == Map::<Seq<char>, u16>::empty(),
    {
        let r = RoutingTable { entries: Vec::new() };
        assert(r.routes() == Seq::<(Seq<char>, u16)>::empty());
        r
    }

    /// The index of the entry for `model_name`, if there is one.
    fn position(&self, model_name: &String) -> (r: Option<usize>)
        ensures
            match r {
                Some(i) => i < self.routes().len() && self.routes()[i as int].0 == model_name@,
                None => forall|i: int|
                    0 <= i < self.routes().len() ==> (#[trigger] self.routes()[i]).0
                        != model_name@,
            },
    {
        let mut i: usize = 0;
        while i < self.entries.len()
            invariant
                i <= self.entries.len(),
                self.routes().len() == self.entries.len(),
                forall|j: int| 0 <= j < i ==> (#[trigger] self.routes()[j]).0 != model_name@,
            decreases self.entries.len() - i,
        {
            assert(self.routes()[i as int].0 == self.entries@[i as int].model_name@);
            if self.entries[i].model_name == *model_name {
                return Some(i);
            }
            i = i + 1;
        }
        None
    }

    /// Looks a model up: the endpoint of the backend that serves it, or
    /// `ModelNotFound` where the table has no entry for it.
    pub fn resolve(&self, model_name: &String) -> (r: Result<Endpoint, ModelNotFound>)
        ensures
            r == resolution(self@, model_name@),
    {
        proof {
            use_type_invariant(self);
        }
        match self.position(model_name) {
            Some(i) => {
                proof {
                    lemma_table_holds(self.routes(), i as int);
                }
                Ok(Endpoint { port: self.entries[i].port })
            },
            None => {
                proof {
                    lemma_table_lacks(self.routes(), model_name@);
                }
                Err(ModelNotFound)
            },
        }
    }

    /// Enters the route of a model. A route that the table already has for
    /// that model is replaced.
    pub fn insert(&mut self, model_name: String, port: u16)
        ensures
            final(self)@ == old(self)@.insert(model_name@, port),
    {
        proof {
            use_type_invariant(&*self);
        }
        let ghost before = self.routes();
        let found = self.position(&model_name);
        let mut entries: Vec<RouteEntry> = Vec::new();
        assert(entries@.map_values(|e: RouteEntry| (e.model_name@, e.port)) == Seq::<
            (Seq<char>, u16),
        >::empty());
        core::mem::swap(&mut self.entries, &mut entries);
        match found {
            Some(i) => {
                entries.set(i, RouteEntry { model_name, port });
                proof {
                    lemma_table_replace(before, i as int, port);
                    assert(entries@.map_values(|e: RouteEntry| (e.model_name@, e.port))
                        == before.update(i as int, (before[i as int].0, port)));
                }
            },
            None => {
                entries.push(RouteEntry { model_name, port });
                proof {
                    let after = entries@.map_values(|e: RouteEntry| (e.model_name@, e.port));
                    assert(after == before.push((model_name@, port)));
                    assert(after.drop_last() == before);
                    assert forall|a: int, b: int| 0 <= a < b < after.len() implies (
                    #[trigger] after[a]).0 != (#[trigger] after[b]).0 by {
                        assert(after[a] == before[a]);
                        if b < before.len() {
                            assert(after[b] == before[b]);
                        }
                    }
                }
            },
        }
        core::mem::swap(&mut self.entries, &mut entries);
    }

    /// Builds the table from the list of routes that the configuration gives.
    /// Where a model is named twice, the later route counts.
    pub fn from_routes(routes: &Vec<(String, u16)>) -> (r: RoutingTable)
        ensures
            r@ == table_of(routes.deep_view()),
    {
        let mut table = RoutingTable::new();
        let mut i: usize = 0;
        assert(routes.deep_view().take(0) == Seq::<(Seq<char>, u16)>::empty());
        while i < routes.len()
            invariant
                i <= routes.len(),
                table@ == table_of(routes.deep_view().take(i as int)),
            decreases routes.len() - i,
        {
            let name = routes[i].0.clone();
            let port = routes[i].1;
            proof {
                let upto = routes.deep_view().take(i + 1);
                assert(upto.drop_last() == routes.deep_view().take(i as int));
                assert(upto.last() == (name@, port));
            }
            table.insert(name, port);
            i = i + 1;
        }
        assert(routes.deep_view().take(i as int) == routes.deep_view());
        table
    }

    /// How many models the table has a route for.
    pub fn len(&self) -> (n: usize)
        ensures
            self@.dom().finite(),
            n == self@.dom().len(),
    {
        proof {
            use_type_invariant(self);
            lemma_table_size(self.routes());
        }
        self.entries.len()
    }
}

/// What looking `model_name` up in `table` gives.
pub open spec fn resolution(table: Map<Seq<char>, u16>, model_name: Seq<char>) -> Result<
    Endpoint,
    ModelNotFound,
> {
    if table.contains_key(model_name) {
        Ok(Endpoint { port: table[model_name] })
    } else {
        Err(ModelNotFound)
    }
}

} // verus!
