//! The services that the dashboard lists, by name and grouped by server.

use vstd::prelude::*;
use vstd::string::StringExecFns;

verus! {

/// A service that the dashboard watches.
#[derive(Debug)]
pub struct Service {
    pub name: String,
    pub server: String,
    pub status: i64,
}

pub struct ServiceView {
    pub name: Seq<char>,
    pub server: Seq<char>,
    pub status: i64,
}

impl View for Service {
    type V = ServiceView;

    open spec fn view(&self) -> ServiceView {
        ServiceView { name: self.name@, server: self.server@, status: self.status }
    }
}

impl Default for Service {
    fn default() -> (r: Service)
        ensures
            r@ == (ServiceView { name: Seq::empty(), server: Seq::empty(), status: 0 }),
    {
        Service { name: String::new(), server: String::new(), status: 0 }
    }
}

impl Service {
    /// A copy of the service.
    pub fn duplicate(&self) -> (r: Service)
        ensures
            r@ == self@,
    {
        Service { name: self.name.clone(), server: self.server.clone(), status: self.status }
    }
}

/// The services of one server, in the order of the rows.
#[derive(Debug)]
pub struct ServerGroup {
    pub server: String,
    pub services: Vec<Service>,
}

/// What the listing handlers answer, as the fields of a JSON object.
#[derive(Debug)]
pub enum ServiceReply {
    /// `{"result": "ok", "services": {<name>: <service>, ..}}`
    ByName { services: Vec<Service> },
    /// `{"result": "ok", "services": {<server>: [<service>, ..], ..}}`
    ByServer { groups: Vec<ServerGroup> },
    /// `{"result": "error", "message": <reason>}`
    Failed { message: String },
}

impl ServiceReply {
    /// The one answer to a failed fetch of the services.
    pub open spec fn is_fetch_failure(&self) -> bool {
        self matches ServiceReply::Failed { message } && message@
            == "Error Getting Services From DB"@
    }

    pub fn fetch_failure() -> (r: Self)
        ensures
            r.is_fetch_failure(),
    {
        ServiceReply::Failed { message: String::from_str("Error Getting Services From DB") }
    }
}

/// The views of a vector of services.
pub open spec fn views_of(services: Seq<Service>) -> Seq<ServiceView> {
    Seq::new(services.len(), |i: int| services[i]@)
}

/// The last of `rows` that has this name, if any has.
pub open spec fn last_named(rows: Seq<ServiceView>, name: Seq<char>) -> Option<ServiceView>
    decreases rows.len(),
{
    if rows.len() == 0 {
        None
    } else if rows.last().name == name {
        Some(rows.last())
    } else {
        last_named(rows.drop_last(), name)
    }
}

/// Those of `rows` that belong to this server, in their order.
pub open spec fn on_server(rows: Seq<ServiceView>, server: Seq<char>) -> Seq<ServiceView>
    decreases rows.len(),
{
    if rows.len() == 0 {
        Seq::empty()
    } else if rows.last().server == server {
        on_server(rows.drop_last(), server).push(rows.last())
    } else {
        on_server(rows.drop_last(), server)
    }
}

/// `listing` holds, for each name that occurs in `rows`, one service: the
/// last row of that name.
pub open spec fn lists_by_name(listing: Seq<ServiceView>, rows: Seq<ServiceView>) -> bool {
    &&& forall|i: int, j: int|
        0 <= i < j < listing.len() ==> (#[trigger] listing[i]).name != (#[trigger] listing[j]).name
    &&& forall|i: int|
        0 <= i < listing.len() ==> last_named(rows, (#[trigger] listing[i]).name) == Some(
            listing[i],
        )
    &&& forall|k: int|
        0 <= k < rows.len() ==> exists|i: int|
            0 <= i < listing.len() && (#[trigger] listing[i]).name == (#[trigger] rows[k]).name
}

fn find_name(listing: &Vec<Service>, name: &String) -> (r: Option<usize>)
    ensures
        match r {
            Some(i) => i < listing@.len() && listing@[i as int].name@ == name@,
            None => forall|j: int| 0 <= j < listing@.len() ==> (#[trigger] listing@[j]).name@ != name@,
        },
{
    let mut i: usize = 0;
    while i < listing.len()
        invariant
            i <= listing@.len(),
            forall|j: int| 0 <= j < i ==> (#[trigger] listing@[j]).name@ != name@,
        decreases listing@.len() - i,
    {
        if listing[i].name == *name {
            return Some(i);
        }
        i = i + 1;
    }
    None
}

/// One service per name: where rows share a name, the last of them.
pub fn services_by_name(rows: &Vec<Service>) -> (r: Vec<Service>)
    ensures
        lists_by_name(views_of(r@), views_of(rows@)),
{
    let mut listing: Vec<Service> = Vec::new();
    let mut n: usize = 0;
    let ghost all = views_of(rows@);
    assert(all.take(0) =~= Seq::empty());
    while n < rows.len()
        invariant
            n <= rows@.len(),
            all == views_of(rows@),
            lists_by_name(views_of(listing@), all.take(n as int)),
        decreases rows@.len() - n,
    {
        let ghost seen = all.take(n as int);
        let ghost next = all.take(n + 1);
        let ghost before = views_of(listing@);
        let row = rows[n].duplicate();
        assert(row@ == all[n as int]);
        assert(next.drop_last() =~= seen);
        assert(next.last() == row@);
        match find_name(&listing, &row.name) {
            Some(i) => {
                listing.set(i, row);
                let ghost after = views_of(listing@);
                assert(after =~= before.update(i as int, all[n as int]));
                assert(before[i as int].name == all[n as int].name);
                assert forall|k: int| 0 <= k < next.len() implies exists|j: int|
                    0 <= j < after.len() && (#[trigger] after[j]).name == (#[trigger] next[k]).name by {
                    if k < n {
                        assert(seen[k] == next[k]);
                        let j = choose|j: int|
                            0 <= j < before.len() && (#[trigger] before[j]).name == seen[k].name;
                        assert(after[j].name == next[k].name);
                    } else {
                        assert(after[i as int].name == next[k].name);
                    }
                }
                assert forall|j: int| 0 <= j < after.len() implies last_named(
                    next,
                    (#[trigger] after[j]).name,
                ) == Some(after[j]) by {
                    if j != i {
                        assert(before[j].name != before[i as int].name);
                        assert(after[j] == before[j]);
                    }
                }
            },
            None => {
                assert forall|j: int| 0 <= j < before.len() implies (#[trigger] before[j]).name
                    != all[n as int].name by {
                    assert(listing@[j].name@ != row.name@);
                }
                listing.push(row);
                let ghost after = views_of(listing@);
                assert(after =~= before.push(all[n as int]));
                assert forall|k: int| 0 <= k < next.len() implies exists|j: int|
                    0 <= j < after.len() && (#[trigger] after[j]).name == (#[trigger] next[k]).name by {
                    if k < n {
                        assert(seen[k] == next[k]);
                        let j = choose|j: int|
                            0 <= j < before.len() && (#[trigger] before[j]).name == seen[k].name;
                        assert(after[j].name == next[k].name);
                    } else {
                        assert(after[before.len() as int].name == next[k].name);
                    }
                }
                assert forall|j: int| 0 <= j < after.len() implies last_named(
                    next,
                    (#[trigger] after[j]).name,
                ) == Some(after[j]) by {
                    if j < before.len() {
                        assert(after[j] == before[j]);
                    }
                }
            },
        }
        n = n + 1;
    }
    assert(all.take(n as int) =~= all);
    listing
}

pub struct GroupView {
    pub server: Seq<char>,
    pub services: Seq<ServiceView>,
}

impl View for ServerGroup {
    type V = GroupView;

    open spec fn view(&self) -> GroupView {
        GroupView { server: self.server@, services: views_of(self.services@) }
    }
}

/// The views of a vector of groups.
pub open spec fn group_views_of(groups: Seq<ServerGroup>) -> Seq<GroupView> {
    Seq::new(groups.len(), |i: int| groups[i]@)
}

/// `groups` holds, for each server that occurs in `rows`, one group: the rows
/// of that server, in their order.
pub open spec fn groups_by_server(groups: Seq<GroupView>, rows: Seq<ServiceView>) -> bool {
    &&& forall|i: int, j: int|
        0 <= i < j < groups.len() ==> (#[trigger] groups[i]).server != (#[trigger] groups[j]).server
    &&& forall|i: int|
        0 <= i < groups.len() ==> (#[trigger] groups[i]).services == on_server(
            rows,
            groups[i].server,
        ) && groups[i].services.len() > 0
    &&& forall|k: int|
        0 <= k < rows.len() ==> exists|i: int|
            0 <= i < groups.len() && (#[trigger] groups[i]).server == (#[trigger] rows[k]).server
}

fn find_server(groups: &Vec<ServerGroup>, server: &String) -> (r: Option<usize>)
    ensures
        match r {
            Some(i) => i < groups@.len() && groups@[i as int].server@ == server@,
            None => forall|j: int| 0 <= j < groups@.len() ==> (#[trigger] groups@[j]).server@ != server@,
        },
{
    let mut i: usize = 0;
    while i < groups.len()
        invariant
            i <= groups@.len(),
            forall|j: int| 0 <= j < i ==> (#[trigger] groups@[j]).server@ != server@,
        decreases groups@.len() - i,
    {
        if groups[i].server == *server {
            return Some(i);
        }
        i = i + 1;
    }
    None
}

/// The services grouped by the server that they belong to.
pub fn services_by_server(rows: &Vec<Service>) -> (r: Vec<ServerGroup>)
    ensures
        groups_by_server(group_views_of(r@), views_of(rows@)),
{
    let mut groups: Vec<ServerGroup> = Vec::new();
    let mut n: usize = 0;
    let ghost all = views_of(rows@);
    assert(all.take(0) =~= Seq::empty());
    while n < rows.len()
        invariant
            n <= rows@.len(),
            all == views_of(rows@),
            groups_by_server(group_views_of(groups@), all.take(n as int)),
        decreases rows@.len() - n,
    {
        let ghost seen = all.take(n as int);
        let ghost next = all.take(n + 1);
        let ghost before = group_views_of(groups@);
        let row = rows[n].duplicate();
        assert(row@ == all[n as int]);
        assert(next.drop_last() =~= seen);
        assert(next.last() == row@);
        match find_server(&groups, &row.server) {
            Some(i) => {
                let mut group = groups.remove(i);
                assert(group@ == before[i as int]);
                group.services.push(row);
                assert(views_of(group.services@) =~= before[i as int].services.push(
                    all[n as int],
                ));
                groups.insert(i, group);
                let ghost after = group_views_of(groups@);
                assert(after =~= before.update(
                    i as int,
                    GroupView {
                        server: all[n as int].server,
                        services: before[i as int].services.push(all[n as int]),
                    },
                ));
                assert forall|k: int| 0 <= k < next.len() implies exists|j: int|
                    0 <= j < after.len() && (#[trigger] after[j]).server == (
                    #[trigger] next[k]).server by {
                    if k < n {
                        assert(seen[k] == next[k]);
                        let j = choose|j: int|
                            0 <= j < before.len() && (#[trigger] before[j]).server
                                == seen[k].server;
                        assert(after[j].server == next[k].server);
                    } else {
                        assert(after[i as int].server == next[k].server);
                    }
                }
                assert forall|j: int| 0 <= j < after.len() implies (#[trigger] after[j]).services
                    == on_server(next, after[j].server) && after[j].services.len() > 0 by {
                    if j != i {
                        assert(before[j].server != before[i as int].server);
                        assert(after[j] == before[j]);
                    }
                }
            },
            None => {
                assert forall|j: int| 0 <= j < before.len() implies (#[trigger] before[j]).server
                    != all[n as int].server by {
                    assert(groups@[j].server@ != row.server@);
                }
                proof {
                    lemma_on_server_absent(seen, all[n as int].server, before);
                }
                let server = row.server.clone();
                let mut services: Vec<Service> = Vec::new();
                services.push(row);
                assert(views_of(services@) =~= seq![all[n as int]]);
                groups.push(ServerGroup { server, services });
                let ghost after = group_views_of(groups@);
                assert(after =~= before.push(
                    GroupView { server: all[n as int].server, services: seq![all[n as int]] },
                ));
                assert(Seq::<ServiceView>::empty().push(all[n as int]) =~= seq![all[n as int]]);
                assert forall|k: int| 0 <= k < next.len() implies exists|j: int|
                    0 <= j < after.len() && (#[trigger] after[j]).server == (
                    #[trigger] next[k]).server by {
                    if k < n {
                        assert(seen[k] == next[k]);
                        let j = choose|j: int|
                            0 <= j < before.len() && (#[trigger] before[j]).server
                                == seen[k].server;
                        assert(after[j].server == next[k].server);
                    } else {
                        assert(after[before.len() as int].server == next[k].server);
                    }
                }
                assert forall|j: int| 0 <= j < after.len() implies (#[trigger] after[j]).services
                    == on_server(next, after[j].server) && after[j].services.len() > 0 by {
                    if j < before.len() {
                        assert(after[j] == before[j]);
                    }
                }
            },
        }
        n = n + 1;
    }
    assert(all.take(n as int) =~= all);
    groups
}

/// Rows of a server that no group stands for: there are none.
proof fn lemma_on_server_absent(rows: Seq<ServiceView>, server: Seq<char>, groups: Seq<GroupView>)
    requires
        groups_by_server(groups, rows),
        forall|j: int| 0 <= j < groups.len() ==> (#[trigger] groups[j]).server != server,
    ensures
        on_server(rows, server) == Seq::<ServiceView>::empty(),
{
    lemma_on_server_none(rows, server);
    assert forall|k: int| 0 <= k < rows.len() implies (#[trigger] rows[k]).server != server by {
        let j = choose|j: int|
            0 <= j < groups.len() && (#[trigger] groups[j]).server == rows[k].server;
    }
}

proof fn lemma_on_server_none(rows: Seq<ServiceView>, server: Seq<char>)
    ensures
        (forall|k: int| 0 <= k < rows.len() ==> (#[trigger] rows[k]).server != server)
            ==> on_server(rows, server) == Seq::<ServiceView>::empty(),
    decreases rows.len(),
{
    if rows.len() > 0 {
        lemma_on_server_none(rows.drop_last(), server);
        if forall|k: int| 0 <= k < rows.len() ==> (#[trigger] rows[k]).server != server {
            assert forall|k: int| 0 <= k < rows.drop_last().len() implies (
            #[trigger] rows.drop_last()[k]).server != server by {
                assert(rows.drop_last()[k] == rows[k]);
            }
            assert(rows.last() == rows[rows.len() - 1]);
        }
    }
}

/// The handler that lists the services by name, after the fetch of the rows.
pub fn get_services(rows: &Result<Vec<Service>, String>) -> (r: ServiceReply)
    ensures
        match rows {
            Ok(found) => r matches ServiceReply::ByName { services } && lists_by_name(
                views_of(services@),
                views_of(found@),
            ),
            Err(_) => r.is_fetch_failure(),
        },
{
    match rows {
        Ok(found) => ServiceReply::ByName { services: services_by_name(found) },
        Err(_) => ServiceReply::fetch_failure(),
    }
}

/// The handler that lists the services by server, after the fetch of the rows.
pub fn get_services_by_server(rows: &Result<Vec<Service>, String>) -> (r: ServiceReply)
    ensures
        match rows {
            Ok(found) => r matches ServiceReply::ByServer { groups } && groups_by_server(
                group_views_of(groups@),
                views_of(found@),
            ),
            Err(_) => r.is_fetch_failure(),
        },
{
    match rows {
        Ok(found) => ServiceReply::ByServer { groups: services_by_server(found) },
        Err(_) => ServiceReply::fetch_failure(),
    }
}

} // verus!
