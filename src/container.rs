//! Hostnames and host entries derived from container details.
use vstd::prelude::*;
use vstd::string::*;

verus! {

/// One network interface of a container.
#[derive(Clone, Debug, PartialEq, Eq)]
pub struct NetworkInterface {
    pub name: String,
    pub ip_address: String,
}

/// What the sync engine reads of one running container.
#[derive(Clone, Debug, PartialEq, Eq)]
pub struct ContainerDetails {
    pub hostname: String,
    pub domain_name: String,
    /// In the order in which the runtime lists them.
    pub networks: Vec<NetworkInterface>,
}

/// The inventory could not list the containers or inspect one of them.
#[derive(Clone, Debug, PartialEq, Eq)]
pub struct InventoryError {
    pub message: String,
}

/// One resolvable mapping of an address to a hostname.
#[derive(Clone, Debug, PartialEq, Eq)]
pub struct HostEntry {
    pub ip_address: String,
    pub hostname: String,
}

/// The domain given to containers that have none of their own.
pub open spec fn default_domain_suffix() -> Seq<char> {
    seq!['.', 'd', 'o', 'c', 'k', 'e', 'r', '.', 'l', 'o', 'c', 'a', 'l']
}

/// The exposed hostname of a container with the given hostname and domain.
pub open spec fn exposed_hostname_of(hostname: Seq<char>, domain: Seq<char>) -> Seq<char> {
    if domain.len() > 0 {
        hostname + seq!['.'] + domain
    } else {
        hostname + default_domain_suffix()
    }
}

/// The exposed hostname of a container.
pub open spec fn container_hostname(c: ContainerDetails) -> Seq<char> {
    exposed_hostname_of(c.hostname@, c.domain_name@)
}

/// The hosts-file line of one entry: address, a tab, hostname.
pub open spec fn line_of(ip: Seq<char>, hostname: Seq<char>) -> Seq<char> {
    ip + seq!['\t'] + hostname
}

/// The lines of one container, one per network interface, in interface order.
pub open spec fn container_lines(c: ContainerDetails) -> Seq<Seq<char>> {
    Seq::new(c.networks@.len(), |i: int| line_of(c.networks@[i].ip_address@, container_hostname(c)))
}

/// The lines of all containers, in listing order.
pub open spec fn snapshot_lines(cs: Seq<ContainerDetails>) -> Seq<Seq<char>>
    decreases cs.len(),
{
    if cs.len() == 0 {
        Seq::empty()
    } else {
        snapshot_lines(cs.drop_last()) + container_lines(cs.last())
    }
}

/// Lines joined by newlines, with no newline after the last.
pub open spec fn join_lines(lines: Seq<Seq<char>>) -> Seq<char>
    decreases lines.len(),
{
    if lines.len() == 0 {
        Seq::empty()
    } else if lines.len() == 1 {
        lines[0]
    } else {
        join_lines(lines.drop_last()) + seq!['\n'] + lines.last()
    }
}

/// The generated block of a snapshot: all lines joined, then one newline.
pub open spec fn block_of(cs: Seq<ContainerDetails>) -> Seq<char> {
    join_lines(snapshot_lines(cs)) + seq!['\n']
}

proof fn lemma_join_push(lines: Seq<Seq<char>>, x: Seq<char>)
    ensures
        join_lines(lines.push(x)) == if lines.len() == 0 {
            x
        } else {
            join_lines(lines) + seq!['\n'] + x
        },
{
    assert(lines.push(x).drop_last() =~= lines);
    if lines.len() == 0 {
        assert(lines.push(x)[0] == x);
    }
}

/// Canonical hostname under which a container is exposed.
pub fn container_to_exposed_hostname(container: &ContainerDetails) -> (r: String)
    ensures
        r@ == container_hostname(*container),
{
    if container.domain_name.unicode_len() > 0 {
        proof {
            reveal_strlit(".");
        }
        container.hostname.clone().concat(".").concat(container.domain_name.as_str())
    } else {
        proof {
            reveal_strlit(".docker.local");
        }
        container.hostname.clone().concat(".docker.local")
    }
}

/// The addresses of a container's network interfaces, in interface order.
pub fn get_container_ips(container: &ContainerDetails) -> (r: Vec<String>)
    ensures
        r@.len() == container.networks@.len(),
        forall|i: int| 0 <= i < r@.len() ==> #[trigger] r@[i]@ == container.networks@[i].ip_address@,
{
    let mut ips: Vec<String> = Vec::new();
    let mut i: usize = 0;
    while i < container.networks.len()
        invariant
            i <= container.networks@.len(),
            ips@.len() == i,
            forall|k: int| 0 <= k < i ==> #[trigger] ips@[k]@ == container.networks@[k].ip_address@,
        decreases container.networks@.len() - i,
    {
        ips.push(container.networks[i].ip_address.clone());
        i = i + 1;
    }
    ips
}

/// One host entry per network interface, all under the container's hostname.
pub fn container_to_hosts_entries(container: &ContainerDetails) -> (r: Vec<HostEntry>)
    ensures
        r@.len() == container.networks@.len(),
        forall|i: int|
            #![trigger r@[i]]
            0 <= i < r@.len() ==> {
                &&& r@[i].ip_address@ == container.networks@[i].ip_address@
                &&& r@[i].hostname@ == container_hostname(*container)
            },
{
    let hostname = container_to_exposed_hostname(container);
    let ips = get_container_ips(container);
    let mut entries: Vec<HostEntry> = Vec::new();
    let mut i: usize = 0;
    while i < ips.len()
        invariant
            i <= ips@.len(),
            ips@.len() == container.networks@.len(),
            forall|k: int| 0 <= k < ips@.len() ==> #[trigger] ips@[k]@ == container.networks@[k].ip_address@,
            hostname@ == container_hostname(*container),
            entries@.len() == i,
            forall|k: int|
                #![trigger entries@[k]]
                0 <= k < i ==> {
                    &&& entries@[k].ip_address@ == container.networks@[k].ip_address@
                    &&& entries@[k].hostname@ == container_hostname(*container)
                },
        decreases ips@.len() - i,
    {
        entries.push(HostEntry { ip_address: ips[i].clone(), hostname: hostname.clone() });
        i = i + 1;
    }
    entries
}

impl HostEntry {
    /// The hosts-file line of this entry, without a newline.
    pub fn to_line(&self) -> (r: String)
        ensures
            r@ == line_of(self.ip_address@, self.hostname@),
    {
        proof {
            reveal_strlit("\t");
        }
        self.ip_address.clone().concat("\t").concat(self.hostname.as_str())
    }
}

proof fn lemma_snapshot_push(cs: Seq<ContainerDetails>, c: ContainerDetails)
    ensures
        snapshot_lines(cs.push(c)) == snapshot_lines(cs) + container_lines(c),
{
    assert(cs.push(c).drop_last() =~= cs);
}

/// Renders the generated block of a snapshot: every entry of every container,
/// in listing order and then interface order, one per line.
pub fn generate_hosts(containers: &Vec<ContainerDetails>) -> (r: String)
    ensures
        r@ == block_of(containers@),
{
    let mut out = String::new();
    let ghost mut lines: Seq<Seq<char>> = Seq::empty();
    let mut any = false;
    let mut i: usize = 0;
    proof {
        reveal_strlit("\n");
        assert(containers@.subrange(0, 0) =~= Seq::<ContainerDetails>::empty());
    }
    while i < containers.len()
        invariant
            i <= containers@.len(),
            lines == snapshot_lines(containers@.subrange(0, i as int)),
            out@ == join_lines(lines),
            any == (lines.len() > 0),
            "\n"@ == seq!['\n'],
        decreases containers@.len() - i,
    {
        let container = &containers[i];
        let entries = container_to_hosts_entries(container);
        let ghost before = lines;
        let mut j: usize = 0;
        assert(container_lines(*container).subrange(0, 0) =~= Seq::<Seq<char>>::empty());
        assert(before + Seq::<Seq<char>>::empty() =~= before);
        while j < entries.len()
            invariant
                j <= entries@.len(),
                entries@.len() == container.networks@.len(),
                forall|k: int|
                    #![trigger entries@[k]]
                    0 <= k < entries@.len() ==> {
                        &&& entries@[k].ip_address@ == container.networks@[k].ip_address@
                        &&& entries@[k].hostname@ == container_hostname(*container)
                    },
                lines == before + container_lines(*container).subrange(0, j as int),
                out@ == join_lines(lines),
                any == (lines.len() > 0),
                "\n"@ == seq!['\n'],
            decreases entries@.len() - j,
        {
            let line = entries[j].to_line();
            proof {
                lemma_join_push(lines, line@);
            }
            if any {
                out.append("\n");
            }
            out.append(line.as_str());
            any = true;
            proof {
                lines = lines.push(line@);
                assert(lines =~= before + container_lines(*container).subrange(0, j + 1));
            }
            j = j + 1;
        }
        proof {
            assert(container_lines(*container).subrange(0, j as int) =~= container_lines(*container));
            assert(containers@.subrange(0, i + 1) =~= containers@.subrange(0, i as int).push(*container));
            lemma_snapshot_push(containers@.subrange(0, i as int), *container);
        }
        i = i + 1;
    }
    proof {
        assert(containers@.subrange(0, i as int) =~= containers@);
    }
    out.append("\n");
    out
}

/// The details of a run of lookups that all succeeded.
pub open spec fn looked_up(lookups: Seq<Result<ContainerDetails, InventoryError>>) -> Seq<ContainerDetails> {
    lookups.map_values(|l: Result<ContainerDetails, InventoryError>| l->Ok_0)
}

pub open spec fn all_found(lookups: Seq<Result<ContainerDetails, InventoryError>>) -> bool {
    forall|i: int| 0 <= i < lookups.len() ==> (#[trigger] lookups[i]) is Ok
}

/// Renders the generated block from the results of inspecting each listed
/// container, in listing order. A single failed lookup fails the whole
/// render with the first error, so that no partial snapshot is ever produced.
pub fn render_snapshot(lookups: Vec<Result<ContainerDetails, InventoryError>>) -> (r: Result<String, InventoryError>)
    ensures
        r is Ok <==> all_found(lookups@),
        r is Ok ==> r->Ok_0@ == block_of(looked_up(lookups@)),
        r is Err ==> exists|i: int|
            0 <= i < lookups@.len() && lookups@[i] == Err::<ContainerDetails, InventoryError>(r->Err_0)
                && all_found(#[trigger] lookups@.subrange(0, i)),
{
    let ghost given = lookups@;
    let mut rest = lookups;
    let mut details: Vec<ContainerDetails> = Vec::new();
    while rest.len() > 0
        invariant
            given == lookups@,
            details@.len() + rest@.len() == given.len(),
            rest@ == given.subrange(details@.len() as int, given.len() as int),
            all_found(given.subrange(0, details@.len() as int)),
            details@ == looked_up(given.subrange(0, details@.len() as int)),
        decreases rest@.len(),
    {
        let ghost n = details@.len() as int;
        let item = rest.remove(0);
        assert(item == given[n]);
        match item {
            Ok(c) => {
                details.push(c);
                proof {
                    assert(rest@ =~= given.subrange(n + 1, given.len() as int));
                    assert(given.subrange(0, n + 1) =~= given.subrange(0, n).push(given[n]));
                    assert(details@ =~= looked_up(given.subrange(0, n + 1)));
                }
            },
            Err(e) => {
                proof {
                    assert(!all_found(given));
                    assert(given[n] == Err::<ContainerDetails, InventoryError>(e));
                    assert(all_found(given.subrange(0, n)));
                }
                return Err(e);
            },
        }
    }
    proof {
        assert(given.subrange(0, given.len() as int) =~= given);
    }
    Ok(generate_hosts(&details))
}

} // verus!
