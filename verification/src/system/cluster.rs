use vstd::prelude::*;
use vstd::string::*;
use regex::Regex;
use crate::net::net_config::{NetConfig, NetConfigView, NetConnectionType, NetProtocol};
use crate::system::config_order::{config_views, insert_sorted, strictly_sorted};

verus! {

/// The port of a cluster address that names none.
pub const DEFAULT_CLUSTER_PORT: usize = 2022;

/// Sets up the network actors of a cluster node.
pub struct Cluster {}

/// The end of the line of `s` that position `k` is on: the first newline at
/// or after `k`, or the end of `s`.
pub open spec fn line_end(s: Seq<char>, k: int) -> int
    decreases s.len() - k,
{
    if k >= s.len() || k < 0 || s[k] == '\n' {
        if k < 0 { 0 } else { k }
    } else {
        line_end(s, k + 1)
    }
}

/// The last colon of `s` in `[a, b)`, or -1 where there is none.
pub open spec fn last_colon(s: Seq<char>, a: int, b: int) -> int
    decreases b - a,
{
    if b <= a {
        -1
    } else if s[b - 1] == ':' {
        b - 1
    } else {
        last_colon(s, a, b - 1)
    }
}

/// The pattern `(tcp|udp):\/\/(.*):(.*)` matches `s` at position `i`: a
/// scheme `tcp://` or `udp://` starts there, and the rest of its line holds
/// a colon (`.` matches every character but a newline).
pub open spec fn address_match_at(s: Seq<char>, i: int) -> bool {
    &&& 0 <= i
    &&& i + 6 <= s.len()
    &&& (s.subrange(i, i + 3) == "tcp"@ || s.subrange(i, i + 3) == "udp"@)
    &&& s.subrange(i + 3, i + 6) == "://"@
    &&& last_colon(s, i + 6, line_end(s, i + 6)) >= 0
}

/// The texts of the groups of the pattern `(tcp|udp):\/\/(.*):(.*)` in its
/// first (leftmost) match in `host`, or `None` where it does not match: group
/// 0 is the match, up to the end of its line; group 1 the scheme; group 2,
/// being greedy, runs to the last colon of the line; group 3 is the rest of
/// the line.
#[verifier::opaque]
pub open spec fn cluster_address_captures(host: Seq<char>) -> Option<Seq<Option<Seq<char>>>> {
    if exists|i: int| address_match_at(host, i) {
        let i = choose|i: int| address_match_at(host, i) && forall|j: int| 0 <= j < i ==> !address_match_at(host, j);
        let e = line_end(host, i + 6);
        let c = last_colon(host, i + 6, e);
        Some(seq![
            Some(host.subrange(i, e)),
            Some(host.subrange(i, i + 3)),
            Some(host.subrange(i + 6, c)),
            Some(host.subrange(c + 1, e)),
        ])
    } else {
        None
    }
}

/// The views of optional strings.
pub open spec fn group_views(groups: Seq<Option<String>>) -> Seq<Option<Seq<char>>> {
    groups.map_values(|g: Option<String>| match g {
        Some(s) => Some(s@),
        None => None,
    })
}

/// `Regex::new` on the cluster address pattern, then `Regex::captures` on
/// `host`: claims that the result is the texts of the groups of the first
/// match, as [`cluster_address_captures`] spells them out (leftmost-first
/// matching, greedy repetition, `.` not matching a newline). The pattern is
/// a constant that compiles.
#[verifier::external_body]
fn capture_cluster_address(host: &str) -> (r: Option<Vec<Option<String>>>)
    ensures
        match r {
            Some(groups) => cluster_address_captures(host@) == Some(group_views(groups@)),
            None => cluster_address_captures(host@) is None,
        },
{
    let regex = Regex::new("(tcp|udp):\\/\\/(.*):(.*)").unwrap();
    regex.captures(host).map(|c| c.iter().map(|m| m.map(|m| m.as_str().to_string())).collect())
}

pub open spec fn is_digit(c: char) -> bool {
    '0' <= c <= '9'
}

/// The number that the decimal digits `s` write.
pub open spec fn digits_value(s: Seq<char>) -> int
    decreases s.len(),
{
    if s.len() == 0 {
        0
    } else {
        digits_value(s.drop_last()) * 10 + (s.last() as int - '0' as int)
    }
}

pub open spec fn all_digits(s: Seq<char>) -> bool {
    forall|i: int| 0 <= i < s.len() ==> is_digit(#[trigger] s[i])
}

/// What parsing `s` as a `usize` gives: an optional `+`, then one or more
/// decimal digits whose value fits.
pub open spec fn parsed_usize(s: Seq<char>) -> Option<usize> {
    let d = if s.len() > 0 && s[0] == '+' { s.drop_first() } else { s };
    if d.len() > 0 && all_digits(d) && digits_value(d) <= usize::MAX {
        Some(digits_value(d) as usize)
    } else {
        None
    }
}

pub proof fn lemma_digits_value_nonneg(s: Seq<char>)
    requires
        all_digits(s),
    ensures
        digits_value(s) >= 0,
    decreases s.len(),
{
    if s.len() > 0 {
        lemma_digits_value_nonneg(s.drop_last());
        assert(is_digit(s[s.len() - 1]));
    }
}

/// The value of a prefix of digits is at most the value of the whole.
pub proof fn lemma_digits_value_prefix(s: Seq<char>, k: int)
    requires
        all_digits(s),
        0 <= k <= s.len(),
    ensures
        digits_value(s.take(k)) <= digits_value(s),
    decreases s.len() - k,
{
    if k < s.len() {
        lemma_digits_value_prefix(s, k + 1);
        assert(s.take(k + 1).drop_last() =~= s.take(k));
        let p = s.take(k);
        assert(all_digits(p));
        lemma_digits_value_nonneg(p);
        assert(is_digit(s[k]));
        assert(digits_value(s.take(k + 1)) == digits_value(p) * 10 + (s[k] as int - '0' as int));
    } else {
        assert(s.take(k) =~= s);
    }
}

/// Parses `s` as a `usize`, as [`parsed_usize`] says.
pub fn parse_usize(s: &str) -> (r: Option<usize>)
    ensures
        r == parsed_usize(s@),
{
    let len = s.unicode_len();
    let mut start: usize = 0;
    if len > 0 && s.get_char(0) == '+' {
        start = 1;
    }
    let ghost d = if s@.len() > 0 && s@[0] == '+' { s@.drop_first() } else { s@ };
    if start >= len {
        return None;
    }
    let mut value: usize = 0;
    let mut i: usize = start;
    while i < len
        invariant
            len == s@.len(),
            start <= i <= len,
            start == s@.len() - d.len(),
            d =~= s@.subrange(start as int, len as int),
            d == (if s@.len() > 0 && s@[0] == '+' { s@.drop_first() } else { s@ }),
            all_digits(d.take(i - start)),
            value == digits_value(d.take(i - start)),
        decreases len - i,
    {
        let c = s.get_char(i);
        assert(d[i - start] == c);
        if !('0' <= c && c <= '9') {
            proof {
                assert(!is_digit(d[i - start]));
                assert(!all_digits(d));
            }
            return None;
        }
        let digit = (c as u32 - '0' as u32) as usize;
        proof {
            assert(d.take(i - start + 1).drop_last() =~= d.take(i - start));
            assert(d.take(i - start + 1).last() == c);
            assert(all_digits(d.take(i - start + 1)));
            assert(digits_value(d.take(i - start + 1)) == value * 10 + digit);
        }
        match value.checked_mul(10) {
            Some(v10) => match v10.checked_add(digit) {
                Some(v) => {
                    value = v;
                },
                None => {
                    proof {
                        if all_digits(d) {
                            lemma_digits_value_prefix(d, i - start + 1);
                            assert(digits_value(d) > usize::MAX);
                        }
                    }
                    return None;
                },
            },
            None => {
                proof {
                    if all_digits(d) {
                        lemma_digits_value_prefix(d, i - start + 1);
                        assert(value * 10 > usize::MAX);
                        assert(digits_value(d) > usize::MAX);
                    }
                }
                return None;
            },
        }
        i = i + 1;
    }
    proof {
        assert(d.take(len - start) =~= d);
    }
    Some(value)
}

/// Whether reading a configuration out of the groups `caps` succeeds: the
/// protocol and host groups, and the port group where there are four groups,
/// took part, and that port parses.
pub open spec fn captures_readable(caps: Seq<Option<Seq<char>>>) -> bool {
    caps.len() >= 3 ==> {
        &&& caps[1] is Some
        &&& caps[2] is Some
        &&& caps.len() == 4 ==> caps[3] is Some && parsed_usize(caps[3]->0) is Some
    }
}

/// The configuration that the groups `caps` describe: `None` with fewer
/// than three groups; protocol TCP for `tcp`, UDP otherwise; the parsed
/// port where there are exactly four groups, else the default port.
pub open spec fn config_from_captures(caps: Seq<Option<Seq<char>>>, connection_type: NetConnectionType) -> Option<NetConfigView> {
    if caps.len() < 3 {
        None
    } else {
        Some(NetConfigView {
            protocol: if caps[1]->0 == "tcp"@ { NetProtocol::TCP } else { NetProtocol::UDP },
            connection_type,
            host: caps[2]->0,
            port: if caps.len() == 4 { parsed_usize(caps[3]->0)->0 } else { DEFAULT_CLUSTER_PORT },
        })
    }
}

/// Reads a configuration out of the groups of a matched cluster address.
pub fn net_config_from_captures(caps: &Vec<Option<String>>, connection_type: NetConnectionType) -> (r: Option<NetConfig>)
    requires
        captures_readable(group_views(caps@)),
    ensures
        match r {
            Some(c) => config_from_captures(group_views(caps@), connection_type) == Some(c@),
            None => config_from_captures(group_views(caps@), connection_type) is None,
        },
{
    let ghost g = group_views(caps@);
    if caps.len() < 3 {
        return None;
    }
    assert(g[1] == match caps@[1] { Some(s) => Some(s@), None => None::<Seq<char>> });
    assert(g[2] == match caps@[2] { Some(s) => Some(s@), None => None::<Seq<char>> });
    let tcp = String::from_str("tcp");
    proof {
        reveal_strlit("tcp");
    }
    let protocol = match &caps[1] {
        Some(p) => if *p == tcp {
            NetProtocol::TCP
        } else {
            NetProtocol::UDP
        },
        None => NetProtocol::UDP,
    };
    let port = if caps.len() == 4 {
        assert(g[3] == match caps@[3] { Some(s) => Some(s@), None => None::<Seq<char>> });
        match &caps[3] {
            Some(p) => match parse_usize(p.as_str()) {
                Some(v) => v,
                None => 0,
            },
            None => 0,
        }
    } else {
        DEFAULT_CLUSTER_PORT
    };
    let host = match &caps[2] {
        Some(h) => h.clone(),
        None => String::new(),
    };
    Some(NetConfig::new(protocol, connection_type, host, port))
}

/// The configurations that the cluster addresses `hosts` describe, in
/// order; addresses that do not match the pattern are skipped.
pub open spec fn configs_from_hosts(hosts: Seq<Seq<char>>, connection_type: NetConnectionType) -> Seq<NetConfigView>
    decreases hosts.len(),
{
    if hosts.len() == 0 {
        Seq::empty()
    } else {
        let rest = configs_from_hosts(hosts.drop_last(), connection_type);
        match cluster_address_captures(hosts.last()) {
            Some(caps) => match config_from_captures(caps, connection_type) {
                Some(c) => rest.push(c),
                None => rest,
            },
            None => rest,
        }
    }
}

/// Whether every address in `hosts` that matches can be read.
pub open spec fn hosts_readable(hosts: Seq<Seq<char>>) -> bool {
    forall|i: int| 0 <= i < hosts.len() ==> match #[trigger] cluster_address_captures(hosts[i]) {
        Some(caps) => captures_readable(caps),
        None => true,
    }
}

impl Cluster {
    /// The configurations that the cluster addresses `from` (such as
    /// `tcp://host:port`) describe.
    pub fn generate_net_config(from: &Vec<String>, connection_type: NetConnectionType) -> (r: Vec<NetConfig>)
        requires
            hosts_readable(from@.map_values(|s: String| s@)),
        ensures
            r@.map_values(|c: NetConfig| c@) == configs_from_hosts(from@.map_values(|s: String| s@), connection_type),
    {
        match Self::try_generate_net_config(from, connection_type) {
            Some(r) => r,
            None => Vec::new(),
        }
    }

    /// As [`Self::generate_net_config`], or `None` where a matching address
    /// cannot be read (its port does not parse).
    pub fn try_generate_net_config(from: &Vec<String>, connection_type: NetConnectionType) -> (r: Option<Vec<NetConfig>>)
        ensures
            hosts_readable(from@.map_values(|s: String| s@)) ==> (r matches Some(v)
                && v@.map_values(|c: NetConfig| c@) == configs_from_hosts(from@.map_values(|s: String| s@), connection_type)),
            !hosts_readable(from@.map_values(|s: String| s@)) ==> r is None,
    {
        let ghost hosts = from@.map_values(|s: String| s@);
        let mut net_configs: Vec<NetConfig> = Vec::new();
        let mut i: usize = 0;
        while i < from.len()
            invariant
                i <= from@.len(),
                hosts == from@.map_values(|s: String| s@),
                hosts_readable(hosts.take(i as int)),
                net_configs@.map_values(|c: NetConfig| c@) == configs_from_hosts(hosts.take(i as int), connection_type),
            decreases from@.len() - i,
        {
            proof {
                assert(hosts.take(i as int + 1).drop_last() =~= hosts.take(i as int));
                assert(hosts.take(i as int + 1).last() == from@[i as int]@);
            }
            match capture_cluster_address(from[i].as_str()) {
                None => {
                    proof {
                        assert forall|j: int| 0 <= j < i + 1 implies match #[trigger] cluster_address_captures(hosts.take(i as int + 1)[j]) {
                            Some(caps) => captures_readable(caps),
                            None => true,
                        } by {
                            if j < i {
                                assert(hosts.take(i as int + 1)[j] == hosts.take(i as int)[j]);
                            }
                        }
                    }
                },
                Some(caps) => {
                    if !Self::readable(&caps) {
                        proof {
                            assert(hosts[i as int] == from@[i as int]@);
                            assert(!hosts_readable(hosts)) by {
                                assert(cluster_address_captures(hosts[i as int]) == Some(group_views(caps@)));
                            }
                        }
                        return None;
                    }
                    match net_config_from_captures(&caps, connection_type) {
                        Some(c) => {
                            net_configs.push(c);
                        },
                        None => {},
                    }
                    proof {
                        assert(net_configs@.map_values(|c: NetConfig| c@) =~= configs_from_hosts(hosts.take(i as int + 1), connection_type));
                        assert forall|j: int| 0 <= j < i + 1 implies match #[trigger] cluster_address_captures(hosts.take(i as int + 1)[j]) {
                            Some(caps) => captures_readable(caps),
                            None => true,
                        } by {
                            if j < i {
                                assert(hosts.take(i as int + 1)[j] == hosts.take(i as int)[j]);
                            }
                        }
                    }
                },
            }
            i = i + 1;
        }
        proof {
            assert(hosts.take(from@.len() as int) =~= hosts);
        }
        Some(net_configs)
    }

    /// Whether the groups `caps` can be read, as [`captures_readable`] says.
    fn readable(caps: &Vec<Option<String>>) -> (r: bool)
        ensures
            r == captures_readable(group_views(caps@)),
    {
        let ghost g = group_views(caps@);
        if caps.len() < 3 {
            return true;
        }
        assert(g[1] == match caps@[1] { Some(s) => Some(s@), None => None::<Seq<char>> });
        assert(g[2] == match caps@[2] { Some(s) => Some(s@), None => None::<Seq<char>> });
        if caps[1].is_none() || caps[2].is_none() {
            return false;
        }
        if caps.len() == 4 {
            assert(g[3] == match caps@[3] { Some(s) => Some(s@), None => None::<Seq<char>> });
            match &caps[3] {
                None => {
                    return false;
                },
                Some(p) => {
                    return parse_usize(p.as_str()).is_some();
                },
            }
        }
        true
    }
}

} // verus!

verus! {

/// The hosts found for each member: `None` where the lookup failed.
pub open spec fn lookup_views(lookups: Seq<Option<Vec<String>>>) -> Seq<Option<Seq<Seq<char>>>> {
    lookups.map_values(|o: Option<Vec<String>>| match o {
        Some(v) => Some(v@.map_values(|s: String| s@)),
        None => None,
    })
}

/// Member `i` with host `j` of its lookup, for the pairs `(i, j)` that come
/// before `(ni, nj)`.
pub open spec fn resolved_before(
    members: Seq<NetConfigView>,
    lookups: Seq<Option<Seq<Seq<char>>>>,
    ni: int,
    nj: int,
) -> Set<NetConfigView> {
    Set::new(|c: NetConfigView| exists|i: int, j: int| {
        &&& 0 <= i < members.len()
        &&& (i < ni || (i == ni && j < nj))
        &&& lookups[i] is Some
        &&& 0 <= j < lookups[i]->0.len()
        &&& c == NetConfigView { host: #[trigger] lookups[i]->0[j], ..members[i] }
    })
}

/// The configurations that resolving `members` gives: a copy of each
/// member for each host that its lookup found, with that host.
pub open spec fn resolved_configs(members: Seq<NetConfigView>, lookups: Seq<Option<Seq<Seq<char>>>>) -> Set<NetConfigView> {
    resolved_before(members, lookups, members.len() as int, 0)
}

impl Cluster {
    /// The configurations of the `from` members once their hosts are
    /// resolved, given what the lookup of each member found (`None` where it
    /// failed): a copy of the member for each host found, sorted, each once.
    pub fn resolve_dns(from: &Vec<NetConfig>, lookups: &Vec<Option<Vec<String>>>) -> (r: Vec<NetConfig>)
        requires
            lookups@.len() == from@.len(),
        ensures
            strictly_sorted(config_views(r@)),
            config_views(r@).to_set() == resolved_configs(config_views(from@), lookup_views(lookups@)),
    {
        let ghost ms = config_views(from@);
        let ghost ls = lookup_views(lookups@);
        let mut out: Vec<NetConfig> = Vec::new();
        proof {
            assert(config_views(out@).to_set() =~= resolved_before(ms, ls, 0, 0));
        }
        let mut i: usize = 0;
        while i < from.len()
            invariant
                i <= from@.len(),
                lookups@.len() == from@.len(),
                ms == config_views(from@),
                ls == lookup_views(lookups@),
                strictly_sorted(config_views(out@)),
                config_views(out@).to_set() == resolved_before(ms, ls, i as int, 0),
            decreases from@.len() - i,
        {
            assert(ls[i as int] == match lookups@[i as int] {
                Some(v) => Some(v@.map_values(|s: String| s@)),
                None => None::<Seq<Seq<char>>>,
            });
            match &lookups[i] {
                Some(addrs) => {
                    let mut j: usize = 0;
                    while j < addrs.len()
                        invariant
                            i < from@.len(),
                            j <= addrs@.len(),
                            ms == config_views(from@),
                            ls[i as int] == Some(addrs@.map_values(|s: String| s@)),
                            strictly_sorted(config_views(out@)),
                            config_views(out@).to_set() == resolved_before(ms, ls, i as int, j as int),
                        decreases addrs@.len() - j,
                    {
                        let member = &from[i];
                        let c = NetConfig::new(member.protocol, member.connection_type, addrs[j].clone(), member.port);
                        let ghost before = config_views(out@).to_set();
                        insert_sorted(&mut out, c);
                        proof {
                            let cv = NetConfigView { host: ls[i as int]->0[j as int], ..ms[i as int] };
                            assert(ms[i as int] == from@[i as int]@);
                            assert(c@ == cv);
                            assert(resolved_before(ms, ls, i as int, j as int + 1) =~= before.insert(cv)) by {
                                assert forall|x: NetConfigView| resolved_before(ms, ls, i as int, j as int + 1).contains(x)
                                    implies #[trigger] before.insert(cv).contains(x) by {
                                    let (a, b) = choose|a: int, b: int| {
                                        &&& 0 <= a < ms.len()
                                        &&& (a < i || (a == i && b < j + 1))
                                        &&& ls[a] is Some
                                        &&& 0 <= b < ls[a]->0.len()
                                        &&& x == NetConfigView { host: #[trigger] ls[a]->0[b], ..ms[a] }
                                    };
                                    if !(a == i && b == j) {
                                        assert(resolved_before(ms, ls, i as int, j as int).contains(x));
                                    }
                                }
                                assert(resolved_before(ms, ls, i as int, j as int + 1).contains(cv));
                            }
                        }
                        j = j + 1;
                    }
                    proof {
                        assert(resolved_before(ms, ls, i as int + 1, 0) =~= resolved_before(ms, ls, i as int, j as int));
                    }
                },
                None => {
                    proof {
                        assert(resolved_before(ms, ls, i as int + 1, 0) =~= resolved_before(ms, ls, i as int, 0));
                    }
                },
            }
            i = i + 1;
        }
        out
    }
}

} // verus!

verus! {

impl Cluster {
    /// The number of workers a cluster node spawns: every place that its pool
    /// has left but one, which the manager takes.
    pub fn worker_count(available: usize) -> (n: usize)
        requires
            available > 0,
        ensures
            n == available - 1,
    {
        available - 1
    }
}

} // verus!

verus! {

/// How long the cluster's network manager waits for connections to drain
/// when it stops, in milliseconds.
pub const CLUSTER_GRACEFUL_SHUTDOWN_MS: u64 = 10000;

/// How long the stopping network manager waits for UDP messages to end, in
/// milliseconds.
pub const CLUSTER_ON_STOP_UDP_TIMEOUT_MS: u64 = 3000;

/// One step of setting up a cluster node, performed in order once the
/// sharded router of the cluster pool (stopping neither with the system nor
/// when its targets run out) is running.
#[derive(Debug, Clone, Copy, PartialEq, Eq, Structural)]
pub enum ClusterStep {
    /// spawn the network worker with this number in the cluster pool
    SpawnWorker(usize),
    /// hand the worker with this number to the router
    AddWorkerToRouter(usize),
    /// spawn the network manager over the server configurations, the
    /// workers and the router
    SpawnManager,
}

/// How a cluster node is set up.
pub struct ClusterPlan {
    /// where the node listens
    pub servers: Vec<NetConfig>,
    /// the other members, their hosts resolved
    pub clients: Vec<NetConfig>,
    pub worker_count: usize,
    pub steps: Vec<ClusterStep>,
}

/// The steps for `w` workers: spawn them all, hand them all to the router,
/// then spawn the manager.
pub open spec fn cluster_steps(w: int) -> Seq<ClusterStep> {
    Seq::new((2 * w + 1) as nat, |k: int| {
        if k < w {
            ClusterStep::SpawnWorker(k as usize)
        } else if k < 2 * w {
            ClusterStep::AddWorkerToRouter((k - w) as usize)
        } else {
            ClusterStep::SpawnManager
        }
    })
}

impl Cluster {
    /// Plans a cluster node that listens where `hosts` say, knows the members
    /// `members_resolved`, and whose pool has `available` places once its
    /// router runs: every place but one gets a worker, the last one the
    /// manager. `None` where a listening address cannot be read (its port is
    /// no number) or no place is left.
    pub fn plan_cluster(hosts: &Vec<String>, members_resolved: Vec<NetConfig>, available: usize) -> (p: Option<ClusterPlan>)
        ensures
            p is Some <==> hosts_readable(hosts@.map_values(|s: String| s@)) && available > 0,
            p matches Some(plan) ==> {
                &&& plan.servers@.map_values(|c: NetConfig| c@)
                    == configs_from_hosts(hosts@.map_values(|s: String| s@), NetConnectionType::SERVER)
                &&& plan.clients@ == members_resolved@
                &&& plan.worker_count == available - 1
                &&& plan.steps@ == cluster_steps(available - 1)
            },
    {
        if available == 0 {
            return None;
        }
        let servers = match Self::try_generate_net_config(hosts, NetConnectionType::SERVER) {
            Some(s) => s,
            None => {
                return None;
            },
        };
        let w = Self::worker_count(available);
        let mut steps: Vec<ClusterStep> = Vec::new();
        let mut i: usize = 0;
        while i < w
            invariant
                i <= w,
                w < usize::MAX,
                steps@ == cluster_steps(w as int).take(i as int),
            decreases w - i,
        {
            steps.push(ClusterStep::SpawnWorker(i));
            i = i + 1;
            proof {
                assert(steps@ =~= cluster_steps(w as int).take(i as int));
            }
        }
        let mut k: usize = 0;
        while k < w
            invariant
                k <= w,
                w < usize::MAX,
                steps@ == cluster_steps(w as int).take(w + k),
            decreases w - k,
        {
            steps.push(ClusterStep::AddWorkerToRouter(k));
            k = k + 1;
            proof {
                assert(steps@ =~= cluster_steps(w as int).take(w + k));
            }
        }
        steps.push(ClusterStep::SpawnManager);
        proof {
            assert(steps@ =~= cluster_steps(w as int));
        }
        Some(ClusterPlan { servers, clients: members_resolved, worker_count: w, steps })
    }
}

} // verus!
