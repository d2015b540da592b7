use vstd::prelude::*;
use vstd::string::*;
use crate::net::net_config::{NetConfig, NetConfigView, NetConnectionType, NetProtocol};

verus! {

/// `a` comes before `b` in the lexicographic order of their characters.
pub open spec fn chars_lt(a: Seq<char>, b: Seq<char>) -> bool
    decreases a.len(),
{
    if a.len() == 0 {
        b.len() > 0
    } else if b.len() == 0 {
        false
    } else if a[0] != b[0] {
        (a[0] as int) < (b[0] as int)
    } else {
        chars_lt(a.drop_first(), b.drop_first())
    }
}

pub open spec fn protocol_rank(p: NetProtocol) -> int {
    match p {
        NetProtocol::TCP => 0,
        NetProtocol::UDP => 1,
    }
}

pub open spec fn connection_rank(c: NetConnectionType) -> int {
    match c {
        NetConnectionType::CLIENT => 0,
        NetConnectionType::SERVER => 1,
    }
}

/// The order of configurations: by protocol (TCP first), then connection
/// type (clients first), then host, then port.
pub open spec fn config_lt(a: NetConfigView, b: NetConfigView) -> bool {
    if a.protocol != b.protocol {
        protocol_rank(a.protocol) < protocol_rank(b.protocol)
    } else if a.connection_type != b.connection_type {
        connection_rank(a.connection_type) < connection_rank(b.connection_type)
    } else if a.host != b.host {
        chars_lt(a.host, b.host)
    } else {
        a.port < b.port
    }
}

/// Each configuration of `s` comes before the ones that follow it, so none
/// occurs twice.
pub open spec fn strictly_sorted(s: Seq<NetConfigView>) -> bool {
    forall|i: int, j: int| 0 <= i < j < s.len() ==> config_lt(#[trigger] s[i], #[trigger] s[j])
}

/// The values of a sequence of configurations.
pub open spec fn config_views(v: Seq<NetConfig>) -> Seq<NetConfigView> {
    v.map_values(|c: NetConfig| c@)
}

pub proof fn lemma_chars_lt_irreflexive(a: Seq<char>)
    ensures
        !chars_lt(a, a),
    decreases a.len(),
{
    if a.len() > 0 {
        lemma_chars_lt_irreflexive(a.drop_first());
    }
}

pub proof fn lemma_chars_lt_transitive(a: Seq<char>, b: Seq<char>, c: Seq<char>)
    requires
        chars_lt(a, b),
        chars_lt(b, c),
    ensures
        chars_lt(a, c),
    decreases a.len(),
{
    if a.len() > 0 && b.len() > 0 && c.len() > 0 && a[0] == b[0] && b[0] == c[0] {
        lemma_chars_lt_transitive(a.drop_first(), b.drop_first(), c.drop_first());
    }
}

pub proof fn lemma_chars_lt_total(a: Seq<char>, b: Seq<char>)
    requires
        a != b,
    ensures
        chars_lt(a, b) || chars_lt(b, a),
    decreases a.len(),
{
    if a.len() > 0 && b.len() > 0 && a[0] == b[0] {
        if a.drop_first() == b.drop_first() {
            assert(a =~= seq![a[0]] + a.drop_first());
            assert(b =~= seq![b[0]] + b.drop_first());
        }
        lemma_chars_lt_total(a.drop_first(), b.drop_first());
    } else if a.len() > 0 && b.len() > 0 {
        assert((a[0] as int) != (b[0] as int));
    } else if a.len() == 0 && b.len() == 0 {
        assert(a =~= b);
    }
}

/// The order of configurations is a strict total order.
pub proof fn lemma_config_lt_order(a: NetConfigView, b: NetConfigView, c: NetConfigView)
    ensures
        !config_lt(a, a),
        config_lt(a, b) && config_lt(b, c) ==> config_lt(a, c),
        a != b ==> config_lt(a, b) || config_lt(b, a),
        config_lt(a, b) ==> !config_lt(b, a),
{
    lemma_chars_lt_irreflexive(a.host);
    if a.host != b.host {
        lemma_chars_lt_total(a.host, b.host);
    }
    if config_lt(a, b) && config_lt(b, c) && a.protocol == b.protocol && b.protocol == c.protocol
        && a.connection_type == b.connection_type && b.connection_type == c.connection_type {
        if a.host != b.host && b.host != c.host {
            lemma_chars_lt_transitive(a.host, b.host, c.host);
            if a.host == c.host {
                lemma_chars_lt_transitive(b.host, a.host, b.host);
                lemma_chars_lt_irreflexive(b.host);
            }
        }
    }
    if config_lt(a, b) && config_lt(b, a) && a.protocol == b.protocol
        && a.connection_type == b.connection_type && a.host != b.host {
        lemma_chars_lt_transitive(a.host, b.host, a.host);
    }
}

/// Whether `a` comes before `b` in the lexicographic order of their characters.
pub fn chars_less(a: &str, b: &str) -> (r: bool)
    ensures
        r == chars_lt(a@, b@),
{
    let la = a.unicode_len();
    let lb = b.unicode_len();
    let mut i: usize = 0;
    assert(a@.skip(0) =~= a@);
    assert(b@.skip(0) =~= b@);
    while i < la && i < lb
        invariant
            la == a@.len(),
            lb == b@.len(),
            i <= la,
            i <= lb,
            chars_lt(a@, b@) == chars_lt(a@.skip(i as int), b@.skip(i as int)),
        decreases la - i,
    {
        let ca = a.get_char(i);
        let cb = b.get_char(i);
        if ca != cb {
            assert(a@.skip(i as int)[0] == ca);
            assert(b@.skip(i as int)[0] == cb);
            return (ca as u32) < (cb as u32);
        }
        proof {
            assert(a@.skip(i as int).drop_first() =~= a@.skip(i as int + 1));
            assert(b@.skip(i as int).drop_first() =~= b@.skip(i as int + 1));
        }
        i = i + 1;
    }
    i == la && i < lb
}

/// Whether `a` comes before `b` in the order of configurations.
pub fn config_less(a: &NetConfig, b: &NetConfig) -> (r: bool)
    ensures
        r == config_lt(a@, b@),
{
    let pa: u8 = match a.protocol {
        NetProtocol::TCP => 0,
        NetProtocol::UDP => 1,
    };
    let pb: u8 = match b.protocol {
        NetProtocol::TCP => 0,
        NetProtocol::UDP => 1,
    };
    if pa != pb {
        return pa < pb;
    }
    let ca: u8 = match a.connection_type {
        NetConnectionType::CLIENT => 0,
        NetConnectionType::SERVER => 1,
    };
    let cb: u8 = match b.connection_type {
        NetConnectionType::CLIENT => 0,
        NetConnectionType::SERVER => 1,
    };
    if ca != cb {
        return ca < cb;
    }
    if a.host != b.host {
        return chars_less(a.host.as_str(), b.host.as_str());
    }
    a.port < b.port
}

/// Puts `c` into the sorted `v` at its place, unless `v` holds it already.
pub fn insert_sorted(v: &mut Vec<NetConfig>, c: NetConfig)
    requires
        strictly_sorted(config_views(old(v)@)),
    ensures
        strictly_sorted(config_views(final(v)@)),
        config_views(final(v)@).to_set() == config_views(old(v)@).to_set().insert(c@),
{
    let ghost old_views = config_views(v@);
    let mut k: usize = 0;
    while k < v.len() && config_less(&v[k], &c)
        invariant
            k <= v@.len(),
            v@ == old(v)@,
            old_views == config_views(v@),
            forall|j: int| 0 <= j < k ==> config_lt(#[trigger] old_views[j], c@),
        decreases v@.len() - k,
    {
        k = k + 1;
    }
    if k < v.len() && !config_less(&c, &v[k]) {
        proof {
            lemma_config_lt_order(c@, old_views[k as int], c@);
            assert(old_views[k as int] == c@);
            assert(old_views.to_set().insert(c@) =~= old_views.to_set());
        }
        return;
    }
    proof {
        assert forall|j: int| k <= j < old_views.len() implies config_lt(c@, #[trigger] old_views[j]) by {
            lemma_config_lt_order(c@, old_views[k as int], old_views[j]);
            lemma_config_lt_order(old_views[k as int], c@, c@);
            if j > k {
                assert(config_lt(old_views[k as int], old_views[j]));
            }
        }
    }
    let ghost cv = c@;
    v.insert(k, c);
    proof {
        let nv = config_views(v@);
        assert(nv =~= old_views.insert(k as int, cv));
        assert forall|i: int, j: int| 0 <= i < j < nv.len() implies config_lt(#[trigger] nv[i], #[trigger] nv[j]) by {
            if j < k {
                assert(nv[i] == old_views[i] && nv[j] == old_views[j]);
            } else if j == k {
                assert(nv[i] == old_views[i]);
            } else if i < k {
                lemma_config_lt_order(old_views[i], cv, old_views[j - 1]);
            } else if i == k {
                assert(nv[j] == old_views[j - 1]);
            } else {
                assert(nv[i] == old_views[i - 1] && nv[j] == old_views[j - 1]);
            }
        }
        assert forall|x: NetConfigView| nv.to_set().contains(x) <==> old_views.to_set().insert(cv).contains(x) by {
            if nv.to_set().contains(x) {
                let i = choose|i: int| 0 <= i < nv.len() && nv[i] == x;
                if i < k {
                    assert(old_views[i] == x);
                } else if i > k {
                    assert(old_views[i - 1] == x);
                }
            }
            if old_views.to_set().contains(x) {
                let i = choose|i: int| 0 <= i < old_views.len() && old_views[i] == x;
                if i < k {
                    assert(nv[i] == x);
                } else {
                    assert(nv[i + 1] == x);
                }
            }
            if x == cv {
                assert(nv[k as int] == x);
            }
        }
        assert(nv.to_set() =~= old_views.to_set().insert(cv));
    }
}

} // verus!
