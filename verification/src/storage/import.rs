//! Import of hosts from an OpenSSH client configuration.
use vstd::prelude::*;
use crate::model::connection::{Connection, ConnectionView};
use crate::model::store::conn_views;
use crate::text::{chars_of, copy_opt, opt_view, views};

verus! {

#[verifier::external_type_specification]
#[verifier::external_body]
pub struct ExSshConfig(ssh2_config::SshConfig);

/// What the configuration gives for a host.
pub struct HostSettings {
    pub host_name: Option<String>,
    pub port: Option<u16>,
    pub user: Option<String>,
    pub identity_file: Option<String>,
}

/// Host settings as mathematical values.
pub struct HostSettingsView {
    pub host_name: Option<Seq<char>>,
    pub port: Option<u16>,
    pub user: Option<Seq<char>>,
    pub identity_file: Option<Seq<char>>,
}

impl View for HostSettings {
    type V = HostSettingsView;

    open spec fn view(&self) -> HostSettingsView {
        HostSettingsView {
            host_name: opt_view(self.host_name),
            port: self.port,
            user: opt_view(self.user),
            identity_file: opt_view(self.identity_file),
        }
    }
}

impl HostSettings {
    /// Settings that set nothing.
    pub fn unset() -> (s: HostSettings)
        ensures
            s.host_name is None,
            s.port is None,
            s.user is None,
            s.identity_file is None,
    {
        HostSettings { host_name: None, port: None, user: None, identity_file: None }
    }
}

/// The outcome of an import.
pub struct ImportResult {
    pub imported: Vec<Connection>,
    pub skipped_duplicates: Vec<String>,
    pub skipped_wildcards: Vec<String>,
}

/// What the configuration's settings for a host hold, as the parser gives
/// them: every identity file, in order.
pub struct QueriedParams {
    pub host_name: Option<String>,
    pub port: Option<u16>,
    pub user: Option<String>,
    pub identity_files: Option<Vec<String>>,
}

/// Queried settings as mathematical values.
pub struct QueriedParamsView {
    pub host_name: Option<Seq<char>>,
    pub port: Option<u16>,
    pub user: Option<Seq<char>>,
    pub identity_files: Option<Seq<Seq<char>>>,
}

impl View for QueriedParams {
    type V = QueriedParamsView;

    open spec fn view(&self) -> QueriedParamsView {
        QueriedParamsView {
            host_name: opt_view(self.host_name),
            port: self.port,
            user: opt_view(self.user),
            identity_files: match self.identity_files {
                Some(v) => Some(views(v@)),
                None => None,
            },
        }
    }
}

/// The patterns of each section's clauses, as text.
pub open spec fn section_views(v: Seq<Vec<String>>) -> Seq<Seq<Seq<char>>> {
    v.map_values(|c: Vec<String>| views(c@))
}

/// What the host sections of a parsed configuration hold: for each
/// section, in order, the patterns of its clauses, in order.
pub uninterp spec fn config_patterns(config: ssh2_config::SshConfig) -> Seq<Seq<Seq<char>>>;

/// The settings a parsed configuration gives a host name: its sections
/// that match the name, merged top-down.
pub uninterp spec fn config_settings(config: ssh2_config::SshConfig, host: Seq<char>) -> QueriedParamsView;

/// `ssh2_config::SshConfig::get_hosts`, each section taken by the patterns
/// of its clauses. Stated: the result is what the configuration's sections
/// hold; the sections themselves are the parser's.
#[verifier::external_body]
fn host_patterns(config: &ssh2_config::SshConfig) -> (r: Vec<Vec<String>>)
    ensures
        section_views(r@) == config_patterns(*config),
{
    config.get_hosts().iter().map(|h| h.pattern.iter().map(|c| c.pattern.clone()).collect()).collect()
}

/// `ssh2_config::SshConfig::query`: the settings the configuration gives a
/// host name, identity files as text. Stated: the result is the
/// configuration's settings for the name; the merging is the parser's.
#[verifier::external_body]
fn query_host(config: &ssh2_config::SshConfig, pattern: &str) -> (r: QueriedParams)
    ensures
        r@ == config_settings(*config, pattern@),
{
    let p = config.query(pattern);
    QueriedParams {
        host_name: p.host_name,
        port: p.port,
        user: p.user,
        identity_files: p.identity_file.map(|files| files.iter().map(|f| f.to_string_lossy().to_string()).collect()),
    }
}

/// The settings a host is imported with: those queried, with the first
/// identity file.
pub open spec fn settings_of(q: QueriedParamsView) -> HostSettingsView {
    HostSettingsView {
        host_name: q.host_name,
        port: q.port,
        user: q.user,
        identity_file: match q.identity_files {
            Some(v) => if v.len() > 0 { Some(v[0]) } else { None },
            None => None,
        },
    }
}

/// The import settings of queried settings: the first identity file is
/// the one used.
pub fn host_settings(q: QueriedParams) -> (r: HostSettings)
    ensures
        r@ == settings_of(q@),
{
    let identity_file = match q.identity_files {
        Some(files) => if files.len() > 0 {
            Some(files[0].clone())
        } else {
            None
        },
        None => None,
    };
    HostSettings { host_name: q.host_name, port: q.port, user: q.user, identity_file }
}

/// Whether a host pattern matches several hosts (holds `*` or `?`).
pub open spec fn is_wildcard(p: Seq<char>) -> bool {
    exists|i: int| 0 <= i < p.len() && (p[i] == '*' || p[i] == '?')
}

/// Whether a host pattern holds `*` or `?`.
pub fn has_wildcard(p: &str) -> (r: bool)
    ensures
        r == is_wildcard(p@),
{
    let v = chars_of(p);
    let mut i: usize = 0;
    while i < v.len()
        invariant
            v@ == p@,
            i <= v.len(),
            forall|k: int| 0 <= k < i ==> !(v@[k] == '*' || v@[k] == '?'),
        decreases v.len() - i,
    {
        if v[i] == '*' || v[i] == '?' {
            return true;
        }
        i = i + 1;
    }
    false
}

/// The host name a host is imported with: the configured one, or the pattern.
pub open spec fn import_host(p: Seq<char>, s: HostSettingsView) -> Seq<char> {
    match s.host_name {
        Some(h) => h,
        None => p,
    }
}

/// The port a host is imported with: the configured one, or 22.
pub open spec fn import_port(s: HostSettingsView) -> u16 {
    match s.port {
        Some(p) => p,
        None => 22,
    }
}

/// Whether an existing connection already reaches the same host, user and port.
pub open spec fn is_duplicate(existing: Seq<ConnectionView>, p: Seq<char>, s: HostSettingsView) -> bool {
    exists|k: int|
        0 <= k < existing.len() && (#[trigger] existing[k]).host == import_host(p, s) && existing[k].user
            == s.user && existing[k].port == import_port(s)
}

/// Whether `c` is the connection imported for pattern `p` with settings `s`:
/// named by the pattern, with the host, port, user and identity file of the
/// settings, and nothing else set.
pub open spec fn is_import_of(c: ConnectionView, p: Seq<char>, s: HostSettingsView) -> bool {
    &&& c.id.len() == 36
    &&& c.name == p
    &&& c.host == import_host(p, s)
    &&& c.port == import_port(s)
    &&& c.user == s.user
    &&& c.identity_file == s.identity_file
    &&& c.group is None
    &&& c.tags.len() == 0
    &&& c.ssh_options.len() == 0
    &&& c.proxy_jump is None
    &&& c.created_at == c.updated_at
}

/// The views of the hosts of a configuration.
pub open spec fn host_views(v: Seq<(String, HostSettings)>) -> Seq<(Seq<char>, HostSettingsView)> {
    v.map_values(|h: (String, HostSettings)| (h.0@, h.1@))
}

/// The patterns of a list of hosts.
pub open spec fn patterns(v: Seq<(Seq<char>, HostSettingsView)>) -> Seq<Seq<char>> {
    v.map_values(|h: (Seq<char>, HostSettingsView)| h.0)
}

/// The hosts skipped as wildcards.
pub open spec fn wildcard_hosts(v: Seq<(Seq<char>, HostSettingsView)>) -> Seq<(Seq<char>, HostSettingsView)> {
    v.filter(|h: (Seq<char>, HostSettingsView)| is_wildcard(h.0))
}

/// The hosts skipped because an existing connection reaches them.
pub open spec fn duplicate_hosts(existing: Seq<ConnectionView>, v: Seq<(Seq<char>, HostSettingsView)>) -> Seq<(Seq<char>, HostSettingsView)> {
    v.filter(|h: (Seq<char>, HostSettingsView)| !is_wildcard(h.0) && is_duplicate(existing, h.0, h.1))
}

/// The hosts that are imported.
pub open spec fn new_hosts(existing: Seq<ConnectionView>, v: Seq<(Seq<char>, HostSettingsView)>) -> Seq<(Seq<char>, HostSettingsView)> {
    v.filter(|h: (Seq<char>, HostSettingsView)| !is_wildcard(h.0) && !is_duplicate(existing, h.0, h.1))
}

/// Whether an import result is the one for `hosts` next to `existing`.
pub open spec fn import_outcome(
    existing: Seq<ConnectionView>,
    hosts: Seq<(Seq<char>, HostSettingsView)>,
    imported: Seq<ConnectionView>,
    duplicates: Seq<Seq<char>>,
    wildcards: Seq<Seq<char>>,
) -> bool {
    &&& wildcards == patterns(wildcard_hosts(hosts))
    &&& duplicates == patterns(duplicate_hosts(existing, hosts))
    &&& imported.len() == new_hosts(existing, hosts).len()
    &&& forall|i: int| 0 <= i < imported.len() ==> is_import_of(#[trigger] imported[i], new_hosts(existing, hosts)[i].0, new_hosts(existing, hosts)[i].1)
}

/// Whether connection `e` reaches the host that `h` would be imported as:
/// the configured host name (or the pattern), the configured user, and the
/// configured port (or 22).
pub open spec fn reaches_host(e: ConnectionView, h: (Seq<char>, HostSettingsView)) -> bool {
    &&& e.host == (match h.1.host_name {
        Some(n) => n,
        None => h.0,
    })
    &&& e.user == h.1.user
    &&& e.port == (match h.1.port {
        Some(p) => p,
        None => 22u16,
    })
}

/// An import never adds a second connection to a saved host: no imported
/// connection has the host, user and port of an existing one. And it
/// skips nothing else: every host without a wildcard that no existing
/// connection reaches (with the port it is imported with) is imported,
/// named by its pattern, with that host, user and port; and every imported
/// connection comes from such a host.
pub proof fn lemma_import_no_duplicates(
    existing: Seq<ConnectionView>,
    hosts: Seq<(Seq<char>, HostSettingsView)>,
    imported: Seq<ConnectionView>,
    duplicates: Seq<Seq<char>>,
    wildcards: Seq<Seq<char>>,
)
    requires
        import_outcome(existing, hosts, imported, duplicates, wildcards),
    ensures
        forall|i: int, k: int| 0 <= i < imported.len() && 0 <= k < existing.len() ==> !(#[trigger] imported[i].host
            == #[trigger] existing[k].host && imported[i].user == existing[k].user && imported[i].port == existing[k].port),
        forall|j: int| 0 <= j < hosts.len() && !is_wildcard(hosts[j].0)
            && !(exists|k: int| 0 <= k < existing.len() && reaches_host(#[trigger] existing[k], hosts[j]))
            ==> exists|i: int| 0 <= i < imported.len() && (#[trigger] imported[i]).name == hosts[j].0
                && reaches_host(imported[i], hosts[j]),
        forall|i: int| 0 <= i < imported.len() ==> exists|j: int| 0 <= j < hosts.len()
            && (#[trigger] hosts[j]).0 == (#[trigger] imported[i]).name && !is_wildcard(hosts[j].0)
            && reaches_host(imported[i], hosts[j]),
{
    let nh = new_hosts(existing, hosts);
    let pred = |h: (Seq<char>, HostSettingsView)| !is_wildcard(h.0) && !is_duplicate(existing, h.0, h.1);
    assert forall|i: int, k: int| 0 <= i < imported.len() && 0 <= k < existing.len() implies !(#[trigger] imported[i].host
        == #[trigger] existing[k].host && imported[i].user == existing[k].user && imported[i].port == existing[k].port) by {
        hosts.lemma_filter_pred(pred, i);
        assert(is_import_of(imported[i], nh[i].0, nh[i].1));
        if imported[i].host == existing[k].host && imported[i].user == existing[k].user && imported[i].port == existing[k].port {
            assert(is_duplicate(existing, nh[i].0, nh[i].1));
        }
    }
    assert forall|j: int| 0 <= j < hosts.len() && !is_wildcard(hosts[j].0)
        && !(exists|k: int| 0 <= k < existing.len() && reaches_host(#[trigger] existing[k], hosts[j]))
        implies exists|i: int| 0 <= i < imported.len() && (#[trigger] imported[i]).name == hosts[j].0
            && reaches_host(imported[i], hosts[j]) by {
        let h = hosts[j];
        if is_duplicate(existing, h.0, h.1) {
            let k = choose|k: int| 0 <= k < existing.len() && (#[trigger] existing[k]).host == import_host(h.0, h.1)
                && existing[k].user == h.1.user && existing[k].port == import_port(h.1);
            assert(reaches_host(existing[k], h));
        }
        assert(pred(hosts[j]));
        hosts.lemma_filter_contains(pred, j);
        assert(nh.contains(h));
        let i = choose|i: int| 0 <= i < nh.len() && nh[i] == h;
        assert(is_import_of(imported[i], nh[i].0, nh[i].1));
        assert(reaches_host(imported[i], hosts[j]));
    }
    lemma_filter_within(hosts, pred);
    assert forall|i: int| 0 <= i < imported.len() implies exists|j: int| 0 <= j < hosts.len()
        && (#[trigger] hosts[j]).0 == (#[trigger] imported[i]).name && !is_wildcard(hosts[j].0)
        && reaches_host(imported[i], hosts[j]) by {
        hosts.lemma_filter_pred(pred, i);
        assert(is_import_of(imported[i], nh[i].0, nh[i].1));
        assert(hosts.contains(nh[i]));
        let j = choose|j: int| 0 <= j < hosts.len() && hosts[j] == nh[i];
        assert(reaches_host(imported[i], hosts[j]));
    }
}

/// What a filter keeps comes from the filtered list.
proof fn lemma_filter_within(v: Seq<(Seq<char>, HostSettingsView)>, pred: spec_fn((Seq<char>, HostSettingsView)) -> bool)
    ensures
        forall|i: int| 0 <= i < v.filter(pred).len() ==> v.contains(#[trigger] v.filter(pred)[i]),
    decreases v.len(),
{
    reveal_with_fuel(Seq::<(Seq<char>, HostSettingsView)>::filter, 1);
    if v.len() > 0 {
        let v0 = v.drop_last();
        lemma_filter_within(v0, pred);
        let f0 = v0.filter(pred);
        assert forall|i: int| 0 <= i < v.filter(pred).len() implies v.contains(#[trigger] v.filter(pred)[i]) by {
            if i < f0.len() {
                assert(v.filter(pred)[i] == f0[i]);
                let k = choose|k: int| 0 <= k < v0.len() && v0[k] == f0[i];
                assert(v[k] == v0[k]);
            } else {
                assert(v.filter(pred)[i] == v.last());
                assert(v[v.len() - 1] == v.last());
            }
        }
    }
}

/// Whether some connection of `existing` reaches host `host` as `user` on `port`.
fn reaches(existing: &[Connection], host: &String, user: &Option<String>, port: u16) -> (r: bool)
    ensures
        r == exists|k: int|
            0 <= k < existing@.len() && (#[trigger] conn_views(existing@)[k]).host == host@
                && conn_views(existing@)[k].user == opt_view(*user) && conn_views(existing@)[k].port == port,
{
    let mut i: usize = 0;
    while i < existing.len()
        invariant
            i <= existing.len(),
            forall|k: int|
                0 <= k < i ==> !((#[trigger] conn_views(existing@)[k]).host == host@
                    && conn_views(existing@)[k].user == opt_view(*user) && conn_views(existing@)[k].port == port),
        decreases existing.len() - i,
    {
        let c = &existing[i];
        assert(conn_views(existing@)[i as int] == c@);
        let same_user = match (&c.user, user) {
            (Some(a), Some(b)) => crate::text::text_eq(a.as_str(), b.as_str()),
            (None, None) => true,
            _ => false,
        };
        if crate::text::text_eq(c.host.as_str(), host.as_str()) && same_user && c.port == port {
            return true;
        }
        i = i + 1;
    }
    false
}

/// Sorts the hosts of a configuration into imported connections, hosts
/// skipped as duplicates of existing connections (same host, user and
/// port) and wildcard patterns, each list in the order of the hosts.
pub fn import_hosts(existing: &[Connection], hosts: Vec<(String, HostSettings)>) -> (r: ImportResult)
    ensures
        import_outcome(
            conn_views(existing@),
            host_views(hosts@),
            conn_views(r.imported@),
            views(r.skipped_duplicates@),
            views(r.skipped_wildcards@),
        ),
{
    let ghost ex = conn_views(existing@);
    let ghost hv = host_views(hosts@);
    let mut r = ImportResult { imported: Vec::new(), skipped_duplicates: Vec::new(), skipped_wildcards: Vec::new() };
    let mut src = hosts;
    let ghost mut i: int = 0;
    assert(hv.skip(0) =~= hv);
    assert(hv.take(0) =~= Seq::<(Seq<char>, HostSettingsView)>::empty());
    proof {
        reveal_with_fuel(Seq::<(Seq<char>, HostSettingsView)>::filter, 1);
        let e = hv.take(0);
        assert(wildcard_hosts(e) =~= e);
        assert(duplicate_hosts(ex, e) =~= e);
        assert(new_hosts(ex, e) =~= e);
        assert(patterns(e) =~= Seq::<Seq<char>>::empty());
        assert(views(r.skipped_wildcards@) =~= Seq::<Seq<char>>::empty());
        assert(views(r.skipped_duplicates@) =~= Seq::<Seq<char>>::empty());
        assert(conn_views(r.imported@) =~= Seq::<ConnectionView>::empty());
    }
    while src.len() > 0
        invariant
            0 <= i <= hv.len(),
            ex == conn_views(existing@),
            host_views(src@) == hv.skip(i),
            import_outcome(ex, hv.take(i), conn_views(r.imported@), views(r.skipped_duplicates@), views(r.skipped_wildcards@)),
        decreases src.len(),
    {
        assert(host_views(src@).len() == src@.len());
        assert(host_views(src@)[0] == hv.skip(i)[0]);
        let ghost old_src = src@;
        let (pattern, settings) = src.remove(0);
        let ghost h = hv[i];
        assert(h == (pattern@, settings@));
        assert(host_views(src@) =~= host_views(old_src).drop_first());
        assert(hv.skip(i).drop_first() =~= hv.skip(i + 1));
        let ghost pre = hv.take(i);
        let ghost post = hv.take(i + 1);
        assert(post.drop_last() =~= pre);
        assert(post.last() == h);
        proof {
            reveal_with_fuel(Seq::<(Seq<char>, HostSettingsView)>::filter, 1);
        }
        let ghost old_imp = conn_views(r.imported@);
        let ghost old_dup = views(r.skipped_duplicates@);
        let ghost old_wild = views(r.skipped_wildcards@);
        if has_wildcard(pattern.as_str()) {
            r.skipped_wildcards.push(pattern);
            assert(views(r.skipped_wildcards@) =~= old_wild.push(h.0));
            assert(patterns(wildcard_hosts(post)) =~= patterns(wildcard_hosts(pre)).push(h.0));
            assert(duplicate_hosts(ex, post) == duplicate_hosts(ex, pre));
            assert(new_hosts(ex, post) == new_hosts(ex, pre));
        } else {
            let host = match &settings.host_name {
                Some(n) => n.clone(),
                None => pattern.clone(),
            };
            let port = match settings.port {
                Some(p) => p,
                None => 22,
            };
            if reaches(existing, &host, &settings.user, port) {
                assert(is_duplicate(ex, h.0, h.1)) by {
                    let k = choose|k: int|
                        0 <= k < existing@.len() && (#[trigger] conn_views(existing@)[k]).host == host@
                            && conn_views(existing@)[k].user == opt_view(settings.user) && conn_views(existing@)[k].port == port;
                    assert(ex[k].host == import_host(h.0, h.1));
                }
                r.skipped_duplicates.push(pattern);
                assert(views(r.skipped_duplicates@) =~= old_dup.push(h.0));
                assert(patterns(duplicate_hosts(ex, post)) =~= patterns(duplicate_hosts(ex, pre)).push(h.0));
                assert(wildcard_hosts(post) == wildcard_hosts(pre));
                assert(new_hosts(ex, post) == new_hosts(ex, pre));
            } else {
                assert(!is_duplicate(ex, h.0, h.1)) by {
                    if is_duplicate(ex, h.0, h.1) {
                        let k = choose|k: int|
                            0 <= k < ex.len() && (#[trigger] ex[k]).host == import_host(h.0, h.1) && ex[k].user
                                == h.1.user && ex[k].port == import_port(h.1);
                        assert(conn_views(existing@)[k].host == host@);
                    }
                }
                let mut conn = Connection::new(pattern, host);
                conn.port = port;
                conn.user = copy_opt(&settings.user);
                conn.identity_file = copy_opt(&settings.identity_file);
                r.imported.push(conn);
                assert(conn_views(r.imported@) =~= old_imp.push(conn@));
                assert(new_hosts(ex, post) =~= new_hosts(ex, pre).push(h));
                assert(wildcard_hosts(post) == wildcard_hosts(pre));
                assert(duplicate_hosts(ex, post) == duplicate_hosts(ex, pre));
            }
        }
        proof {
            i = i + 1;
        }
    }
    assert(hv.take(i) =~= hv);
    r
}

/// Settings that set nothing, as mathematical values.
pub open spec fn unset_view() -> HostSettingsView {
    HostSettingsView { host_name: None, port: None, user: None, identity_file: None }
}

/// The hosts of a configuration's sections: each section with a clause,
/// in order, named by its first pattern, with the settings the
/// configuration gives it (none for a wildcard pattern, which is never
/// imported).
pub open spec fn config_hosts(config: ssh2_config::SshConfig, pats: Seq<Seq<Seq<char>>>) -> Seq<(Seq<char>, HostSettingsView)>
    decreases pats.len(),
{
    if pats.len() == 0 {
        Seq::empty()
    } else {
        let rest = config_hosts(config, pats.drop_last());
        if pats.last().len() > 0 {
            let p = pats.last()[0];
            rest.push((p, if is_wildcard(p) { unset_view() } else { settings_of(config_settings(config, p)) }))
        } else {
            rest
        }
    }
}

/// Imports the hosts of a parsed configuration next to the `existing`
/// connections: each section is named by its first pattern; hosts with a
/// wildcard pattern and hosts that an existing connection already reaches
/// are skipped.
pub fn import_ssh_config(existing: &[Connection], config: &ssh2_config::SshConfig) -> (r: ImportResult)
    ensures
        import_outcome(
            conn_views(existing@),
            config_hosts(*config, config_patterns(*config)),
            conn_views(r.imported@),
            views(r.skipped_duplicates@),
            views(r.skipped_wildcards@),
        ),
{
    let pats = host_patterns(config);
    let ghost ps = section_views(pats@);
    let mut hosts: Vec<(String, HostSettings)> = Vec::new();
    let mut i: usize = 0;
    while i < pats.len()
        invariant
            i <= pats.len(),
            ps == section_views(pats@),
            host_views(hosts@) == config_hosts(*config, ps.take(i as int)),
        decreases pats.len() - i,
    {
        assert(ps.take(i + 1).drop_last() =~= ps.take(i as int));
        assert(ps.take(i + 1).last() == views(pats@[i as int]@));
        let clauses = &pats[i];
        if clauses.len() > 0 {
            let p = &clauses[0];
            assert(p@ == ps[i as int][0]);
            let settings = if has_wildcard(p.as_str()) {
                HostSettings::unset()
            } else {
                host_settings(query_host(config, p.as_str()))
            };
            let ghost prev = hosts@;
            hosts.push((p.clone(), settings));
            assert(host_views(hosts@) =~= host_views(prev).push((p@, hosts@.last().1@)));
        }
        i = i + 1;
    }
    assert(ps.take(pats.len() as int) =~= ps);
    import_hosts(existing, hosts)
}

} // verus!
