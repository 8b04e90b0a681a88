//! A saved SSH connection and the command line that opens it.
use vstd::prelude::*;
use crate::text::{
    contains_text, copy_opt, copy_pairs, copy_texts, join, lemma_join_concat, lemma_join_push,
    lemma_text_less_transitive, lowercase, opt_view, owned, pair_views, push_decimal, push_text, decimal,
    text_before, text_contains, text_less, to_lower, views, lemma_parse_decimal, parse_u16,
};
use crate::model::ids::{new_id, Timestamp};

verus! {

/// A saved connection. `ssh_options` holds `-o` options as a map from
/// name to value: in increasing order of names, each name once (see
/// `options_in_key_order`), which is the order they are passed in.
#[derive(Debug, Clone)]
pub struct Connection {
    pub id: String,
    pub name: String,
    pub host: String,
    pub port: u16,
    pub user: Option<String>,
    pub identity_file: Option<String>,
    pub group: Option<String>,
    pub tags: Vec<String>,
    pub ssh_options: Vec<(String, String)>,
    pub proxy_jump: Option<String>,
    pub created_at: Timestamp,
    pub updated_at: Timestamp,
}

/// The contents of a connection as mathematical values.
pub struct ConnectionView {
    pub id: Seq<char>,
    pub name: Seq<char>,
    pub host: Seq<char>,
    pub port: u16,
    pub user: Option<Seq<char>>,
    pub identity_file: Option<Seq<char>>,
    pub group: Option<Seq<char>>,
    pub tags: Seq<Seq<char>>,
    pub ssh_options: Seq<(Seq<char>, Seq<char>)>,
    pub proxy_jump: Option<Seq<char>>,
    pub created_at: Timestamp,
    pub updated_at: Timestamp,
}

impl View for Connection {
    type V = ConnectionView;

    open spec fn view(&self) -> ConnectionView {
        ConnectionView {
            id: self.id@,
            name: self.name@,
            host: self.host@,
            port: self.port,
            user: opt_view(self.user),
            identity_file: opt_view(self.identity_file),
            group: opt_view(self.group),
            tags: views(self.tags@),
            ssh_options: pair_views(self.ssh_options@),
            proxy_jump: opt_view(self.proxy_jump),
            created_at: self.created_at,
            updated_at: self.updated_at,
        }
    }
}

/// Whether `-o` options form a map from name to value: names strictly
/// increase, so each name occurs once and the options are in name order.
pub open spec fn options_in_key_order(opts: Seq<(Seq<char>, Seq<char>)>) -> bool {
    forall|i: int, j: int| 0 <= i < j < opts.len() ==> text_less(#[trigger] opts[i].0, #[trigger] opts[j].0)
}

/// The port SSH uses when none is given.
pub open spec fn ssh_default_port() -> u16 {
    22
}

/// The port a connection uses unless told otherwise: 22.
pub fn default_port() -> (p: u16)
    ensures
        p == ssh_default_port(),
{
    22
}

/// `option + " " + value` as one command-line word pair.
pub open spec fn flag_part(flag: Seq<char>, value: Seq<char>) -> Seq<char> {
    flag + " "@ + value
}

/// The `name=value` form of an SSH option.
pub open spec fn option_text(o: (Seq<char>, Seq<char>)) -> Seq<char> {
    o.0 + "="@ + o.1
}

/// The words `-o name=value` for each option, in order.
pub open spec fn option_args(opts: Seq<(Seq<char>, Seq<char>)>) -> Seq<Seq<char>>
    decreases opts.len(),
{
    if opts.len() == 0 {
        Seq::empty()
    } else {
        option_args(opts.drop_last()) + seq!["-o"@, option_text(opts.last())]
    }
}

/// The parts `-o name=value` for each option, in order.
pub open spec fn option_parts(opts: Seq<(Seq<char>, Seq<char>)>) -> Seq<Seq<char>>
    decreases opts.len(),
{
    if opts.len() == 0 {
        Seq::empty()
    } else {
        option_parts(opts.drop_last()).push(flag_part("-o"@, option_text(opts.last())))
    }
}

/// The words of a flag that is given only when a value is present.
pub open spec fn opt_args(flag: Seq<char>, v: Option<Seq<char>>) -> Seq<Seq<char>> {
    match v {
        Some(x) => seq![flag, x],
        None => Seq::empty(),
    }
}

/// The part `flag value` of a flag that is given only when a value is present.
pub open spec fn opt_parts(flag: Seq<char>, v: Option<Seq<char>>) -> Seq<Seq<char>> {
    match v {
        Some(x) => seq![flag_part(flag, x)],
        None => Seq::empty(),
    }
}

/// The words of the port flag: none for the default port.
pub open spec fn port_args(flag: Seq<char>, port: u16) -> Seq<Seq<char>> {
    if port != 22 {
        seq![flag, decimal(port as nat)]
    } else {
        Seq::empty()
    }
}

/// The part of the port flag: none for the default port.
pub open spec fn port_parts(flag: Seq<char>, port: u16) -> Seq<Seq<char>> {
    if port != 22 {
        seq![flag_part(flag, decimal(port as nat))]
    } else {
        Seq::empty()
    }
}

/// The `ssh` options shared by every command that reaches the host:
/// port, user, identity file, jump host and `-o` options.
pub open spec fn ssh_option_args(c: ConnectionView) -> Seq<Seq<char>> {
    port_args("-p"@, c.port) + opt_args("-l"@, c.user) + opt_args("-i"@, c.identity_file)
        + opt_args("-J"@, c.proxy_jump) + option_args(c.ssh_options)
}

/// The words of the command that opens the connection: `ssh`, its options
/// and the host.
pub open spec fn ssh_args(c: ConnectionView) -> Seq<Seq<char>> {
    seq!["ssh"@] + ssh_option_args(c) + seq![c.host]
}

/// The parts of the displayed command, each flag with its value.
pub open spec fn ssh_parts(c: ConnectionView) -> Seq<Seq<char>> {
    seq!["ssh"@] + port_parts("-p"@, c.port) + opt_parts("-l"@, c.user) + opt_parts(
        "-i"@,
        c.identity_file,
    ) + opt_parts("-J"@, c.proxy_jump) + option_parts(c.ssh_options) + seq![c.host]
}

/// The command line shown for a connection.
pub open spec fn ssh_command_text(c: ConnectionView) -> Seq<char> {
    join(ssh_parts(c), " "@)
}

/// The group of a connection, or the empty text.
pub open spec fn group_or_empty(c: ConnectionView) -> Seq<char> {
    match c.group {
        Some(g) => g,
        None => Seq::empty(),
    }
}

/// Whether a connection matches a search query: the lowercased query occurs
/// in the lowercased name, host, group or one of the tags.
pub open spec fn matches_query_spec(c: ConnectionView, query: Seq<char>) -> bool {
    let q = lowercase(query);
    ||| contains_text(lowercase(c.name), q)
    ||| contains_text(lowercase(c.host), q)
    ||| contains_text(lowercase(group_or_empty(c)), q)
    ||| exists|i: int| 0 <= i < c.tags.len() && contains_text(lowercase(#[trigger] c.tags[i]), q)
}

/// A search matches a connection exactly when the lowercased query occurs
/// in its lowercased name, host or group, or in any one of its lowercased
/// tags, whichever position that tag has.
pub proof fn lemma_query_match_fields(c: ConnectionView, query: Seq<char>)
    ensures
        forall|i: int| 0 <= i < c.tags.len() && contains_text(lowercase(#[trigger] c.tags[i]), lowercase(query))
            ==> matches_query_spec(c, query),
        contains_text(lowercase(c.name), lowercase(query)) ==> matches_query_spec(c, query),
        contains_text(lowercase(c.host), lowercase(query)) ==> matches_query_spec(c, query),
        (c.group matches Some(g) && contains_text(lowercase(g), lowercase(query))) ==> matches_query_spec(c, query),
        matches_query_spec(c, query) ==> (contains_text(lowercase(c.name), lowercase(query))
            || contains_text(lowercase(c.host), lowercase(query))
            || contains_text(lowercase(group_or_empty(c)), lowercase(query))
            || exists|i: int| 0 <= i < c.tags.len() && contains_text(lowercase(#[trigger] c.tags[i]), lowercase(query))),
{
}

/// Adding tags, before or after the others, never loses a match.
pub proof fn lemma_query_match_more_tags(c: ConnectionView, extra: Seq<Seq<char>>, query: Seq<char>)
    requires
        matches_query_spec(c, query),
    ensures
        matches_query_spec(ConnectionView { tags: extra + c.tags, ..c }, query),
        matches_query_spec(ConnectionView { tags: c.tags + extra, ..c }, query),
{
    let d1 = ConnectionView { tags: extra + c.tags, ..c };
    let d2 = ConnectionView { tags: c.tags + extra, ..c };
    let q = lowercase(query);
    if exists|i: int| 0 <= i < c.tags.len() && contains_text(lowercase(#[trigger] c.tags[i]), q) {
        let i = choose|i: int| 0 <= i < c.tags.len() && contains_text(lowercase(#[trigger] c.tags[i]), q);
        assert(d1.tags[extra.len() + i] == c.tags[i]);
        assert(d2.tags[i] == c.tags[i]);
    }
}

/// Appends the words of a flag whose value may be missing.
pub fn push_opt_args(args: &mut Vec<String>, flag: &str, v: &Option<String>)
    ensures
        views(final(args)@) == views(old(args)@) + opt_args(flag@, opt_view(*v)),
{
    let ghost before = views(args@);
    match v {
        Some(x) => {
            args.push(owned(flag));
            args.push(x.clone());
        },
        None => {},
    }
    assert(views(args@) =~= before + opt_args(flag@, opt_view(*v)));
}

/// Appends the words of the port flag.
pub fn push_port_args(args: &mut Vec<String>, flag: &str, port: u16)
    ensures
        views(final(args)@) == views(old(args)@) + port_args(flag@, port),
{
    let ghost before = views(args@);
    if port != 22 {
        args.push(owned(flag));
        let mut d = String::new();
        push_decimal(&mut d, port as u64);
        args.push(d);
    }
    assert(views(args@) =~= before + port_args(flag@, port));
}

/// Appends `-o name=value` for each option.
pub fn push_option_args(args: &mut Vec<String>, opts: &Vec<(String, String)>)
    ensures
        views(final(args)@) == views(old(args)@) + option_args(pair_views(opts@)),
{
    let ghost before = views(args@);
    let mut i: usize = 0;
    while i < opts.len()
        invariant
            i <= opts.len(),
            views(args@) == before + option_args(pair_views(opts@).take(i as int)),
        decreases opts.len() - i,
    {
        let ghost pv = pair_views(opts@);
        assert(pv.take(i + 1).drop_last() =~= pv.take(i as int));
        assert(pv.take(i + 1).last() == (opts@[i as int].0@, opts@[i as int].1@));
        let ghost prev = args@;
        let flag = owned("-o");
        let mut kv = opts[i].0.clone();
        push_text(&mut kv, "=");
        push_text(&mut kv, opts[i].1.as_str());
        assert(kv@ == option_text(pv.take(i + 1).last()));
        args.push(flag);
        args.push(kv);
        assert(views(args@) =~= views(prev) + seq!["-o"@, kv@]);
        assert(views(args@) =~= before + option_args(pv.take(i + 1)));
        i = i + 1;
    }
    assert(pair_views(opts@).take(opts.len() as int) =~= pair_views(opts@));
}

/// Appends the shared `ssh` options of a connection.
pub fn push_ssh_option_args(args: &mut Vec<String>, c: &Connection)
    ensures
        views(final(args)@) == views(old(args)@) + ssh_option_args(c@),
{
    let ghost before = views(args@);
    push_port_args(args, "-p", c.port);
    push_opt_args(args, "-l", &c.user);
    push_opt_args(args, "-i", &c.identity_file);
    push_opt_args(args, "-J", &c.proxy_jump);
    push_option_args(args, &c.ssh_options);
    assert(views(args@) =~= before + ssh_option_args(c@));
}

/// Joining the words of the option flags gives their displayed parts.
proof fn lemma_join_option_args(prefix: Seq<Seq<char>>, opts: Seq<(Seq<char>, Seq<char>)>)
    requires
        prefix.len() >= 1,
    ensures
        join(prefix + option_args(opts), " "@) == join(prefix + option_parts(opts), " "@),
    decreases opts.len(),
{
    if opts.len() == 0 {
        assert(prefix + option_args(opts) =~= prefix);
        assert(prefix + option_parts(opts) =~= prefix);
    } else {
        let rest = opts.drop_last();
        lemma_join_option_args(prefix, rest);
        let w = seq!["-o"@, option_text(opts.last())];
        assert(prefix + option_args(opts) =~= (prefix + option_args(rest)) + w);
        lemma_join_concat(prefix + option_args(rest), w, " "@);
        assert(w =~= seq!["-o"@].push(option_text(opts.last())));
        lemma_join_push(seq!["-o"@], option_text(opts.last()), " "@);
        assert(join(seq!["-o"@], " "@) == "-o"@);
        assert(prefix + option_parts(opts) =~= (prefix + option_parts(rest)).push(
            flag_part("-o"@, option_text(opts.last())),
        ));
        lemma_join_push(prefix + option_parts(rest), flag_part("-o"@, option_text(opts.last())), " "@);
        assert((prefix + option_parts(rest)).len() >= 1);
        assert(join(prefix + option_parts(rest), " "@) == join(prefix + option_args(rest), " "@));
        assert(join(w, " "@) =~= flag_part("-o"@, option_text(opts.last())));
    }
}

/// Joining the words of a flag pair (or of nothing) gives its displayed part.
proof fn lemma_join_pair(prefix: Seq<Seq<char>>, words: Seq<Seq<char>>, parts: Seq<Seq<char>>)
    requires
        prefix.len() >= 1,
        words.len() == 0 ==> parts.len() == 0,
        words.len() != 0 ==> words.len() == 2 && parts.len() == 1 && parts[0] == flag_part(
            words[0],
            words[1],
        ),
    ensures
        join(prefix + words, " "@) == join(prefix + parts, " "@),
{
    if words.len() == 0 {
        assert(prefix + words =~= prefix);
        assert(prefix + parts =~= prefix);
    } else {
        lemma_join_concat(prefix, words, " "@);
        assert(words =~= seq![words[0]].push(words[1]));
        lemma_join_push(seq![words[0]], words[1], " "@);
        assert(prefix + parts =~= prefix.push(parts[0]));
        lemma_join_push(prefix, parts[0], " "@);
        assert(join(seq![words[0]], " "@) == words[0]);
    }
}

/// Lists that join to the same text still do so with the same suffix.
proof fn lemma_join_congruence(a: Seq<Seq<char>>, b: Seq<Seq<char>>, c: Seq<Seq<char>>)
    requires
        a.len() >= 1,
        b.len() >= 1,
        join(a, " "@) == join(b, " "@),
    ensures
        join(a + c, " "@) == join(b + c, " "@),
{
    if c.len() == 0 {
        assert(a + c =~= a);
        assert(b + c =~= b);
    } else {
        lemma_join_concat(a, c, " "@);
        lemma_join_concat(b, c, " "@);
    }
}

/// A flag given as its words `w` and as its displayed parts `p`.
pub open spec fn pair_ok(w: Seq<Seq<char>>, p: Seq<Seq<char>>) -> bool {
    ||| w.len() == 0 && p.len() == 0
    ||| w.len() == 2 && p.len() == 1 && p[0] == flag_part(w[0], w[1])
}

/// Replacing flag words by their parts, one flag at a time, keeps the
/// joined text.
proof fn lemma_join_segments(
    a0: Seq<Seq<char>>,
    w1: Seq<Seq<char>>,
    p1: Seq<Seq<char>>,
    w2: Seq<Seq<char>>,
    p2: Seq<Seq<char>>,
    w3: Seq<Seq<char>>,
    p3: Seq<Seq<char>>,
    w4: Seq<Seq<char>>,
    p4: Seq<Seq<char>>,
    wo: Seq<Seq<char>>,
    po: Seq<Seq<char>>,
    h: Seq<Seq<char>>,
)
    requires
        a0.len() >= 1,
        pair_ok(w1, p1),
        pair_ok(w2, p2),
        pair_ok(w3, p3),
        pair_ok(w4, p4),
        join(a0 + p1 + p2 + p3 + p4 + wo, " "@) == join(a0 + p1 + p2 + p3 + p4 + po, " "@),
    ensures
        join(a0 + w1 + w2 + w3 + w4 + wo + h, " "@) == join(a0 + p1 + p2 + p3 + p4 + po + h, " "@),
{
    lemma_join_pair(a0, w1, p1);
    lemma_join_congruence(a0 + w1, a0 + p1, w2);
    lemma_join_pair(a0 + p1, w2, p2);
    lemma_join_congruence(a0 + w1 + w2, a0 + p1 + p2, w3);
    lemma_join_pair(a0 + p1 + p2, w3, p3);
    lemma_join_congruence(a0 + w1 + w2 + w3, a0 + p1 + p2 + p3, w4);
    lemma_join_pair(a0 + p1 + p2 + p3, w4, p4);
    lemma_join_congruence(a0 + w1 + w2 + w3 + w4, a0 + p1 + p2 + p3 + p4, wo);
    lemma_join_congruence(a0 + w1 + w2 + w3 + w4 + wo, a0 + p1 + p2 + p3 + p4 + po, h);
}

/// The `-o` words hold each option as `-o name=value`, in order, and
/// nothing else.
pub proof fn lemma_option_words(opts: Seq<(Seq<char>, Seq<char>)>)
    ensures
        option_args(opts).len() == 2 * opts.len(),
        forall|k: int| 0 <= k < opts.len() ==> #[trigger] option_pair(option_args(opts), k) == seq!["-o"@, option_text(opts[k])],
    decreases opts.len(),
{
    if opts.len() > 0 {
        let o0 = opts.drop_last();
        lemma_option_words(o0);
        let w0 = option_args(o0);
        let w = option_args(opts);
        assert(w == w0 + seq!["-o"@, option_text(opts.last())]);
        assert forall|k: int| 0 <= k < opts.len() implies #[trigger] option_pair(w, k) == seq!["-o"@, option_text(opts[k])] by {
            if k < o0.len() {
                assert(o0[k] == opts[k]);
                assert(option_pair(w0, k) == seq!["-o"@, option_text(o0[k])]);
                assert(option_pair(w, k) =~= option_pair(w0, k));
            } else {
                assert(opts[k] == opts.last());
                assert(option_pair(w, k) =~= seq!["-o"@, option_text(opts.last())]);
            }
        }
    }
}

/// The two words at pair position `k`.
pub open spec fn option_pair(w: Seq<Seq<char>>, k: int) -> Seq<Seq<char>> {
    w.subrange(2 * k, 2 * k + 2)
}

/// The `ssh` option words carry every setting of the connection, each
/// flag followed by its value: `-p` and the port (which reads back as the
/// port) unless it is 22, `-l` and the user, `-i` and the key, `-J` and the
/// jump host when they are set, and `-o name=value` for each option; there
/// are no other words.
pub proof fn lemma_ssh_option_words(c: ConnectionView)
    ensures
        ssh_option_args(c).len() == (if c.port != 22 { 2int } else { 0int }) + (if c.user is Some { 2int } else { 0int })
            + (if c.identity_file is Some { 2int } else { 0int }) + (if c.proxy_jump is Some { 2int } else { 0int })
            + 2 * c.ssh_options.len(),
        c.port != 22 ==> ssh_option_args(c)[0] == "-p"@ && parse_u16(ssh_option_args(c)[1]) == Some(c.port),
        c.user matches Some(u) ==> exists|i: int| 0 <= i < ssh_option_args(c).len() - 1
            && #[trigger] ssh_option_args(c)[i] == "-l"@ && ssh_option_args(c)[i + 1] == u,
        c.identity_file matches Some(k) ==> exists|i: int| 0 <= i < ssh_option_args(c).len() - 1
            && #[trigger] ssh_option_args(c)[i] == "-i"@ && ssh_option_args(c)[i + 1] == k,
        c.proxy_jump matches Some(j) ==> exists|i: int| 0 <= i < ssh_option_args(c).len() - 1
            && #[trigger] ssh_option_args(c)[i] == "-J"@ && ssh_option_args(c)[i + 1] == j,
        forall|k: int| 0 <= k < c.ssh_options.len() ==> exists|i: int| 0 <= i < ssh_option_args(c).len() - 1
            && #[trigger] ssh_option_args(c)[i] == "-o"@ && ssh_option_args(c)[i + 1] == option_text(#[trigger] c.ssh_options[k]),
{
    lemma_parse_decimal(c.port);
    lemma_option_words(c.ssh_options);
    let w = ssh_option_args(c);
    let a0 = port_args("-p"@, c.port);
    let a1 = opt_args("-l"@, c.user);
    let a2 = opt_args("-i"@, c.identity_file);
    let a3 = opt_args("-J"@, c.proxy_jump);
    let a4 = option_args(c.ssh_options);
    assert(w == a0 + a1 + a2 + a3 + a4);
    if c.user is Some {
        let i = a0.len() as int;
        assert(w[i] == a1[0] && w[i + 1] == a1[1]);
    }
    if c.identity_file is Some {
        let i = (a0.len() + a1.len()) as int;
        assert(w[i] == a2[0] && w[i + 1] == a2[1]);
    }
    if c.proxy_jump is Some {
        let i = (a0.len() + a1.len() + a2.len()) as int;
        assert(w[i] == a3[0] && w[i + 1] == a3[1]);
    }
    assert forall|k: int| 0 <= k < c.ssh_options.len() implies exists|i: int| 0 <= i < w.len() - 1
        && #[trigger] w[i] == "-o"@ && w[i + 1] == option_text(#[trigger] c.ssh_options[k]) by {
        let i = (a0.len() + a1.len() + a2.len() + a3.len()) as int + 2 * k;
        assert(option_pair(a4, k) == seq!["-o"@, option_text(c.ssh_options[k])]);
        assert(a4[2 * k] == option_pair(a4, k)[0] && a4[2 * k + 1] == option_pair(a4, k)[1]);
        assert(w[i] == a4[2 * k] && w[i + 1] == a4[2 * k + 1]);
    }
}

/// The command line shown for a connection is the words of the command that
/// opens it, separated by single spaces.
pub proof fn lemma_ssh_command_joins_args(c: ConnectionView)
    ensures
        join(ssh_args(c), " "@) == ssh_command_text(c),
{
    let a0 = seq!["ssh"@];
    let w1 = port_args("-p"@, c.port);
    let p1 = port_parts("-p"@, c.port);
    let w2 = opt_args("-l"@, c.user);
    let p2 = opt_parts("-l"@, c.user);
    let w3 = opt_args("-i"@, c.identity_file);
    let p3 = opt_parts("-i"@, c.identity_file);
    let w4 = opt_args("-J"@, c.proxy_jump);
    let p4 = opt_parts("-J"@, c.proxy_jump);
    let wo = option_args(c.ssh_options);
    let po = option_parts(c.ssh_options);
    let h = seq![c.host];
    assert(pair_ok(w1, p1));
    assert(pair_ok(w2, p2));
    assert(pair_ok(w3, p3));
    assert(pair_ok(w4, p4));
    lemma_join_option_args(a0 + p1 + p2 + p3 + p4, c.ssh_options);
    lemma_join_segments(a0, w1, p1, w2, p2, w3, p3, w4, p4, wo, po, h);
    assert(ssh_args(c) =~= a0 + w1 + w2 + w3 + w4 + wo + h);
    assert(ssh_parts(c) =~= a0 + p1 + p2 + p3 + p4 + po + h);
}

impl Connection {
    /// Whether the connection's options are in increasing order of names,
    /// each name once.
    pub fn options_in_order(&self) -> (r: bool)
        ensures
            r == options_in_key_order(self@.ssh_options),
    {
        let ghost o = self@.ssh_options;
        let n = self.ssh_options.len();
        if n == 0 {
            return true;
        }
        let mut i: usize = 1;
        while i < n
            invariant
                1 <= i <= n,
                n == self.ssh_options@.len(),
                o == pair_views(self.ssh_options@),
                options_in_key_order(o.take(i as int)),
            decreases n - i,
        {
            assert(o[i - 1].0 == self.ssh_options@[i - 1].0@);
            assert(o[i as int].0 == self.ssh_options@[i as int].0@);
            if !text_before(self.ssh_options[i - 1].0.as_str(), self.ssh_options[i].0.as_str()) {
                assert(!options_in_key_order(o)) by {
                    assert(o[i - 1].0 == o[i - 1].0 && o[i as int].0 == o[i as int].0);
                }
                return false;
            }
            assert(options_in_key_order(o.take(i + 1))) by {
                let t = o.take(i + 1);
                assert forall|a: int, b: int| 0 <= a < b < t.len() implies text_less(#[trigger] t[a].0, #[trigger] t[b].0) by {
                    if b == i {
                        if a < i - 1 {
                            assert(o.take(i as int)[a] == t[a]);
                            assert(o.take(i as int)[i - 1] == t[i - 1]);
                            lemma_text_less_transitive(t[a].0, t[i - 1].0, t[b].0);
                        }
                    } else {
                        assert(o.take(i as int)[a] == t[a] && o.take(i as int)[b] == t[b]);
                    }
                }
            }
            i = i + 1;
        }
        assert(o.take(n as int) =~= o);
        true
    }

    /// A connection to `host` on port 22 with a fresh id, created now.
    pub fn new(name: String, host: String) -> (c: Connection)
        ensures
            c@.id.len() == 36,
            c@.name == name@,
            c@.host == host@,
            c.port == 22,
            c.user is None,
            c.identity_file is None,
            c.group is None,
            c.tags@.len() == 0,
            c.ssh_options@.len() == 0,
            options_in_key_order(c@.ssh_options),
            c.proxy_jump is None,
            c.created_at == c.updated_at,
    {
        let now = Timestamp::now();
        Connection {
            id: new_id(),
            name,
            host,
            port: 22,
            user: None,
            identity_file: None,
            group: None,
            tags: Vec::new(),
            ssh_options: Vec::new(),
            proxy_jump: None,
            created_at: now,
            updated_at: now,
        }
    }

    /// A copy of the connection.
    pub fn duplicate(&self) -> (c: Connection)
        ensures
            c@ == self@,
    {
        Connection {
            id: self.id.clone(),
            name: self.name.clone(),
            host: self.host.clone(),
            port: self.port,
            user: copy_opt(&self.user),
            identity_file: copy_opt(&self.identity_file),
            group: copy_opt(&self.group),
            tags: copy_texts(&self.tags),
            ssh_options: copy_pairs(&self.ssh_options),
            proxy_jump: copy_opt(&self.proxy_jump),
            created_at: self.created_at,
            updated_at: self.updated_at,
        }
    }

    /// The command line that opens the connection, as shown to the user.
    pub fn ssh_command(&self) -> (s: String)
        requires
            options_in_key_order(self@.ssh_options),
        ensures
            s@ == ssh_command_text(self@),
    {
        let args = crate::ssh::system::SystemSshBackend::build_command(self);
        proof {
            lemma_ssh_command_joins_args(self@);
        }
        crate::text::join_texts(&args, " ")
    }

    /// Whether the connection matches a search query, ignoring case: the query
    /// occurs in the name, the host, the group or one of the tags.
    pub fn matches_query(&self, query: &str) -> (r: bool)
        ensures
            r == matches_query_spec(self@, query@),
    {
        let q = to_lower(query);
        if text_contains(to_lower(self.name.as_str()).as_str(), q.as_str()) {
            return true;
        }
        if text_contains(to_lower(self.host.as_str()).as_str(), q.as_str()) {
            return true;
        }
        let g = match &self.group {
            Some(g) => to_lower(g.as_str()),
            None => to_lower(""),
        };
        assert(self.group is None ==> ""@ == group_or_empty(self@)) by {
            reveal_strlit("");
        }
        if text_contains(g.as_str(), q.as_str()) {
            return true;
        }
        let mut i: usize = 0;
        while i < self.tags.len()
            invariant
                i <= self.tags.len(),
                q@ == lowercase(query@),
                forall|k: int|
                    0 <= k < i ==> !contains_text(lowercase(#[trigger] views(self.tags@)[k]), q@),
            decreases self.tags.len() - i,
        {
            if text_contains(to_lower(self.tags[i].as_str()).as_str(), q.as_str()) {
                assert(views(self.tags@)[i as int] == self.tags@[i as int]@);
                assert(self@.tags[i as int] == self.tags@[i as int]@);
                assert(contains_text(lowercase(self@.tags[i as int]), lowercase(query@)));
                return true;
            }
            i = i + 1;
        }
        false
    }
}

} // verus!
