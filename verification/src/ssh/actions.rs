//! Quick actions: remote commands with parameters filled in safely.
use vstd::prelude::*;
use crate::text::{
    alphanumeric, chars_of, contains_text, is_alphanumeric, occurs_at, owned, pair_views, push_char, push_text, replace_all,
    replace_text,
};

verus! {

/// The group an action is listed under.
#[derive(Debug, Clone, Copy, PartialEq, Eq, Structural)]
pub enum ActionCategory {
    SystemInfo,
    ServiceManagement,
    Network,
    Logs,
    Maintenance,
    Docker,
}

/// The heading shown for a category.
pub open spec fn category_label(c: ActionCategory) -> Seq<char> {
    match c {
        ActionCategory::SystemInfo => "System Info"@,
        ActionCategory::ServiceManagement => "Service Management"@,
        ActionCategory::Network => "Network"@,
        ActionCategory::Logs => "Logs"@,
        ActionCategory::Maintenance => "Maintenance"@,
        ActionCategory::Docker => "Docker"@,
    }
}

impl ActionCategory {
    /// The heading shown for the category.
    pub fn label(self) -> (r: &'static str)
        ensures
            r@ == category_label(self),
    {
        match self {
            ActionCategory::SystemInfo => "System Info",
            ActionCategory::ServiceManagement => "Service Management",
            ActionCategory::Network => "Network",
            ActionCategory::Logs => "Logs",
            ActionCategory::Maintenance => "Maintenance",
            ActionCategory::Docker => "Docker",
        }
    }
}

/// How the value of a parameter is entered.
#[derive(Debug, Clone, Copy)]
pub enum ParamType {
    /// Free text with a default value.
    Text { default: &'static str },
    /// One of the lines that a remote command prints.
    Select { fetch_command: &'static str },
    /// A yes/no confirmation.
    Confirm,
}

/// A parameter of an action; `{key}` in the template is replaced by its value.
#[derive(Debug, Clone, Copy)]
pub struct ActionParam {
    pub key: &'static str,
    pub label: &'static str,
    pub param_type: ParamType,
}

/// A predefined remote command.
#[derive(Debug, Clone)]
pub struct QuickAction {
    pub name: &'static str,
    pub category: ActionCategory,
    pub description: &'static str,
    pub command_template: &'static str,
    pub params: Vec<ActionParam>,
    pub confirm_message: Option<&'static str>,
}

/// How a parameter is entered, as mathematical values.
pub enum ParamTypeView {
    Text { default: Seq<char> },
    Select { fetch_command: Seq<char> },
    Confirm,
}

/// A parameter as mathematical values.
pub struct ActionParamView {
    pub key: Seq<char>,
    pub label: Seq<char>,
    pub param_type: ParamTypeView,
}

impl View for ActionParam {
    type V = ActionParamView;

    open spec fn view(&self) -> ActionParamView {
        ActionParamView {
            key: self.key@,
            label: self.label@,
            param_type: match self.param_type {
                ParamType::Text { default } => ParamTypeView::Text { default: default@ },
                ParamType::Select { fetch_command } => ParamTypeView::Select { fetch_command: fetch_command@ },
                ParamType::Confirm => ParamTypeView::Confirm,
            },
        }
    }
}

/// An action as mathematical values.
pub struct QuickActionView {
    pub name: Seq<char>,
    pub category: ActionCategory,
    pub description: Seq<char>,
    pub command_template: Seq<char>,
    pub params: Seq<ActionParamView>,
    pub confirm_message: Option<Seq<char>>,
}

impl View for QuickAction {
    type V = QuickActionView;

    open spec fn view(&self) -> QuickActionView {
        QuickActionView {
            name: self.name@,
            category: self.category,
            description: self.description@,
            command_template: self.command_template@,
            params: self.params@.map_values(|p: ActionParam| p@),
            confirm_message: match self.confirm_message {
                Some(m) => Some(m@),
                None => None,
            },
        }
    }
}

/// Characters that a shell takes literally outside quotes.
pub open spec fn shell_safe(c: char) -> bool {
    alphanumeric(c) || c == '-' || c == '_' || c == '.' || c == '/' || c == ':'
}

/// The shell-quoted form of a value: `''` for the empty value, the value
/// itself when all its characters are safe, and otherwise the value in
/// single quotes with each single quote written as `'\''`.
pub open spec fn escaped(s: Seq<char>) -> Seq<char> {
    if s.len() == 0 {
        "''"@
    } else if forall|i: int| 0 <= i < s.len() ==> shell_safe(#[trigger] s[i]) {
        s
    } else {
        "'"@ + replace_all(s, "'"@, "'\\''"@) + "'"@
    }
}

/// Quotes a value for a POSIX shell so that it stays one word and is not
/// interpreted.
pub fn shell_escape(s: &str) -> (r: String)
    ensures
        r@ == escaped(s@),
{
    let v = chars_of(s);
    if v.len() == 0 {
        return owned("''");
    }
    let mut i: usize = 0;
    let mut safe = true;
    while i < v.len()
        invariant
            v@ == s@,
            i <= v.len(),
            safe == (forall|k: int| 0 <= k < i ==> shell_safe(#[trigger] v@[k])),
        decreases v.len() - i,
    {
        let c = v[i];
        let ok = is_alphanumeric(c) || c == '-' || c == '_' || c == '.' || c == '/' || c == ':';
        if !ok {
            assert(!shell_safe(v@[i as int]));
        }
        safe = safe && ok;
        i = i + 1;
    }
    if safe {
        return owned(s);
    }
    proof {
        reveal_strlit("'");
    }
    let mut r = owned("'");
    let body = replace_text(s, "'", "'\\''");
    push_text(&mut r, body.as_str());
    push_text(&mut r, "'");
    r
}

/// The placeholder `{key}` of a parameter.
pub open spec fn placeholder(key: Seq<char>) -> Seq<char> {
    seq!['{'] + key + seq!['}']
}

/// The first of `values`, from the `j`th on, whose placeholder starts at
/// position `i` of `t`.
pub open spec fn value_at(t: Seq<char>, values: Seq<(Seq<char>, Seq<char>)>, i: int, j: int) -> Option<int>
    decreases values.len() - j,
{
    if j < 0 || j >= values.len() {
        None
    } else if occurs_at(t, placeholder(values[j].0), i) {
        Some(j)
    } else {
        value_at(t, values, i, j + 1)
    }
}

/// `t` from position `i` on, read once from left to right: where the
/// placeholder of one of `values` starts (the first such value), it is
/// replaced by the shell-quoted value and reading goes on after it; any
/// other character is kept.
pub open spec fn fill_from(t: Seq<char>, values: Seq<(Seq<char>, Seq<char>)>, i: int) -> Seq<char>
    decreases t.len() - i,
{
    if i < 0 || i >= t.len() {
        Seq::empty()
    } else {
        match value_at(t, values, i, 0) {
            Some(j) => if 0 <= j < values.len() && i + values[j].0.len() + 2 <= t.len() {
                escaped(values[j].1) + fill_from(t, values, i + values[j].0.len() + 2)
            } else {
                Seq::empty()
            },
            None => seq![t[i]] + fill_from(t, values, i + 1),
        }
    }
}

/// A template with each placeholder of `values` replaced, in a single
/// pass, by the shell-quoted value; replaced text is not read again.
pub open spec fn fill_template(t: Seq<char>, values: Seq<(Seq<char>, Seq<char>)>) -> Seq<char> {
    fill_from(t, values, 0)
}

/// Without values a template is kept as it is.
pub proof fn lemma_fill_without_values(t: Seq<char>, i: int)
    requires
        0 <= i <= t.len(),
    ensures
        fill_from(t, Seq::empty(), i) == t.skip(i),
    decreases t.len() - i,
{
    if i < t.len() {
        lemma_fill_without_values(t, i + 1);
        assert(t.skip(i) =~= seq![t[i]] + t.skip(i + 1));
    } else {
        assert(t.skip(i) =~= Seq::<char>::empty());
    }
}

/// `value_at` gives the first value from `a` on whose placeholder starts at `i`.
proof fn lemma_value_at(t: Seq<char>, values: Seq<(Seq<char>, Seq<char>)>, i: int, a: int, j: int)
    requires
        0 <= a <= j,
        j <= values.len(),
        forall|k: int| a <= k < j ==> !occurs_at(t, placeholder(#[trigger] values[k].0), i),
    ensures
        j < values.len() && occurs_at(t, placeholder(values[j].0), i) ==> value_at(t, values, i, a) == Some(j),
        j == values.len() ==> value_at(t, values, i, a) is None,
    decreases j - a,
{
    if a < j {
        lemma_value_at(t, values, i, a + 1, j);
    }
}

/// Whether `p` occurs in `t` at position `i`.
fn occurs_in_at(t: &Vec<char>, p: &Vec<char>, i: usize) -> (r: bool)
    ensures
        r == occurs_at(t@, p@, i as int),
{
    if i > t.len() || p.len() > t.len() - i {
        return false;
    }
    let mut k: usize = 0;
    while k < p.len()
        invariant
            i + p.len() <= t.len(),
            k <= p.len(),
            forall|m: int| 0 <= m < k ==> t@[i + m] == p@[m],
        decreases p.len() - k,
    {
        if t[i + k] != p[k] {
            assert(t@.subrange(i as int, i + p.len())[k as int] != p@[k as int]);
            return false;
        }
        k = k + 1;
    }
    assert(t@.subrange(i as int, i + p.len()) =~= p@);
    true
}

impl QuickAction {
    /// Whether the action asks for parameters.
    pub fn has_params(&self) -> (r: bool)
        ensures
            r == (self.params@.len() > 0),
    {
        self.params.len() > 0
    }

    /// A copy of the action.
    pub fn duplicate(&self) -> (r: QuickAction)
        ensures
            r@ == self@,
    {
        let mut params: Vec<ActionParam> = Vec::new();
        let mut i: usize = 0;
        while i < self.params.len()
            invariant
                i <= self.params.len(),
                params@ == self.params@.take(i as int),
            decreases self.params.len() - i,
        {
            params.push(self.params[i]);
            assert(self.params@.take(i + 1) =~= self.params@.take(i as int).push(self.params@[i as int]));
            i = i + 1;
        }
        assert(self.params@.take(self.params.len() as int) =~= self.params@);
        QuickAction {
            name: self.name,
            category: self.category,
            description: self.description,
            command_template: self.command_template,
            params,
            confirm_message: self.confirm_message,
        }
    }

    /// The command with each placeholder `{key}` of `values` replaced, in a
    /// single pass over the template, by the shell-quoted value.
    pub fn build_command(&self, values: &[(String, String)]) -> (r: String)
        ensures
            r@ == fill_template(self.command_template@, pair_views(values@)),
    {
        let ghost vs = pair_views(values@);
        let t = chars_of(self.command_template);
        let mut marks: Vec<Vec<char>> = Vec::new();
        let mut quoted: Vec<String> = Vec::new();
        let mut n: usize = 0;
        while n < values.len()
            invariant
                n <= values@.len(),
                vs == pair_views(values@),
                marks@.len() == n,
                quoted@.len() == n,
                forall|k: int| 0 <= k < n ==> (#[trigger] marks@[k])@ == placeholder(vs[k].0),
                forall|k: int| 0 <= k < n ==> (#[trigger] quoted@[k])@ == escaped(vs[k].1),
            decreases values.len() - n,
        {
            let mut m: Vec<char> = Vec::new();
            m.push('{');
            let key = chars_of(values[n].0.as_str());
            let mut c: usize = 0;
            while c < key.len()
                invariant
                    c <= key.len(),
                    m@ == seq!['{'] + key@.take(c as int),
                decreases key.len() - c,
            {
                m.push(key[c]);
                assert(key@.take(c + 1) =~= key@.take(c as int).push(key@[c as int]));
                c = c + 1;
            }
            m.push('}');
            assert(key@.take(key.len() as int) =~= key@);
            assert(m@ =~= placeholder(vs[n as int].0));
            marks.push(m);
            quoted.push(shell_escape(values[n].1.as_str()));
            n = n + 1;
        }
        let mut out = String::new();
        let mut i: usize = 0;
        while i < t.len()
            invariant
                i <= t.len(),
                t@ == self.command_template@,
                vs == pair_views(values@),
                marks@.len() == vs.len(),
                quoted@.len() == vs.len(),
                forall|k: int| 0 <= k < vs.len() ==> (#[trigger] marks@[k])@ == placeholder(vs[k].0),
                forall|k: int| 0 <= k < vs.len() ==> (#[trigger] quoted@[k])@ == escaped(vs[k].1),
                out@ + fill_from(t@, vs, i as int) == fill_template(t@, vs),
            decreases t.len() - i,
        {
            let mut j: usize = 0;
            let mut found = false;
            while j < marks.len()
                invariant
                    j <= marks.len(),
                    i < t.len(),
                    marks@.len() == vs.len(),
                    forall|k: int| 0 <= k < vs.len() ==> (#[trigger] marks@[k])@ == placeholder(vs[k].0),
                    found ==> j < vs.len() && occurs_at(t@, placeholder(vs[j as int].0), i as int),
                    forall|k: int| 0 <= k < j ==> !occurs_at(t@, placeholder(#[trigger] vs[k].0), i as int),
                ensures
                    found || j == marks.len(),
                decreases marks.len() - j,
            {
                if occurs_in_at(&t, &marks[j], i) {
                    found = true;
                    break;
                }
                j = j + 1;
            }
            proof {
                lemma_value_at(t@, vs, i as int, 0, j as int);
            }
            let ghost before = out@;
            if found {
                assert(marks@[j as int]@.len() == vs[j as int].0.len() + 2);
                assert(fill_from(t@, vs, i as int) == escaped(vs[j as int].1) + fill_from(
                    t@,
                    vs,
                    i + vs[j as int].0.len() + 2,
                ));
                push_text(&mut out, quoted[j].as_str());
                i = i + marks[j].len();
                assert(before + (escaped(vs[j as int].1) + fill_from(t@, vs, i as int)) =~= out@ + fill_from(
                    t@,
                    vs,
                    i as int,
                ));
            } else {
                assert(fill_from(t@, vs, i as int) == seq![t@[i as int]] + fill_from(t@, vs, i + 1));
                push_char(&mut out, t[i]);
                i = i + 1;
                assert(before + (seq![t@[i - 1]] + fill_from(t@, vs, i as int)) =~= out@ + fill_from(
                    t@,
                    vs,
                    i as int,
                ));
            }
        }
        out
    }
}


/// A parameter entered as free text with a default.
pub open spec fn text_param(key: Seq<char>, label: Seq<char>, default: Seq<char>) -> ActionParamView {
    ActionParamView { key, label, param_type: ParamTypeView::Text { default } }
}

/// A parameter chosen among the lines a remote command prints.
pub open spec fn select_param(key: Seq<char>, label: Seq<char>, fetch_command: Seq<char>) -> ActionParamView {
    ActionParamView { key, label, param_type: ParamTypeView::Select { fetch_command } }
}

/// An action of the catalogue.
pub open spec fn catalog_entry(
    name: Seq<char>,
    category: ActionCategory,
    description: Seq<char>,
    command_template: Seq<char>,
    params: Seq<ActionParamView>,
    confirm_message: Option<Seq<char>>,
) -> QuickActionView {
    QuickActionView { name, category, description, command_template, params, confirm_message }
}

/// The views of a list of actions.
pub open spec fn action_views(v: Seq<QuickAction>) -> Seq<QuickActionView> {
    v.map_values(|a: QuickAction| a@)
}

/// The number of predefined actions.
pub open spec fn action_count() -> nat {
    20
}

/// The predefined actions, in the order they are listed: grouped by
/// category in the order system info, service management, network, logs,
/// maintenance and Docker.
pub open spec fn action_catalog() -> Seq<QuickActionView> {
    seq![
        catalog_entry(
            "Disk Usage"@,
            ActionCategory::SystemInfo,
            "Show disk space usage"@,
            "df -h"@,
            Seq::empty(),
            None,
        ),
        catalog_entry(
            "Memory Usage"@,
            ActionCategory::SystemInfo,
            "Show RAM and swap usage"@,
            "free -h"@,
            Seq::empty(),
            None,
        ),
        catalog_entry(
            "System Uptime"@,
            ActionCategory::SystemInfo,
            "Show how long the server has been running"@,
            "uptime"@,
            Seq::empty(),
            None,
        ),
        catalog_entry(
            "Top Processes (CPU)"@,
            ActionCategory::SystemInfo,
            "Top 20 processes by CPU usage"@,
            "ps aux --sort=-%cpu | head -20"@,
            Seq::empty(),
            None,
        ),
        catalog_entry(
            "Top Processes (Memory)"@,
            ActionCategory::SystemInfo,
            "Top 20 processes by memory usage"@,
            "ps aux --sort=-%mem | head -20"@,
            Seq::empty(),
            None,
        ),
        catalog_entry(
            "OS & Kernel Info"@,
            ActionCategory::SystemInfo,
            "Show OS release and kernel version"@,
            "uname -a && cat /etc/os-release"@,
            Seq::empty(),
            None,
        ),
        catalog_entry(
            "Restart Service"@,
            ActionCategory::ServiceManagement,
            "Restart a running service"@,
            "sudo systemctl restart {service}"@,
            seq![select_param("service"@, "Service"@, "systemctl list-units --type=service --state=running --no-legend | awk '{print $1}'"@)],
            None,
        ),
        catalog_entry(
            "Stop Service"@,
            ActionCategory::ServiceManagement,
            "Stop a running service"@,
            "sudo systemctl stop {service}"@,
            seq![select_param("service"@, "Service"@, "systemctl list-units --type=service --state=running --no-legend | awk '{print $1}'"@)],
            None,
        ),
        catalog_entry(
            "Start Service"@,
            ActionCategory::ServiceManagement,
            "Start an inactive service"@,
            "sudo systemctl start {service}"@,
            seq![select_param("service"@, "Service"@, "systemctl list-units --type=service --state=inactive --no-legend | awk '{print $1}'"@)],
            None,
        ),
        catalog_entry(
            "Service Status"@,
            ActionCategory::ServiceManagement,
            "View status of a service"@,
            "systemctl status {service}"@,
            seq![select_param("service"@, "Service"@, "systemctl list-units --type=service --no-legend | awk '{print $1}'"@)],
            None,
        ),
        catalog_entry(
            "Service Logs"@,
            ActionCategory::ServiceManagement,
            "View recent logs for a service"@,
            "journalctl -u {service} -n {lines} --no-pager"@,
            seq![select_param("service"@, "Service"@, "systemctl list-units --type=service --no-legend | awk '{print $1}'"@), text_param("lines"@, "Lines"@, "50"@)],
            None,
        ),
        catalog_entry(
            "Listening Ports"@,
            ActionCategory::Network,
            "Show all listening TCP ports"@,
            "ss -tlnp"@,
            Seq::empty(),
            None,
        ),
        catalog_entry(
            "System Logs"@,
            ActionCategory::Logs,
            "View recent system journal entries"@,
            "journalctl -n {lines} --no-pager"@,
            seq![text_param("lines"@, "Lines"@, "50"@)],
            None,
        ),
        catalog_entry(
            "Search Logs"@,
            ActionCategory::Logs,
            "Search system logs by pattern"@,
            "journalctl --no-pager -n 200 | grep -i {pattern}"@,
            seq![text_param("pattern"@, "Search pattern"@, ""@)],
            None,
        ),
        catalog_entry(
            "Check Updates"@,
            ActionCategory::Maintenance,
            "Check for available package updates"@,
            "apt list --upgradable 2>/dev/null || yum check-update 2>/dev/null || dnf check-update 2>/dev/null"@,
            Seq::empty(),
            None,
        ),
        catalog_entry(
            "Reboot Server"@,
            ActionCategory::Maintenance,
            "Reboot the server immediately"@,
            "sudo reboot"@,
            Seq::empty(),
            Some("This will REBOOT the server. Are you sure?"@),
        ),
        catalog_entry(
            "Container Logs"@,
            ActionCategory::Docker,
            "View recent logs of a Docker container"@,
            "docker logs --tail {lines} {container}"@,
            seq![select_param("container"@, "Container"@, "docker ps --format '{{.Names}}'"@), text_param("lines"@, "Lines"@, "100"@)],
            None,
        ),
        catalog_entry(
            "Restart Container"@,
            ActionCategory::Docker,
            "Restart a running Docker container"@,
            "docker restart {container}"@,
            seq![select_param("container"@, "Container"@, "docker ps --format '{{.Names}}'"@)],
            None,
        ),
        catalog_entry(
            "Stop All Containers"@,
            ActionCategory::Docker,
            "Stop all running Docker containers"@,
            "docker stop $(docker ps -q)"@,
            Seq::empty(),
            Some("This will STOP ALL running containers. Are you sure?"@),
        ),
        catalog_entry(
            "Prune Unused Images"@,
            ActionCategory::Docker,
            "Remove all unused Docker images to free space"@,
            "docker image prune -af"@,
            Seq::empty(),
            Some("This will remove ALL unused Docker images. Are you sure?"@),
        ),
    ]
}

/// The order in which categories are listed.
pub open spec fn category_rank(c: ActionCategory) -> int {
    match c {
        ActionCategory::SystemInfo => 0,
        ActionCategory::ServiceManagement => 1,
        ActionCategory::Network => 2,
        ActionCategory::Logs => 3,
        ActionCategory::Maintenance => 4,
        ActionCategory::Docker => 5,
    }
}

/// Whether an action's parameters fit its template: each parameter's
/// placeholder occurs in the template, no two parameters share a key, and
/// none is a yes/no confirmation.
pub open spec fn params_fit(a: QuickActionView) -> bool {
    &&& forall|k: int| 0 <= k < a.params.len() ==> contains_text(a.command_template, placeholder(#[trigger] a.params[k].key))
    &&& forall|k1: int, k2: int| 0 <= k1 < k2 < a.params.len() ==> #[trigger] a.params[k1].key != #[trigger] a.params[k2].key
    &&& forall|k: int| 0 <= k < a.params.len() ==> !((#[trigger] a.params[k]).param_type is Confirm)
}

/// The catalogue is well formed: every action's parameters fit its
/// template, names are distinct, categories come in their listed order, and
/// exactly the reboot, stop-all-containers and image-prune actions ask for
/// confirmation.
pub proof fn lemma_catalog_well_formed()
    ensures
        action_catalog().len() == action_count(),
        forall|i: int| 0 <= i < action_catalog().len() ==> params_fit(#[trigger] action_catalog()[i]),
        forall|i: int, j: int| 0 <= i < j < action_catalog().len()
            ==> (#[trigger] action_catalog()[i]).name != (#[trigger] action_catalog()[j]).name,
        forall|i: int, j: int| 0 <= i < j < action_catalog().len()
            ==> category_rank((#[trigger] action_catalog()[i]).category) <= category_rank((#[trigger] action_catalog()[j]).category),
        forall|i: int| 0 <= i < action_catalog().len()
            ==> ((#[trigger] action_catalog()[i]).confirm_message is Some <==> (i == 15 || i == 18 || i == 19)),
{
    let c = action_catalog();
    reveal_strlit("Check Updates");
    reveal_strlit("Container Logs");
    reveal_strlit("Disk Usage");
    reveal_strlit("Listening Ports");
    reveal_strlit("Memory Usage");
    reveal_strlit("OS & Kernel Info");
    reveal_strlit("Prune Unused Images");
    reveal_strlit("Reboot Server");
    reveal_strlit("Restart Container");
    reveal_strlit("Restart Service");
    reveal_strlit("Search Logs");
    reveal_strlit("Service Logs");
    reveal_strlit("Service Status");
    reveal_strlit("Start Service");
    reveal_strlit("Stop All Containers");
    reveal_strlit("Stop Service");
    reveal_strlit("System Logs");
    reveal_strlit("System Uptime");
    reveal_strlit("Top Processes (CPU)");
    reveal_strlit("Top Processes (Memory)");
    reveal_strlit("apt list --upgradable 2>/dev/null || yum check-update 2>/dev/null || dnf check-update 2>/dev/null");
    reveal_strlit("container");
    reveal_strlit("df -h");
    reveal_strlit("docker image prune -af");
    reveal_strlit("docker logs --tail {lines} {container}");
    reveal_strlit("docker restart {container}");
    reveal_strlit("docker stop $(docker ps -q)");
    reveal_strlit("free -h");
    reveal_strlit("journalctl --no-pager -n 200 | grep -i {pattern}");
    reveal_strlit("journalctl -n {lines} --no-pager");
    reveal_strlit("journalctl -u {service} -n {lines} --no-pager");
    reveal_strlit("lines");
    reveal_strlit("pattern");
    reveal_strlit("ps aux --sort=-%cpu | head -20");
    reveal_strlit("ps aux --sort=-%mem | head -20");
    reveal_strlit("service");
    reveal_strlit("ss -tlnp");
    reveal_strlit("sudo reboot");
    reveal_strlit("sudo systemctl restart {service}");
    reveal_strlit("sudo systemctl start {service}");
    reveal_strlit("sudo systemctl stop {service}");
    reveal_strlit("systemctl status {service}");
    reveal_strlit("uname -a && cat /etc/os-release");
    reveal_strlit("uptime");
    assert forall|i: int| 0 <= i < c.len() implies params_fit(#[trigger] c[i]) by {
        if i == 6 {
            assert(c[6].command_template.subrange(23, 32) =~= placeholder(c[6].params[0].key));
            assert(occurs_at(c[6].command_template, placeholder(c[6].params[0].key), 23));
        } else if i == 7 {
            assert(c[7].command_template.subrange(20, 29) =~= placeholder(c[7].params[0].key));
            assert(occurs_at(c[7].command_template, placeholder(c[7].params[0].key), 20));
        } else if i == 8 {
            assert(c[8].command_template.subrange(21, 30) =~= placeholder(c[8].params[0].key));
            assert(occurs_at(c[8].command_template, placeholder(c[8].params[0].key), 21));
        } else if i == 9 {
            assert(c[9].command_template.subrange(17, 26) =~= placeholder(c[9].params[0].key));
            assert(occurs_at(c[9].command_template, placeholder(c[9].params[0].key), 17));
        } else if i == 10 {
            assert(c[10].command_template.subrange(14, 23) =~= placeholder(c[10].params[0].key));
            assert(occurs_at(c[10].command_template, placeholder(c[10].params[0].key), 14));
            assert(c[10].command_template.subrange(27, 34) =~= placeholder(c[10].params[1].key));
            assert(occurs_at(c[10].command_template, placeholder(c[10].params[1].key), 27));
        } else if i == 12 {
            assert(c[12].command_template.subrange(14, 21) =~= placeholder(c[12].params[0].key));
            assert(occurs_at(c[12].command_template, placeholder(c[12].params[0].key), 14));
        } else if i == 13 {
            assert(c[13].command_template.subrange(39, 48) =~= placeholder(c[13].params[0].key));
            assert(occurs_at(c[13].command_template, placeholder(c[13].params[0].key), 39));
        } else if i == 16 {
            assert(c[16].command_template.subrange(27, 38) =~= placeholder(c[16].params[0].key));
            assert(occurs_at(c[16].command_template, placeholder(c[16].params[0].key), 27));
            assert(c[16].command_template.subrange(19, 26) =~= placeholder(c[16].params[1].key));
            assert(occurs_at(c[16].command_template, placeholder(c[16].params[1].key), 19));
        } else if i == 17 {
            assert(c[17].command_template.subrange(15, 26) =~= placeholder(c[17].params[0].key));
            assert(occurs_at(c[17].command_template, placeholder(c[17].params[0].key), 15));
        }
    }
    assert forall|i: int, j: int| 0 <= i < j < c.len() implies (#[trigger] c[i]).name != (#[trigger] c[j]).name by {
        if i == 0 && j == 1 {
            assert(c[0].name.len() != c[1].name.len());
        } else if i == 0 && j == 2 {
            assert(c[0].name.len() != c[2].name.len());
        } else if i == 0 && j == 3 {
            assert(c[0].name.len() != c[3].name.len());
        } else if i == 0 && j == 4 {
            assert(c[0].name.len() != c[4].name.len());
        } else if i == 0 && j == 5 {
            assert(c[0].name.len() != c[5].name.len());
        } else if i == 0 && j == 6 {
            assert(c[0].name.len() != c[6].name.len());
        } else if i == 0 && j == 7 {
            assert(c[0].name.len() != c[7].name.len());
        } else if i == 0 && j == 8 {
            assert(c[0].name.len() != c[8].name.len());
        } else if i == 0 && j == 9 {
            assert(c[0].name.len() != c[9].name.len());
        } else if i == 0 && j == 10 {
            assert(c[0].name.len() != c[10].name.len());
        } else if i == 0 && j == 11 {
            assert(c[0].name.len() != c[11].name.len());
        } else if i == 0 && j == 12 {
            assert(c[0].name.len() != c[12].name.len());
        } else if i == 0 && j == 13 {
            assert(c[0].name.len() != c[13].name.len());
        } else if i == 0 && j == 14 {
            assert(c[0].name.len() != c[14].name.len());
        } else if i == 0 && j == 15 {
            assert(c[0].name.len() != c[15].name.len());
        } else if i == 0 && j == 16 {
            assert(c[0].name.len() != c[16].name.len());
        } else if i == 0 && j == 17 {
            assert(c[0].name.len() != c[17].name.len());
        } else if i == 0 && j == 18 {
            assert(c[0].name.len() != c[18].name.len());
        } else if i == 0 && j == 19 {
            assert(c[0].name.len() != c[19].name.len());
        } else if i == 1 && j == 2 {
            assert(c[1].name.len() != c[2].name.len());
        } else if i == 1 && j == 3 {
            assert(c[1].name.len() != c[3].name.len());
        } else if i == 1 && j == 4 {
            assert(c[1].name.len() != c[4].name.len());
        } else if i == 1 && j == 5 {
            assert(c[1].name.len() != c[5].name.len());
        } else if i == 1 && j == 6 {
            assert(c[1].name.len() != c[6].name.len());
        } else if i == 1 && j == 7 {
            assert(c[1].name[0] != c[7].name[0]);
        } else if i == 1 && j == 8 {
            assert(c[1].name.len() != c[8].name.len());
        } else if i == 1 && j == 9 {
            assert(c[1].name.len() != c[9].name.len());
        } else if i == 1 && j == 10 {
            assert(c[1].name[0] != c[10].name[0]);
        } else if i == 1 && j == 11 {
            assert(c[1].name.len() != c[11].name.len());
        } else if i == 1 && j == 12 {
            assert(c[1].name.len() != c[12].name.len());
        } else if i == 1 && j == 13 {
            assert(c[1].name.len() != c[13].name.len());
        } else if i == 1 && j == 14 {
            assert(c[1].name.len() != c[14].name.len());
        } else if i == 1 && j == 15 {
            assert(c[1].name.len() != c[15].name.len());
        } else if i == 1 && j == 16 {
            assert(c[1].name.len() != c[16].name.len());
        } else if i == 1 && j == 17 {
            assert(c[1].name.len() != c[17].name.len());
        } else if i == 1 && j == 18 {
            assert(c[1].name.len() != c[18].name.len());
        } else if i == 1 && j == 19 {
            assert(c[1].name.len() != c[19].name.len());
        } else if i == 2 && j == 3 {
            assert(c[2].name.len() != c[3].name.len());
        } else if i == 2 && j == 4 {
            assert(c[2].name.len() != c[4].name.len());
        } else if i == 2 && j == 5 {
            assert(c[2].name.len() != c[5].name.len());
        } else if i == 2 && j == 6 {
            assert(c[2].name.len() != c[6].name.len());
        } else if i == 2 && j == 7 {
            assert(c[2].name.len() != c[7].name.len());
        } else if i == 2 && j == 8 {
            assert(c[2].name[1] != c[8].name[1]);
        } else if i == 2 && j == 9 {
            assert(c[2].name.len() != c[9].name.len());
        } else if i == 2 && j == 10 {
            assert(c[2].name.len() != c[10].name.len());
        } else if i == 2 && j == 11 {
            assert(c[2].name.len() != c[11].name.len());
        } else if i == 2 && j == 12 {
            assert(c[2].name.len() != c[12].name.len());
        } else if i == 2 && j == 13 {
            assert(c[2].name.len() != c[13].name.len());
        } else if i == 2 && j == 14 {
            assert(c[2].name[0] != c[14].name[0]);
        } else if i == 2 && j == 15 {
            assert(c[2].name[0] != c[15].name[0]);
        } else if i == 2 && j == 16 {
            assert(c[2].name.len() != c[16].name.len());
        } else if i == 2 && j == 17 {
            assert(c[2].name.len() != c[17].name.len());
        } else if i == 2 && j == 18 {
            assert(c[2].name.len() != c[18].name.len());
        } else if i == 2 && j == 19 {
            assert(c[2].name.len() != c[19].name.len());
        } else if i == 3 && j == 4 {
            assert(c[3].name.len() != c[4].name.len());
        } else if i == 3 && j == 5 {
            assert(c[3].name.len() != c[5].name.len());
        } else if i == 3 && j == 6 {
            assert(c[3].name.len() != c[6].name.len());
        } else if i == 3 && j == 7 {
            assert(c[3].name.len() != c[7].name.len());
        } else if i == 3 && j == 8 {
            assert(c[3].name.len() != c[8].name.len());
        } else if i == 3 && j == 9 {
            assert(c[3].name.len() != c[9].name.len());
        } else if i == 3 && j == 10 {
            assert(c[3].name.len() != c[10].name.len());
        } else if i == 3 && j == 11 {
            assert(c[3].name.len() != c[11].name.len());
        } else if i == 3 && j == 12 {
            assert(c[3].name.len() != c[12].name.len());
        } else if i == 3 && j == 13 {
            assert(c[3].name.len() != c[13].name.len());
        } else if i == 3 && j == 14 {
            assert(c[3].name.len() != c[14].name.len());
        } else if i == 3 && j == 15 {
            assert(c[3].name.len() != c[15].name.len());
        } else if i == 3 && j == 16 {
            assert(c[3].name.len() != c[16].name.len());
        } else if i == 3 && j == 17 {
            assert(c[3].name.len() != c[17].name.len());
        } else if i == 3 && j == 18 {
            assert(c[3].name[0] != c[18].name[0]);
        } else if i == 3 && j == 19 {
            assert(c[3].name[0] != c[19].name[0]);
        } else if i == 4 && j == 5 {
            assert(c[4].name.len() != c[5].name.len());
        } else if i == 4 && j == 6 {
            assert(c[4].name.len() != c[6].name.len());
        } else if i == 4 && j == 7 {
            assert(c[4].name.len() != c[7].name.len());
        } else if i == 4 && j == 8 {
            assert(c[4].name.len() != c[8].name.len());
        } else if i == 4 && j == 9 {
            assert(c[4].name.len() != c[9].name.len());
        } else if i == 4 && j == 10 {
            assert(c[4].name.len() != c[10].name.len());
        } else if i == 4 && j == 11 {
            assert(c[4].name.len() != c[11].name.len());
        } else if i == 4 && j == 12 {
            assert(c[4].name.len() != c[12].name.len());
        } else if i == 4 && j == 13 {
            assert(c[4].name.len() != c[13].name.len());
        } else if i == 4 && j == 14 {
            assert(c[4].name.len() != c[14].name.len());
        } else if i == 4 && j == 15 {
            assert(c[4].name.len() != c[15].name.len());
        } else if i == 4 && j == 16 {
            assert(c[4].name.len() != c[16].name.len());
        } else if i == 4 && j == 17 {
            assert(c[4].name.len() != c[17].name.len());
        } else if i == 4 && j == 18 {
            assert(c[4].name.len() != c[18].name.len());
        } else if i == 4 && j == 19 {
            assert(c[4].name.len() != c[19].name.len());
        } else if i == 5 && j == 6 {
            assert(c[5].name.len() != c[6].name.len());
        } else if i == 5 && j == 7 {
            assert(c[5].name.len() != c[7].name.len());
        } else if i == 5 && j == 8 {
            assert(c[5].name.len() != c[8].name.len());
        } else if i == 5 && j == 9 {
            assert(c[5].name.len() != c[9].name.len());
        } else if i == 5 && j == 10 {
            assert(c[5].name.len() != c[10].name.len());
        } else if i == 5 && j == 11 {
            assert(c[5].name.len() != c[11].name.len());
        } else if i == 5 && j == 12 {
            assert(c[5].name.len() != c[12].name.len());
        } else if i == 5 && j == 13 {
            assert(c[5].name.len() != c[13].name.len());
        } else if i == 5 && j == 14 {
            assert(c[5].name.len() != c[14].name.len());
        } else if i == 5 && j == 15 {
            assert(c[5].name.len() != c[15].name.len());
        } else if i == 5 && j == 16 {
            assert(c[5].name.len() != c[16].name.len());
        } else if i == 5 && j == 17 {
            assert(c[5].name.len() != c[17].name.len());
        } else if i == 5 && j == 18 {
            assert(c[5].name.len() != c[18].name.len());
        } else if i == 5 && j == 19 {
            assert(c[5].name.len() != c[19].name.len());
        } else if i == 6 && j == 7 {
            assert(c[6].name.len() != c[7].name.len());
        } else if i == 6 && j == 8 {
            assert(c[6].name.len() != c[8].name.len());
        } else if i == 6 && j == 9 {
            assert(c[6].name.len() != c[9].name.len());
        } else if i == 6 && j == 10 {
            assert(c[6].name.len() != c[10].name.len());
        } else if i == 6 && j == 11 {
            assert(c[6].name[0] != c[11].name[0]);
        } else if i == 6 && j == 12 {
            assert(c[6].name.len() != c[12].name.len());
        } else if i == 6 && j == 13 {
            assert(c[6].name.len() != c[13].name.len());
        } else if i == 6 && j == 14 {
            assert(c[6].name.len() != c[14].name.len());
        } else if i == 6 && j == 15 {
            assert(c[6].name.len() != c[15].name.len());
        } else if i == 6 && j == 16 {
            assert(c[6].name.len() != c[16].name.len());
        } else if i == 6 && j == 17 {
            assert(c[6].name.len() != c[17].name.len());
        } else if i == 6 && j == 18 {
            assert(c[6].name.len() != c[18].name.len());
        } else if i == 6 && j == 19 {
            assert(c[6].name.len() != c[19].name.len());
        } else if i == 7 && j == 8 {
            assert(c[7].name.len() != c[8].name.len());
        } else if i == 7 && j == 9 {
            assert(c[7].name.len() != c[9].name.len());
        } else if i == 7 && j == 10 {
            assert(c[7].name[1] != c[10].name[1]);
        } else if i == 7 && j == 11 {
            assert(c[7].name.len() != c[11].name.len());
        } else if i == 7 && j == 12 {
            assert(c[7].name.len() != c[12].name.len());
        } else if i == 7 && j == 13 {
            assert(c[7].name.len() != c[13].name.len());
        } else if i == 7 && j == 14 {
            assert(c[7].name.len() != c[14].name.len());
        } else if i == 7 && j == 15 {
            assert(c[7].name.len() != c[15].name.len());
        } else if i == 7 && j == 16 {
            assert(c[7].name.len() != c[16].name.len());
        } else if i == 7 && j == 17 {
            assert(c[7].name.len() != c[17].name.len());
        } else if i == 7 && j == 18 {
            assert(c[7].name.len() != c[18].name.len());
        } else if i == 7 && j == 19 {
            assert(c[7].name.len() != c[19].name.len());
        } else if i == 8 && j == 9 {
            assert(c[8].name.len() != c[9].name.len());
        } else if i == 8 && j == 10 {
            assert(c[8].name.len() != c[10].name.len());
        } else if i == 8 && j == 11 {
            assert(c[8].name.len() != c[11].name.len());
        } else if i == 8 && j == 12 {
            assert(c[8].name.len() != c[12].name.len());
        } else if i == 8 && j == 13 {
            assert(c[8].name.len() != c[13].name.len());
        } else if i == 8 && j == 14 {
            assert(c[8].name[0] != c[14].name[0]);
        } else if i == 8 && j == 15 {
            assert(c[8].name[0] != c[15].name[0]);
        } else if i == 8 && j == 16 {
            assert(c[8].name.len() != c[16].name.len());
        } else if i == 8 && j == 17 {
            assert(c[8].name.len() != c[17].name.len());
        } else if i == 8 && j == 18 {
            assert(c[8].name.len() != c[18].name.len());
        } else if i == 8 && j == 19 {
            assert(c[8].name.len() != c[19].name.len());
        } else if i == 9 && j == 10 {
            assert(c[9].name.len() != c[10].name.len());
        } else if i == 9 && j == 11 {
            assert(c[9].name.len() != c[11].name.len());
        } else if i == 9 && j == 12 {
            assert(c[9].name.len() != c[12].name.len());
        } else if i == 9 && j == 13 {
            assert(c[9].name.len() != c[13].name.len());
        } else if i == 9 && j == 14 {
            assert(c[9].name.len() != c[14].name.len());
        } else if i == 9 && j == 15 {
            assert(c[9].name.len() != c[15].name.len());
        } else if i == 9 && j == 16 {
            assert(c[9].name[0] != c[16].name[0]);
        } else if i == 9 && j == 17 {
            assert(c[9].name.len() != c[17].name.len());
        } else if i == 9 && j == 18 {
            assert(c[9].name.len() != c[18].name.len());
        } else if i == 9 && j == 19 {
            assert(c[9].name.len() != c[19].name.len());
        } else if i == 10 && j == 11 {
            assert(c[10].name.len() != c[11].name.len());
        } else if i == 10 && j == 12 {
            assert(c[10].name.len() != c[12].name.len());
        } else if i == 10 && j == 13 {
            assert(c[10].name.len() != c[13].name.len());
        } else if i == 10 && j == 14 {
            assert(c[10].name.len() != c[14].name.len());
        } else if i == 10 && j == 15 {
            assert(c[10].name.len() != c[15].name.len());
        } else if i == 10 && j == 16 {
            assert(c[10].name.len() != c[16].name.len());
        } else if i == 10 && j == 17 {
            assert(c[10].name.len() != c[17].name.len());
        } else if i == 10 && j == 18 {
            assert(c[10].name.len() != c[18].name.len());
        } else if i == 10 && j == 19 {
            assert(c[10].name.len() != c[19].name.len());
        } else if i == 11 && j == 12 {
            assert(c[11].name.len() != c[12].name.len());
        } else if i == 11 && j == 13 {
            assert(c[11].name.len() != c[13].name.len());
        } else if i == 11 && j == 14 {
            assert(c[11].name.len() != c[14].name.len());
        } else if i == 11 && j == 15 {
            assert(c[11].name.len() != c[15].name.len());
        } else if i == 11 && j == 16 {
            assert(c[11].name.len() != c[16].name.len());
        } else if i == 11 && j == 17 {
            assert(c[11].name.len() != c[17].name.len());
        } else if i == 11 && j == 18 {
            assert(c[11].name.len() != c[18].name.len());
        } else if i == 11 && j == 19 {
            assert(c[11].name.len() != c[19].name.len());
        } else if i == 12 && j == 13 {
            assert(c[12].name[1] != c[13].name[1]);
        } else if i == 12 && j == 14 {
            assert(c[12].name.len() != c[14].name.len());
        } else if i == 12 && j == 15 {
            assert(c[12].name.len() != c[15].name.len());
        } else if i == 12 && j == 16 {
            assert(c[12].name.len() != c[16].name.len());
        } else if i == 12 && j == 17 {
            assert(c[12].name.len() != c[17].name.len());
        } else if i == 12 && j == 18 {
            assert(c[12].name.len() != c[18].name.len());
        } else if i == 12 && j == 19 {
            assert(c[12].name.len() != c[19].name.len());
        } else if i == 13 && j == 14 {
            assert(c[13].name.len() != c[14].name.len());
        } else if i == 13 && j == 15 {
            assert(c[13].name.len() != c[15].name.len());
        } else if i == 13 && j == 16 {
            assert(c[13].name.len() != c[16].name.len());
        } else if i == 13 && j == 17 {
            assert(c[13].name.len() != c[17].name.len());
        } else if i == 13 && j == 18 {
            assert(c[13].name.len() != c[18].name.len());
        } else if i == 13 && j == 19 {
            assert(c[13].name.len() != c[19].name.len());
        } else if i == 14 && j == 15 {
            assert(c[14].name[0] != c[15].name[0]);
        } else if i == 14 && j == 16 {
            assert(c[14].name.len() != c[16].name.len());
        } else if i == 14 && j == 17 {
            assert(c[14].name.len() != c[17].name.len());
        } else if i == 14 && j == 18 {
            assert(c[14].name.len() != c[18].name.len());
        } else if i == 14 && j == 19 {
            assert(c[14].name.len() != c[19].name.len());
        } else if i == 15 && j == 16 {
            assert(c[15].name.len() != c[16].name.len());
        } else if i == 15 && j == 17 {
            assert(c[15].name.len() != c[17].name.len());
        } else if i == 15 && j == 18 {
            assert(c[15].name.len() != c[18].name.len());
        } else if i == 15 && j == 19 {
            assert(c[15].name.len() != c[19].name.len());
        } else if i == 16 && j == 17 {
            assert(c[16].name.len() != c[17].name.len());
        } else if i == 16 && j == 18 {
            assert(c[16].name.len() != c[18].name.len());
        } else if i == 16 && j == 19 {
            assert(c[16].name.len() != c[19].name.len());
        } else if i == 17 && j == 18 {
            assert(c[17].name.len() != c[18].name.len());
        } else if i == 17 && j == 19 {
            assert(c[17].name.len() != c[19].name.len());
        } else if i == 18 && j == 19 {
            assert(c[18].name[0] != c[19].name[0]);
        }
    }
}

/// The predefined actions: exactly the catalogue.
pub fn build_actions() -> (r: Vec<QuickAction>)
    ensures
        action_views(r@) == action_catalog(),
        r@.len() == action_count(),
{
    let r = vec![
        QuickAction {
            name: "Disk Usage",
            category: ActionCategory::SystemInfo,
            description: "Show disk space usage",
            command_template: "df -h",
            params: vec![],
            confirm_message: None,
        },
        QuickAction {
            name: "Memory Usage",
            category: ActionCategory::SystemInfo,
            description: "Show RAM and swap usage",
            command_template: "free -h",
            params: vec![],
            confirm_message: None,
        },
        QuickAction {
            name: "System Uptime",
            category: ActionCategory::SystemInfo,
            description: "Show how long the server has been running",
            command_template: "uptime",
            params: vec![],
            confirm_message: None,
        },
        QuickAction {
            name: "Top Processes (CPU)",
            category: ActionCategory::SystemInfo,
            description: "Top 20 processes by CPU usage",
            command_template: "ps aux --sort=-%cpu | head -20",
            params: vec![],
            confirm_message: None,
        },
        QuickAction {
            name: "Top Processes (Memory)",
            category: ActionCategory::SystemInfo,
            description: "Top 20 processes by memory usage",
            command_template: "ps aux --sort=-%mem | head -20",
            params: vec![],
            confirm_message: None,
        },
        QuickAction {
            name: "OS & Kernel Info",
            category: ActionCategory::SystemInfo,
            description: "Show OS release and kernel version",
            command_template: "uname -a && cat /etc/os-release",
            params: vec![],
            confirm_message: None,
        },
        QuickAction {
            name: "Restart Service",
            category: ActionCategory::ServiceManagement,
            description: "Restart a running service",
            command_template: "sudo systemctl restart {service}",
            params: vec![ActionParam {
                key: "service",
                label: "Service",
                param_type: ParamType::Select {
                    fetch_command: "systemctl list-units --type=service --state=running --no-legend | awk '{print $1}'",
                },
            }],
            confirm_message: None,
        },
        QuickAction {
            name: "Stop Service",
            category: ActionCategory::ServiceManagement,
            description: "Stop a running service",
            command_template: "sudo systemctl stop {service}",
            params: vec![ActionParam {
                key: "service",
                label: "Service",
                param_type: ParamType::Select {
                    fetch_command: "systemctl list-units --type=service --state=running --no-legend | awk '{print $1}'",
                },
            }],
            confirm_message: None,
        },
        QuickAction {
            name: "Start Service",
            category: ActionCategory::ServiceManagement,
            description: "Start an inactive service",
            command_template: "sudo systemctl start {service}",
            params: vec![ActionParam {
                key: "service",
                label: "Service",
                param_type: ParamType::Select {
                    fetch_command: "systemctl list-units --type=service --state=inactive --no-legend | awk '{print $1}'",
                },
            }],
            confirm_message: None,
        },
        QuickAction {
            name: "Service Status",
            category: ActionCategory::ServiceManagement,
            description: "View status of a service",
            command_template: "systemctl status {service}",
            params: vec![ActionParam {
                key: "service",
                label: "Service",
                param_type: ParamType::Select {
                    fetch_command: "systemctl list-units --type=service --no-legend | awk '{print $1}'",
                },
            }],
            confirm_message: None,
        },
        QuickAction {
            name: "Service Logs",
            category: ActionCategory::ServiceManagement,
            description: "View recent logs for a service",
            command_template: "journalctl -u {service} -n {lines} --no-pager",
            params: vec![
                ActionParam {
                    key: "service",
                    label: "Service",
                    param_type: ParamType::Select {
                        fetch_command: "systemctl list-units --type=service --no-legend | awk '{print $1}'",
                    },
                },
                ActionParam {
                    key: "lines",
                    label: "Lines",
                    param_type: ParamType::Text { default: "50" },
                },
            ],
            confirm_message: None,
        },
        QuickAction {
            name: "Listening Ports",
            category: ActionCategory::Network,
            description: "Show all listening TCP ports",
            command_template: "ss -tlnp",
            params: vec![],
            confirm_message: None,
        },
        QuickAction {
            name: "System Logs",
            category: ActionCategory::Logs,
            description: "View recent system journal entries",
            command_template: "journalctl -n {lines} --no-pager",
            params: vec![ActionParam {
                key: "lines",
                label: "Lines",
                param_type: ParamType::Text { default: "50" },
            }],
            confirm_message: None,
        },
        QuickAction {
            name: "Search Logs",
            category: ActionCategory::Logs,
            description: "Search system logs by pattern",
            command_template: "journalctl --no-pager -n 200 | grep -i {pattern}",
            params: vec![ActionParam {
                key: "pattern",
                label: "Search pattern",
                param_type: ParamType::Text { default: "" },
            }],
            confirm_message: None,
        },
        QuickAction {
            name: "Check Updates",
            category: ActionCategory::Maintenance,
            description: "Check for available package updates",
            command_template: "apt list --upgradable 2>/dev/null || yum check-update 2>/dev/null || dnf check-update 2>/dev/null",
            params: vec![],
            confirm_message: None,
        },
        QuickAction {
            name: "Reboot Server",
            category: ActionCategory::Maintenance,
            description: "Reboot the server immediately",
            command_template: "sudo reboot",
            params: vec![],
            confirm_message: Some("This will REBOOT the server. Are you sure?"),
        },
        QuickAction {
            name: "Container Logs",
            category: ActionCategory::Docker,
            description: "View recent logs of a Docker container",
            command_template: "docker logs --tail {lines} {container}",
            params: vec![
                ActionParam {
                    key: "container",
                    label: "Container",
                    param_type: ParamType::Select {
                        fetch_command: "docker ps --format '{{.Names}}'",
                    },
                },
                ActionParam {
                    key: "lines",
                    label: "Lines",
                    param_type: ParamType::Text { default: "100" },
                },
            ],
            confirm_message: None,
        },
        QuickAction {
            name: "Restart Container",
            category: ActionCategory::Docker,
            description: "Restart a running Docker container",
            command_template: "docker restart {container}",
            params: vec![ActionParam {
                key: "container",
                label: "Container",
                param_type: ParamType::Select {
                    fetch_command: "docker ps --format '{{.Names}}'",
                },
            }],
            confirm_message: None,
        },
        QuickAction {
            name: "Stop All Containers",
            category: ActionCategory::Docker,
            description: "Stop all running Docker containers",
            command_template: "docker stop $(docker ps -q)",
            params: vec![],
            confirm_message: Some("This will STOP ALL running containers. Are you sure?"),
        },
        QuickAction {
            name: "Prune Unused Images",
            category: ActionCategory::Docker,
            description: "Remove all unused Docker images to free space",
            command_template: "docker image prune -af",
            params: vec![],
            confirm_message: Some("This will remove ALL unused Docker images. Are you sure?"),
        },
    ];
    assert(r@.len() == 20);
    assert(r@[0]@.params =~= action_catalog()[0].params);
    assert(r@[0]@ == action_catalog()[0]);
    assert(r@[1]@.params =~= action_catalog()[1].params);
    assert(r@[1]@ == action_catalog()[1]);
    assert(r@[2]@.params =~= action_catalog()[2].params);
    assert(r@[2]@ == action_catalog()[2]);
    assert(r@[3]@.params =~= action_catalog()[3].params);
    assert(r@[3]@ == action_catalog()[3]);
    assert(r@[4]@.params =~= action_catalog()[4].params);
    assert(r@[4]@ == action_catalog()[4]);
    assert(r@[5]@.params =~= action_catalog()[5].params);
    assert(r@[5]@ == action_catalog()[5]);
    assert(r@[6]@.params =~= action_catalog()[6].params);
    assert(r@[6]@ == action_catalog()[6]);
    assert(r@[7]@.params =~= action_catalog()[7].params);
    assert(r@[7]@ == action_catalog()[7]);
    assert(r@[8]@.params =~= action_catalog()[8].params);
    assert(r@[8]@ == action_catalog()[8]);
    assert(r@[9]@.params =~= action_catalog()[9].params);
    assert(r@[9]@ == action_catalog()[9]);
    assert(r@[10]@.params =~= action_catalog()[10].params);
    assert(r@[10]@ == action_catalog()[10]);
    assert(r@[11]@.params =~= action_catalog()[11].params);
    assert(r@[11]@ == action_catalog()[11]);
    assert(r@[12]@.params =~= action_catalog()[12].params);
    assert(r@[12]@ == action_catalog()[12]);
    assert(r@[13]@.params =~= action_catalog()[13].params);
    assert(r@[13]@ == action_catalog()[13]);
    assert(r@[14]@.params =~= action_catalog()[14].params);
    assert(r@[14]@ == action_catalog()[14]);
    assert(r@[15]@.params =~= action_catalog()[15].params);
    assert(r@[15]@ == action_catalog()[15]);
    assert(r@[16]@.params =~= action_catalog()[16].params);
    assert(r@[16]@ == action_catalog()[16]);
    assert(r@[17]@.params =~= action_catalog()[17].params);
    assert(r@[17]@ == action_catalog()[17]);
    assert(r@[18]@.params =~= action_catalog()[18].params);
    assert(r@[18]@ == action_catalog()[18]);
    assert(r@[19]@.params =~= action_catalog()[19].params);
    assert(r@[19]@ == action_catalog()[19]);
    assert(action_views(r@) =~= action_catalog());
    r
}


/// The words of the `ssh` command that runs `remote_cmd` on a connection:
/// the command that opens it, then the remote command.
pub fn build_ssh_command(conn: &crate::model::connection::Connection, remote_cmd: &str) -> (args: Vec<String>)
    requires
        crate::model::connection::options_in_key_order(conn@.ssh_options),
    ensures
        crate::text::views(args@) == crate::model::connection::ssh_args(conn@).push(remote_cmd@),
{
    let mut args = crate::ssh::system::SystemSshBackend::build_command(conn);
    let ghost a0 = crate::text::views(args@);
    args.push(owned(remote_cmd));
    assert(crate::text::views(args@) =~= a0.push(remote_cmd@));
    args
}

} // verus!
