//! What the sidebar shows of a workspace: whether coding agents run in its
//! terminals, and whether they have stalled, and its working directory in
//! short form.
use vstd::prelude::*;

use crate::dirs::home_dir;
use crate::text::{chars_of, push_char, starts_with};

verus! {

/// An agent that has produced no terminal output for longer than this many
/// seconds is stalled.
pub const AGENT_STALL_THRESHOLD_SECS: u64 = 60;

/// The agent activity of a panel or a workspace.
#[derive(Debug, Clone, Copy, PartialEq, Eq, Structural)]
pub enum AgentStatus {
    /// No agent runs.
    Inactive,
    /// An agent runs and produced output recently.
    Active,
    /// An agent runs but has produced no output for too long.
    Stalled,
}

/// A span of time, as std's `Duration` holds it.
#[derive(Debug, Clone, Copy, PartialEq, Eq, Structural)]
pub struct Elapsed {
    pub secs: u64,
    /// Below one second.
    pub nanos: u32,
}

/// What was detected in one terminal panel.
#[derive(Debug, Clone)]
pub struct PanelDetection {
    /// The panel.
    pub panel: u128,
    /// Whether an agent process runs in it.
    pub status: AgentStatus,
    /// The agent's name, where known.
    pub agent_name: Option<String>,
    /// The time since the panel last produced output; `None` where it never
    /// did.
    pub since_output: Option<Elapsed>,
}

/// Whether a span exceeds the stall threshold (strictly).
pub open spec fn past_threshold(e: Elapsed) -> bool {
    e.secs > AGENT_STALL_THRESHOLD_SECS || (e.secs == AGENT_STALL_THRESHOLD_SECS && e.nanos > 0)
}

/// Whether a panel's agent is stalled: it runs and has produced no output,
/// ever or for longer than the threshold.
pub open spec fn is_stalled(d: PanelDetection) -> bool {
    d.status == AgentStatus::Active && match d.since_output {
        Some(e) => past_threshold(e),
        None => true,
    }
}

/// Whether a panel's agent runs and is not stalled.
pub open spec fn is_live(d: PanelDetection) -> bool {
    d.status == AgentStatus::Active && !is_stalled(d)
}

/// The workspace status over its panels, by priority: Active over Stalled
/// over Inactive.
pub open spec fn workspace_status_spec(ds: Seq<PanelDetection>) -> AgentStatus {
    if exists|i: int| 0 <= i < ds.len() && is_live(#[trigger] ds[i]) {
        AgentStatus::Active
    } else if exists|i: int| 0 <= i < ds.len() && #[trigger] ds[i].status == AgentStatus::Active {
        AgentStatus::Stalled
    } else {
        AgentStatus::Inactive
    }
}

/// A workspace's agent status: Active when some panel's agent has produced
/// output within the last 60 seconds (exactly 60 still counts as recent);
/// Stalled when agents run but every one of them has been silent for longer
/// than that, or has never produced output; Inactive when no agent runs.
pub proof fn lemma_workspace_status_by_silence(ds: Seq<PanelDetection>)
    ensures
        workspace_status_spec(ds) == AgentStatus::Active <==> exists|i: int|
            0 <= i < ds.len() && (#[trigger] ds[i]).status == AgentStatus::Active && (match ds[i].since_output {
                Some(e) => e.secs < 60 || (e.secs == 60 && e.nanos == 0),
                None => false,
            }),
        workspace_status_spec(ds) == AgentStatus::Inactive <==> forall|i: int|
            0 <= i < ds.len() ==> (#[trigger] ds[i]).status != AgentStatus::Active,
{
    if exists|i: int|
        0 <= i < ds.len() && (#[trigger] ds[i]).status == AgentStatus::Active && (match ds[i].since_output {
                Some(e) => e.secs < 60 || (e.secs == 60 && e.nanos == 0),
                None => false,
            }) {
        let i = choose|i: int|
            0 <= i < ds.len() && (#[trigger] ds[i]).status == AgentStatus::Active && (match ds[i].since_output {
                Some(e) => e.secs < 60 || (e.secs == 60 && e.nanos == 0),
                None => false,
            });
        assert(is_live(ds[i]));
    }
    if exists|i: int| 0 <= i < ds.len() && is_live(#[trigger] ds[i]) {
        let i = choose|i: int| 0 <= i < ds.len() && is_live(#[trigger] ds[i]);
        assert(ds[i].status == AgentStatus::Active);
    }
    if exists|i: int| 0 <= i < ds.len() && #[trigger] ds[i].status == AgentStatus::Active {
        let i = choose|i: int| 0 <= i < ds.len() && #[trigger] ds[i].status == AgentStatus::Active;
    }
}

/// The view of a list of (panel, name) pairs.
pub open spec fn pairs_view(v: Seq<(u128, String)>) -> Seq<(u128, Seq<char>)> {
    v.map_values(|p: (u128, String)| (p.0, p.1@))
}

/// Whether no panel occurs twice among the pairs.
pub open spec fn distinct_panels(s: Seq<(u128, Seq<char>)>) -> bool {
    forall|i: int, j: int| 0 <= i < j < s.len() ==> #[trigger] s[i].0 != #[trigger] s[j].0
}

/// The pairs with `panel` now named `name`: its entry replaced in place where
/// it has one, else a new entry at the end (a map insertion that keeps the
/// order in which panels first appeared).
pub open spec fn set_agent_name(s: Seq<(u128, Seq<char>)>, panel: u128, name: Seq<char>) -> Seq<(u128, Seq<char>)> {
    if exists|k: int| 0 <= k < s.len() && #[trigger] s[k].0 == panel {
        let k = choose|k: int| 0 <= k < s.len() && #[trigger] s[k].0 == panel;
        s.update(k, (panel, name))
    } else {
        s.push((panel, name))
    }
}

/// The name of the agent running in each panel, one entry per panel: for a
/// panel detected more than once, the last name detected for it wins.
pub open spec fn agent_names(ds: Seq<PanelDetection>) -> Seq<(u128, Seq<char>)>
    decreases ds.len(),
{
    if ds.len() == 0 {
        Seq::empty()
    } else {
        let prev = agent_names(ds.drop_last());
        if ds.last().status == AgentStatus::Active && ds.last().agent_name is Some {
            set_agent_name(prev, ds.last().panel, ds.last().agent_name->Some_0@)
        } else {
            prev
        }
    }
}

/// Whether a detection names the agent running in its panel.
pub open spec fn runs_named_agent(d: PanelDetection) -> bool {
    d.status == AgentStatus::Active && d.agent_name is Some
}

/// Whether detection `i` is the last one that names a running agent in its
/// panel.
pub open spec fn last_named_detection(ds: Seq<PanelDetection>, i: int) -> bool {
    &&& 0 <= i < ds.len()
    &&& runs_named_agent(ds[i])
    &&& forall|j: int| i < j < ds.len() && runs_named_agent(#[trigger] ds[j]) ==> ds[j].panel != ds[i].panel
}

/// The entry of a detection that names a running agent.
pub open spec fn named_entry(d: PanelDetection) -> (u128, Seq<char>) {
    (d.panel, d.agent_name->Some_0@)
}

/// Whether `entry` is the panel and name of the last detection that names a
/// running agent in that panel.
pub open spec fn entry_of_last_detection(ds: Seq<PanelDetection>, entry: (u128, Seq<char>)) -> bool {
    exists|i: int| #[trigger] last_named_detection(ds, i) && entry == named_entry(ds[i])
}

/// Setting a panel's name changes one entry (or adds one at the end) and
/// keeps the panels distinct; the returned index is that entry's.
proof fn lemma_set_agent_name(s: Seq<(u128, Seq<char>)>, panel: u128, name: Seq<char>) -> (idx: int)
    requires
        distinct_panels(s),
    ensures
        0 <= idx < set_agent_name(s, panel, name).len(),
        idx <= s.len(),
        set_agent_name(s, panel, name).len() == if idx == s.len() { s.len() + 1 } else { s.len() + 0 },
        set_agent_name(s, panel, name)[idx] == (panel, name),
        forall|k: int| 0 <= k < s.len() && k != idx ==> #[trigger] set_agent_name(s, panel, name)[k] == s[k],
        forall|k: int| 0 <= k < s.len() && s[k].0 == panel ==> k == idx,
        distinct_panels(set_agent_name(s, panel, name)),
{
    if exists|k: int| 0 <= k < s.len() && #[trigger] s[k].0 == panel {
        let c = choose|k: int| 0 <= k < s.len() && #[trigger] s[k].0 == panel;
        let t = set_agent_name(s, panel, name);
        assert(t == s.update(c, (panel, name)));
        assert forall|a: int, b: int| 0 <= a < b < t.len() implies #[trigger] t[a].0 != #[trigger] t[b].0 by {
            if a != c && b != c {
                assert(s[a].0 != s[b].0);
            } else if a == c {
                assert(s[c].0 != s[b].0);
            } else {
                assert(s[a].0 != s[c].0);
            }
        }
        assert forall|k: int| 0 <= k < s.len() && s[k].0 == panel implies k == c by {
            if k < c {
                assert(s[k].0 != s[c].0);
            } else if k > c {
                assert(s[c].0 != s[k].0);
            }
        }
        c
    } else {
        let t = set_agent_name(s, panel, name);
        assert(t == s.push((panel, name)));
        assert forall|a: int, b: int| 0 <= a < b < t.len() implies #[trigger] t[a].0 != #[trigger] t[b].0 by {
            if b == s.len() {
                assert(t[a] == s[a]);
            } else {
                assert(s[a].0 != s[b].0);
            }
        }
        s.len() as int
    }
}

/// The agent names reported for a workspace: one entry per panel in which a
/// named agent was detected running, carrying the name of that panel's last
/// such detection, and no other entry; no panel has two entries.
pub proof fn lemma_agent_names_last_wins(ds: Seq<PanelDetection>)
    ensures
        distinct_panels(agent_names(ds)),
        forall|i: int|
            #[trigger] last_named_detection(ds, i) ==> agent_names(ds).contains(named_entry(ds[i])),
        forall|k: int|
            0 <= k < agent_names(ds).len() ==> entry_of_last_detection(ds, #[trigger] agent_names(ds)[k]),
    decreases ds.len(),
{
    if ds.len() > 0 {
        let prev_ds = ds.drop_last();
        lemma_agent_names_last_wins(prev_ds);
        let prev = agent_names(prev_ds);
        let r = agent_names(ds);
        let d = ds.last();
        let n = ds.len() - 1;
        assert forall|i: int| 0 <= i < n implies #[trigger] ds[i] == prev_ds[i] by {}
        if runs_named_agent(d) {
            let idx = lemma_set_agent_name(prev, d.panel, d.agent_name->Some_0@);
            assert(r == set_agent_name(prev, d.panel, d.agent_name->Some_0@));
            assert forall|i: int| #[trigger] last_named_detection(ds, i) implies r.contains(named_entry(ds[i])) by {
                if i == n {
                    assert(r[idx] == named_entry(ds[i]));
                } else {
                    assert(ds[n] == d);
                    assert(ds[i].panel != d.panel);
                    assert forall|j: int| i < j < prev_ds.len() && runs_named_agent(#[trigger] prev_ds[j]) implies
                        prev_ds[j].panel != prev_ds[i].panel by {
                        assert(ds[j] == prev_ds[j]);
                    }
                    assert(last_named_detection(prev_ds, i));
                    let k = choose|k: int| 0 <= k < prev.len() && prev[k] == named_entry(prev_ds[i]);
                    assert(k != idx);
                    assert(r[k] == prev[k]);
                }
            }
            assert forall|k: int| #![trigger r[k]] 0 <= k < r.len() implies exists|i: int|
                #[trigger] last_named_detection(ds, i) && r[k] == named_entry(ds[i]) by {
                if k == idx {
                    assert(ds[n] == d);
                    assert(last_named_detection(ds, n));
                } else {
                    assert(r[k] == prev[k]);
                    let i = choose|i: int| #[trigger] last_named_detection(prev_ds, i) && prev[k] == named_entry(
                        prev_ds[i],
                    );
                    assert(ds[i] == prev_ds[i]);
                    assert(prev[k].0 != d.panel);
                    assert forall|j: int| i < j < ds.len() && runs_named_agent(#[trigger] ds[j]) implies ds[j].panel
                        != ds[i].panel by {
                        if j < n {
                            assert(ds[j] == prev_ds[j]);
                        } else {
                            assert(ds[j] == d);
                        }
                    }
                    assert(last_named_detection(ds, i));
                }
            }
        } else {
            assert(r == prev);
            assert forall|i: int| #[trigger] last_named_detection(ds, i) implies r.contains(named_entry(ds[i])) by {
                assert(i != n);
                assert forall|j: int| i < j < prev_ds.len() && runs_named_agent(#[trigger] prev_ds[j]) implies
                    prev_ds[j].panel != prev_ds[i].panel by {
                    assert(ds[j] == prev_ds[j]);
                }
                assert(last_named_detection(prev_ds, i));
            }
            assert forall|k: int| #![trigger r[k]] 0 <= k < r.len() implies exists|i: int|
                #[trigger] last_named_detection(ds, i) && r[k] == named_entry(ds[i]) by {
                let i = choose|i: int| #[trigger] last_named_detection(prev_ds, i) && prev[k] == named_entry(
                    prev_ds[i],
                );
                assert(ds[i] == prev_ds[i]);
                assert forall|j: int| i < j < ds.len() && runs_named_agent(#[trigger] ds[j]) implies ds[j].panel
                    != ds[i].panel by {
                    if j < n {
                        assert(ds[j] == prev_ds[j]);
                    } else {
                        assert(ds[j] == d);
                    }
                }
                assert(last_named_detection(ds, i));
            }
        }
    } else {
        assert(agent_names(ds).len() == 0);
    }
}

/// Records `name` for `panel`, replacing an earlier name of that panel.
fn record_agent_name(names: &mut Vec<(u128, String)>, panel: u128, name: String)
    requires
        distinct_panels(pairs_view(old(names)@)),
    ensures
        pairs_view(final(names)@) == set_agent_name(pairs_view(old(names)@), panel, name@),
        distinct_panels(pairs_view(final(names)@)),
{
    let ghost s = pairs_view(names@);
    let mut j: usize = 0;
    while j < names.len()
        invariant
            0 <= j <= names@.len(),
            s == pairs_view(names@),
            s == pairs_view(old(names)@),
            distinct_panels(s),
            forall|k: int| 0 <= k < j ==> #[trigger] s[k].0 != panel,
        decreases names.len() - j,
    {
        if names[j].0 == panel {
            assert(s[j as int].0 == panel);
            proof {
                let c = choose|k: int| 0 <= k < s.len() && #[trigger] s[k].0 == panel;
                assert(c == j) by {
                    if c != j {
                        if c < j {
                            assert(s[c].0 != s[j as int].0);
                        } else {
                            assert(s[j as int].0 != s[c].0);
                        }
                    }
                }
            }
            names.set(j, (panel, name));
            assert(pairs_view(names@) =~= s.update(j as int, (panel, name@)));
            return;
        }
        j = j + 1;
    }
    names.push((panel, name));
    assert(pairs_view(names@) =~= s.push((panel, name@)));
}

/// The workspace's agent status and the names of its running agents by
/// panel.
///
/// A panel whose agent has produced no output for more than the threshold,
/// or never, is stalled; the workspace is Active if any agent is live,
/// Stalled if agents run but none is live, and Inactive otherwise.
pub fn resolve_agent_stall_status(detections: &[PanelDetection]) -> (r: (AgentStatus, Vec<(u128, String)>))
    ensures
        r.0 == workspace_status_spec(detections@),
        pairs_view(r.1@) == agent_names(detections@),
        distinct_panels(pairs_view(r.1@)),
{
    let mut overall = AgentStatus::Inactive;
    let mut names: Vec<(u128, String)> = Vec::new();
    let mut i: usize = 0;
    while i < detections.len()
        invariant
            0 <= i <= detections@.len(),
            overall == workspace_status_spec(detections@.take(i as int)),
            pairs_view(names@) == agent_names(detections@.take(i as int)),
            distinct_panels(pairs_view(names@)),
        decreases detections.len() - i,
    {
        let d = &detections[i];
        let ghost ds = detections@.take(i + 1);
        assert(ds.drop_last() =~= detections@.take(i as int));
        assert(ds.last() == detections@[i as int]);
        let ghost prev_names = pairs_view(names@);
        if d.status == AgentStatus::Active {
            let stalled = match d.since_output {
                Some(e) => e.secs > AGENT_STALL_THRESHOLD_SECS || (e.secs == AGENT_STALL_THRESHOLD_SECS
                    && e.nanos > 0),
                None => true,
            };
            let panel_status = if stalled { AgentStatus::Stalled } else { AgentStatus::Active };
            match (overall, panel_status) {
                (AgentStatus::Inactive, _) => overall = panel_status,
                (AgentStatus::Stalled, AgentStatus::Active) => overall = AgentStatus::Active,
                _ => {},
            }
            match &d.agent_name {
                Some(name) => record_agent_name(&mut names, d.panel, name.clone()),
                None => {},
            }
        }
        proof {
            let prev = detections@.take(i as int);
            assert forall|j: int| 0 <= j < ds.len() implies #[trigger] ds[j] == (if j < i {
                prev[j]
            } else {
                detections@[i as int]
            }) by {}
            if is_live(detections@[i as int]) {
                assert(is_live(ds[i as int]));
            }
            if detections@[i as int].status == AgentStatus::Active {
                assert(ds[i as int].status == AgentStatus::Active);
            }
            if exists|j: int| 0 <= j < prev.len() && is_live(#[trigger] prev[j]) {
                let j = choose|j: int| 0 <= j < prev.len() && is_live(#[trigger] prev[j]);
                assert(is_live(ds[j]));
            }
            if exists|j: int| 0 <= j < prev.len() && #[trigger] prev[j].status == AgentStatus::Active {
                let j = choose|j: int| 0 <= j < prev.len() && #[trigger] prev[j].status == AgentStatus::Active;
                assert(ds[j].status == AgentStatus::Active);
            }
            if exists|j: int| 0 <= j < ds.len() && is_live(#[trigger] ds[j]) {
                let j = choose|j: int| 0 <= j < ds.len() && is_live(#[trigger] ds[j]);
                if j < i {
                    assert(is_live(prev[j]));
                }
            }
            if exists|j: int| 0 <= j < ds.len() && #[trigger] ds[j].status == AgentStatus::Active {
                let j = choose|j: int| 0 <= j < ds.len() && #[trigger] ds[j].status == AgentStatus::Active;
                if j < i {
                    assert(prev[j].status == AgentStatus::Active);
                }
            }
            assert(pairs_view(names@) == if ds.last().status == AgentStatus::Active && ds.last().agent_name is Some {
                set_agent_name(prev_names, ds.last().panel, ds.last().agent_name->Some_0@)
            } else {
                prev_names
            });
        }
        i = i + 1;
    }
    assert(detections@.take(detections@.len() as int) =~= detections@);
    (overall, names)
}

/// A path with the home directory written as `~`, where it starts with it.
pub open spec fn shortened_spec(path: Seq<char>, home: Option<Seq<char>>) -> Seq<char> {
    match home {
        Some(h) => if starts_with(path, h) {
            seq!['~'] + path.skip(h.len() as int)
        } else {
            path
        },
        None => path,
    }
}

/// Shortening only replaces a leading home directory by `~`: putting the
/// home directory back in place of the `~` gives the path again, and a path
/// outside the home directory (or with no home known) is left as it is.
pub proof fn lemma_shortened_expands_back(path: Seq<char>, home: Seq<char>)
    ensures
        starts_with(path, home) ==> shortened_spec(path, Some(home))[0] == '~' && home + shortened_spec(
            path,
            Some(home),
        ).skip(1) == path,
        !starts_with(path, home) ==> shortened_spec(path, Some(home)) == path,
        shortened_spec(path, None) == path,
{
    if starts_with(path, home) {
        let r = shortened_spec(path, Some(home));
        assert(r.skip(1) =~= path.skip(home.len() as int));
        assert(home + r.skip(1) =~= path);
    }
}

/// A path with a known or unknown home directory written as `~`.
pub fn shorten_path_with(path: &str, home: Option<String>) -> (r: String)
    ensures
        r@ == shortened_spec(path@, crate::dirs::opt_view(home)),
{
    match home {
        Some(h) => {
            let p = chars_of(path);
            let hv = chars_of(h.as_str());
            if crate::text::starts_with_exec(&p, &hv) {
                let mut r = String::new();
                push_char(&mut r, '~');
                let rest = crate::text::string_from_range(&p, hv.len(), p.len());
                crate::text::push_str(&mut r, rest.as_str());
                assert(r@ =~= seq!['~'] + path@.skip(h@.len() as int));
                r
            } else {
                path.to_owned()
            }
        },
        None => path.to_owned(),
    }
}

/// A path with the user's home directory (`dirs::home_dir`) written as `~`.
pub fn shorten_path(path: &str) -> (r: String)
    ensures
        exists|home: Option<Seq<char>>| r@ == shortened_spec(path@, home),
{
    let home = home_dir();
    shorten_path_with(path, home)
}

/// The agent status shown in the status bar over all workspaces: Active if
/// any is, else Stalled if any is, else Inactive.
pub open spec fn overall_status_spec(statuses: Seq<AgentStatus>) -> AgentStatus {
    if statuses.contains(AgentStatus::Active) {
        AgentStatus::Active
    } else if statuses.contains(AgentStatus::Stalled) {
        AgentStatus::Stalled
    } else {
        AgentStatus::Inactive
    }
}

/// The status bar's status ranks Active over Stalled over Inactive: it is
/// Active when any workspace is Active, wherever it stands; otherwise
/// Stalled when any workspace is Stalled; otherwise Inactive. So it does not
/// depend on the order of the workspaces: any reordering of the same
/// statuses gives the same status.
pub proof fn lemma_overall_status_priority(statuses: Seq<AgentStatus>, reordered: Seq<AgentStatus>)
    ensures
        (exists|k: int| 0 <= k < statuses.len() && statuses[k] == AgentStatus::Active) ==> overall_status_spec(
            statuses,
        ) == AgentStatus::Active,
        (forall|k: int| 0 <= k < statuses.len() ==> statuses[k] != AgentStatus::Active) && (exists|k: int|
            0 <= k < statuses.len() && statuses[k] == AgentStatus::Stalled) ==> overall_status_spec(statuses)
            == AgentStatus::Stalled,
        (forall|k: int| 0 <= k < statuses.len() ==> statuses[k] == AgentStatus::Inactive) ==> overall_status_spec(
            statuses,
        ) == AgentStatus::Inactive,
        reordered.to_multiset() == statuses.to_multiset() ==> overall_status_spec(reordered) == overall_status_spec(
            statuses,
        ),
{
    if exists|k: int| 0 <= k < statuses.len() && statuses[k] == AgentStatus::Active {
        let k = choose|k: int| 0 <= k < statuses.len() && statuses[k] == AgentStatus::Active;
        assert(statuses.contains(AgentStatus::Active));
    }
    if exists|k: int| 0 <= k < statuses.len() && statuses[k] == AgentStatus::Stalled {
        let k = choose|k: int| 0 <= k < statuses.len() && statuses[k] == AgentStatus::Stalled;
        assert(statuses.contains(AgentStatus::Stalled));
    }
    if statuses.contains(AgentStatus::Active) {
        let k = choose|k: int| 0 <= k < statuses.len() && statuses[k] == AgentStatus::Active;
    }
    if statuses.contains(AgentStatus::Stalled) {
        let k = choose|k: int| 0 <= k < statuses.len() && statuses[k] == AgentStatus::Stalled;
    }
    if reordered.to_multiset() == statuses.to_multiset() {
        vstd::seq_lib::to_multiset_contains(statuses, AgentStatus::Active);
        vstd::seq_lib::to_multiset_contains(reordered, AgentStatus::Active);
        vstd::seq_lib::to_multiset_contains(statuses, AgentStatus::Stalled);
        vstd::seq_lib::to_multiset_contains(reordered, AgentStatus::Stalled);
    }
}

/// The agent status shown in the status bar over all workspaces.
pub fn overall_agent_status(statuses: &[AgentStatus]) -> (r: AgentStatus)
    ensures
        r == overall_status_spec(statuses@),
{
    let mut any_active = false;
    let mut any_stalled = false;
    let mut i: usize = 0;
    while i < statuses.len()
        invariant
            0 <= i <= statuses@.len(),
            any_active == statuses@.take(i as int).contains(AgentStatus::Active),
            any_stalled == statuses@.take(i as int).contains(AgentStatus::Stalled),
        decreases statuses.len() - i,
    {
        let ghost t = statuses@.take(i + 1);
        assert(t.drop_last() =~= statuses@.take(i as int));
        assert(t.last() == statuses@[i as int]);
        proof {
            assert forall|s: AgentStatus| t.contains(s) <==> (statuses@.take(i as int).contains(s) || s == statuses@[i as int]) by {
                if t.contains(s) {
                    let k = choose|k: int| 0 <= k < t.len() && t[k] == s;
                    if k < i {
                        assert(statuses@.take(i as int)[k] == s);
                    }
                }
                if statuses@.take(i as int).contains(s) {
                    let k = choose|k: int| 0 <= k < i && statuses@.take(i as int)[k] == s;
                    assert(t[k] == s);
                }
                if s == statuses@[i as int] {
                    assert(t[i as int] == s);
                }
            }
        }
        if statuses[i] == AgentStatus::Active {
            any_active = true;
        }
        if statuses[i] == AgentStatus::Stalled {
            any_stalled = true;
        }
        i = i + 1;
    }
    assert(statuses@.take(statuses@.len() as int) =~= statuses@);
    if any_active {
        AgentStatus::Active
    } else if any_stalled {
        AgentStatus::Stalled
    } else {
        AgentStatus::Inactive
    }
}

/// What a key pressed after the leader key does.
#[derive(Debug, Clone, Copy, PartialEq, Eq, Structural)]
pub enum LeaderCommand {
    /// `n`: the next workspace.
    NextWorkspace,
    /// `p`: the previous workspace.
    PrevWorkspace,
    /// `c`: a new workspace.
    NewWorkspace,
    /// `x`: close the active workspace.
    CloseWorkspace,
    /// `,`: rename the active workspace.
    RenameWorkspace,
    /// `1` to `9`: the workspace at that position (from 0).
    SelectWorkspace(u8),
    /// Any other key: not consumed.
    NotConsumed,
}

/// The command of a key pressed after the leader key.
pub open spec fn leader_command_spec(key: char) -> LeaderCommand {
    if key == 'n' {
        LeaderCommand::NextWorkspace
    } else if key == 'p' {
        LeaderCommand::PrevWorkspace
    } else if key == 'c' {
        LeaderCommand::NewWorkspace
    } else if key == 'x' {
        LeaderCommand::CloseWorkspace
    } else if key == ',' {
        LeaderCommand::RenameWorkspace
    } else if '1' <= key && key <= '9' {
        LeaderCommand::SelectWorkspace(((key as u32) - ('1' as u32)) as u8)
    } else {
        LeaderCommand::NotConsumed
    }
}

/// The command of a key pressed after the leader key.
pub fn leader_command(key: char) -> (r: LeaderCommand)
    ensures
        r == leader_command_spec(key),
{
    if key == 'n' {
        LeaderCommand::NextWorkspace
    } else if key == 'p' {
        LeaderCommand::PrevWorkspace
    } else if key == 'c' {
        LeaderCommand::NewWorkspace
    } else if key == 'x' {
        LeaderCommand::CloseWorkspace
    } else if key == ',' {
        LeaderCommand::RenameWorkspace
    } else if '1' <= key && key <= '9' {
        LeaderCommand::SelectWorkspace((key as u32 - '1' as u32) as u8)
    } else {
        LeaderCommand::NotConsumed
    }
}

/// The title of a workspace created from the leader key when `count`
/// workspaces exist: `Workspace <count + 1>`.
pub fn new_workspace_title(count: u64) -> (r: String)
    requires
        count < u64::MAX,
    ensures
        r@ == "Workspace "@ + crate::text::decimal((count + 1) as nat),
{
    let mut r = String::new();
    crate::text::push_str(&mut r, "Workspace ");
    crate::text::push_decimal(&mut r, count + 1);
    r
}

} // verus!
