//! Validating the server configuration.
//!
//! The configuration file is TOML:
//!
//! ```toml
//! [server]
//! listen = "0.0.0.0:24810"
//!
//! [[screens]]
//! name = "linux-pc"
//! [[screens]]
//! name = "windows-pc"
//!
//! [links]
//! linux-pc   = { right = "windows-pc" }
//! windows-pc = { left  = "linux-pc" }
//!
//! [options]
//! switch_double_tap_ms = 250
//! ```
//!
//! The file is read into a [`RawConfig`] as written; [`Config::from_raw`]
//! checks it and builds the layout, the switch policy and the options.
use vstd::prelude::*;

use crate::geometry::Edge;
use crate::layout::{default_policy, Layout, LinkError, SwitchPolicy};
use crate::message::{default_options, Options};

verus! {

/// The `[server]` section.
#[derive(Debug, Clone)]
pub struct ServerSection {
    pub listen: Option<String>,
}

/// One `[[screens]]` entry.
#[derive(Debug, Clone)]
pub struct ScreenEntry {
    pub name: String,
}

/// The neighbours of one screen under `[links]`.
#[derive(Debug, Clone)]
pub struct LinkEntry {
    pub left: Option<String>,
    pub right: Option<String>,
    pub up: Option<String>,
    pub down: Option<String>,
}

/// The `[options]` section; every key may be left out.
#[derive(Debug, Clone, Copy)]
pub struct OptionsSection {
    pub switch_delay_ms: Option<u32>,
    pub switch_double_tap_ms: Option<u32>,
    pub switch_corner_size: Option<i32>,
    pub jump_zone_size: Option<i32>,
    pub scroll_lock_locks: Option<bool>,
    pub clipboard_sharing: Option<bool>,
    pub clipboard_max_bytes: Option<u64>,
    pub screensaver_sync: Option<bool>,
    pub relative_mouse_moves: Option<bool>,
}

impl Default for LinkEntry {
    fn default() -> (e: LinkEntry)
        ensures
            e.left is None && e.right is None && e.up is None && e.down is None,
    {
        LinkEntry { left: None, right: None, up: None, down: None }
    }
}

impl Default for OptionsSection {
    fn default() -> (o: OptionsSection)
        ensures
            o == no_options(),
    {
        OptionsSection {
            switch_delay_ms: None,
            switch_double_tap_ms: None,
            switch_corner_size: None,
            jump_zone_size: None,
            scroll_lock_locks: None,
            clipboard_sharing: None,
            clipboard_max_bytes: None,
            screensaver_sync: None,
            relative_mouse_moves: None,
        }
    }
}

/// A configuration file as written, before any check.
#[derive(Debug, Clone)]
pub struct RawConfig {
    pub server: Option<ServerSection>,
    pub screens: Vec<ScreenEntry>,
    /// The `[links]` table, one entry per screen, in key order.
    pub links: Vec<(String, LinkEntry)>,
    pub options: Option<OptionsSection>,
}

/// A checked configuration.
#[derive(Debug)]
pub struct Config {
    /// The address to listen on, as written (or the default).
    pub listen: String,
    pub layout: Layout,
    pub policy: SwitchPolicy,
    pub options: Options,
}

/// Errors in a configuration's contents.
#[derive(Debug)]
pub enum ConfigError {
    NoScreens,
    DuplicateScreen(String),
    UnknownScreen(LinkError),
}

/// The address listened on when the file names none.
pub open spec fn default_listen_text() -> Seq<char> {
    "0.0.0.0:24810"@
}

/// The address a configuration listens on.
pub open spec fn listen_of(raw: RawConfig) -> Seq<char> {
    match raw.server {
        Some(ServerSection { listen: Some(l) }) => l@,
        _ => default_listen_text(),
    }
}

/// The address a configuration listens on: `[server] listen`, or
/// `0.0.0.0:24810` when it is not given.
pub fn listen_text(raw: &RawConfig) -> (s: String)
    ensures
        s@ == listen_of(*raw),
{
    match &raw.server {
        Some(server) => match &server.listen {
            Some(l) => l.clone(),
            None => "0.0.0.0:24810".to_owned(),
        },
        None => "0.0.0.0:24810".to_owned(),
    }
}

/// The links one `[links]` entry makes, in the order left, right, up, down.
pub open spec fn entry_links(e: LinkEntry) -> Seq<(Edge, Seq<char>)> {
    (match e.left {
        Some(s) => seq![(Edge::Left, s@)],
        None => Seq::empty(),
    }) + (match e.right {
        Some(s) => seq![(Edge::Right, s@)],
        None => Seq::empty(),
    }) + (match e.up {
        Some(s) => seq![(Edge::Top, s@)],
        None => Seq::empty(),
    }) + (match e.down {
        Some(s) => seq![(Edge::Bottom, s@)],
        None => Seq::empty(),
    })
}

/// A `[links]` entry makes exactly the links it names: `left` across the
/// left edge, `right` across the right edge, `up` across the top edge and
/// `down` across the bottom edge, each once.
pub proof fn lemma_entry_links_follow_fields(e: LinkEntry, edge: Edge, to: Seq<char>)
    ensures
        entry_links(e).contains((edge, to)) <==> match edge {
            Edge::Left => e.left matches Some(s) && s@ == to,
            Edge::Right => e.right matches Some(s) && s@ == to,
            Edge::Top => e.up matches Some(s) && s@ == to,
            Edge::Bottom => e.down matches Some(s) && s@ == to,
        },
        forall|i: int, j: int|
            0 <= i < entry_links(e).len() && 0 <= j < entry_links(e).len() && i != j
                ==> entry_links(e)[i].0 != entry_links(e)[j].0,
{
    let l = entry_links(e);
    let a = match e.left {
        Some(s) => seq![(Edge::Left, s@)],
        None => Seq::<(Edge, Seq<char>)>::empty(),
    };
    let b = match e.right {
        Some(s) => seq![(Edge::Right, s@)],
        None => Seq::<(Edge, Seq<char>)>::empty(),
    };
    let c = match e.up {
        Some(s) => seq![(Edge::Top, s@)],
        None => Seq::<(Edge, Seq<char>)>::empty(),
    };
    let d = match e.down {
        Some(s) => seq![(Edge::Bottom, s@)],
        None => Seq::<(Edge, Seq<char>)>::empty(),
    };
    assert(l == a + b + c + d);
    let ab = a + b;
    let abc = ab + c;
    assert forall|k: int| 0 <= k < l.len() implies (#[trigger] l[k] == (Edge::Left, e.left->0@) && a.len() == 1 && k < a.len())
        || (l[k] == (Edge::Right, e.right->0@) && b.len() == 1 && a.len() <= k < ab.len())
        || (l[k] == (Edge::Top, e.up->0@) && c.len() == 1 && ab.len() <= k < abc.len())
        || (l[k] == (Edge::Bottom, e.down->0@) && d.len() == 1 && abc.len() <= k) by {
        if k < a.len() {
            assert(l[k] == a[k]);
        } else if k < ab.len() {
            assert(l[k] == ab[k]);
            assert(ab[k] == b[k - a.len()]);
        } else if k < abc.len() {
            assert(l[k] == abc[k]);
            assert(abc[k] == c[k - ab.len()]);
        } else {
            assert(l[k] == d[k - abc.len()]);
        }
    }
    let want = match edge {
        Edge::Left => e.left matches Some(s) && s@ == to,
        Edge::Right => e.right matches Some(s) && s@ == to,
        Edge::Top => e.up matches Some(s) && s@ == to,
        Edge::Bottom => e.down matches Some(s) && s@ == to,
    };
    if want {
        match edge {
            Edge::Left => {
                assert(l[0] == (edge, to));
            },
            Edge::Right => {
                assert(l[a.len() as int] == ab[a.len() as int]);
                assert(l[a.len() as int] == (edge, to));
            },
            Edge::Top => {
                assert(l[ab.len() as int] == abc[ab.len() as int]);
                assert(l[ab.len() as int] == (edge, to));
            },
            Edge::Bottom => {
                assert(l[abc.len() as int] == (edge, to));
            },
        }
    }
}

impl LinkEntry {
    /// The links this entry makes, in the order left, right, up, down.
    pub fn edges(&self) -> (v: Vec<(Edge, &str)>)
        ensures
            v@.map_values(|p: (Edge, &str)| (p.0, p.1@)) == entry_links(*self),
    {
        let mut v: Vec<(Edge, &str)> = Vec::new();
        if let Some(s) = &self.left {
            v.push((Edge::Left, s.as_str()));
        }
        if let Some(s) = &self.right {
            v.push((Edge::Right, s.as_str()));
        }
        if let Some(s) = &self.up {
            v.push((Edge::Top, s.as_str()));
        }
        if let Some(s) = &self.down {
            v.push((Edge::Bottom, s.as_str()));
        }
        assert(v@.map_values(|p: (Edge, &str)| (p.0, p.1@)) =~= entry_links(*self));
        v
    }
}

/// Every link of a `[links]` table, as `(from, edge, to)`, table entries in
/// order and each entry's links in order.
pub open spec fn all_links(links: Seq<(String, LinkEntry)>) -> Seq<(Seq<char>, Edge, Seq<char>)>
    decreases links.len(),
{
    if links.len() == 0 {
        Seq::empty()
    } else {
        let (from, e) = links.last();
        all_links(links.drop_last()) + entry_links(e).map_values(
            |p: (Edge, Seq<char>)| (from@, p.0, p.1),
        )
    }
}

/// The neighbour map that results from making `ts` in order, later links
/// replacing earlier ones.
pub open spec fn links_applied(
    start: Map<(Seq<char>, Edge), Seq<char>>,
    ts: Seq<(Seq<char>, Edge, Seq<char>)>,
) -> Map<(Seq<char>, Edge), Seq<char>>
    decreases ts.len(),
{
    if ts.len() == 0 {
        start
    } else {
        links_applied(start, ts.drop_last()).insert((ts.last().0, ts.last().1), ts.last().2)
    }
}

/// Making links in order: a `(screen, edge)` pair has a neighbour exactly
/// when it had one before or some link is made for it, and then the
/// neighbour is the target of the last link made for it, or the earlier
/// neighbour if no link is.
pub proof fn lemma_later_links_win(
    start: Map<(Seq<char>, Edge), Seq<char>>,
    ts: Seq<(Seq<char>, Edge, Seq<char>)>,
    k: (Seq<char>, Edge),
)
    ensures
        links_applied(start, ts).contains_key(k) <==> (start.contains_key(k) || exists|i: int|
            0 <= i < ts.len() && (ts[i].0, ts[i].1) == k),
        forall|i: int|
            0 <= i < ts.len() && (ts[i].0, ts[i].1) == k && (forall|j: int|
                i < j < ts.len() ==> (ts[j].0, ts[j].1) != k) ==> links_applied(start, ts)[k]
                == #[trigger] ts[i].2,
        (forall|i: int| 0 <= i < ts.len() ==> (#[trigger] ts[i].0, ts[i].1) != k) ==> (
        links_applied(start, ts).contains_key(k) == start.contains_key(k) && links_applied(
            start,
            ts,
        )[k] == start[k]),
    decreases ts.len(),
{
    if ts.len() > 0 {
        let d = ts.drop_last();
        lemma_later_links_win(start, d, k);
        let last = ts.last();
        if (last.0, last.1) == k {
        } else {
            if exists|i: int| 0 <= i < ts.len() && (ts[i].0, ts[i].1) == k {
                let i = choose|i: int| 0 <= i < ts.len() && (ts[i].0, ts[i].1) == k;
                assert(i < d.len());
                assert(d[i] == ts[i]);
            }
            if exists|i: int| 0 <= i < d.len() && (d[i].0, d[i].1) == k {
                let i = choose|i: int| 0 <= i < d.len() && (d[i].0, d[i].1) == k;
                assert(ts[i] == d[i]);
            }
            assert forall|i: int|
                0 <= i < ts.len() && (ts[i].0, ts[i].1) == k && (forall|j: int|
                    i < j < ts.len() ==> (ts[j].0, ts[j].1) != k) implies links_applied(start, ts)[k]
                == #[trigger] ts[i].2 by {
                assert(i < d.len());
                assert(d[i] == ts[i]);
                assert forall|j: int| i < j < d.len() implies (d[j].0, d[j].1) != k by {
                    assert(d[j] == ts[j]);
                }
            }
            assert((forall|i: int| 0 <= i < ts.len() ==> (#[trigger] ts[i].0, ts[i].1) != k) ==> (forall|i: int| 0 <= i < d.len() ==> (#[trigger] d[i].0, d[i].1) != k)) by {
                if forall|i: int| 0 <= i < ts.len() ==> (#[trigger] ts[i].0, ts[i].1) != k {
                    assert forall|i: int| 0 <= i < d.len() implies (#[trigger] d[i].0, d[i].1) != k by {
                        assert(d[i] == ts[i]);
                    }
                }
            }
        }
        assert forall|i: int|
            0 <= i < ts.len() && (ts[i].0, ts[i].1) == k && (forall|j: int|
                i < j < ts.len() ==> (ts[j].0, ts[j].1) != k) implies links_applied(start, ts)[k]
            == #[trigger] ts[i].2 by {
            if i < d.len() {
                assert((ts[ts.len() - 1].0, ts[ts.len() - 1].1) != k);
                assert(d[i] == ts[i]);
                assert forall|j: int| i < j < d.len() implies (d[j].0, d[j].1) != k by {
                    assert(d[j] == ts[j]);
                }
            }
        }
        if (last.0, last.1) == k {
            assert((ts[ts.len() - 1].0, ts[ts.len() - 1].1) == k);
        }
    }
}

/// Both ends of a link name configured screens.
pub open spec fn link_ok(names: Seq<Seq<char>>, t: (Seq<char>, Edge, Seq<char>)) -> bool {
    names.contains(t.0) && names.contains(t.2)
}

/// The switch policy a configuration asks for; every key left out takes its
/// default (no dwell, no double tap, whole edge, a one-pixel jump zone,
/// Scroll Lock pins the cursor).
pub open spec fn policy_of(o: OptionsSection) -> SwitchPolicy {
    SwitchPolicy {
        delay_ms: o.switch_delay_ms.unwrap_or(0),
        double_tap_ms: o.switch_double_tap_ms.unwrap_or(0),
        corner_size: o.switch_corner_size.unwrap_or(0),
        jump_zone: o.jump_zone_size.unwrap_or(1),
        scroll_lock_locks: o.scroll_lock_locks.unwrap_or(true),
    }
}

/// The client options a configuration asks for; every key left out takes its
/// default, and Scroll Lock follows the switch policy.
pub open spec fn options_of(o: OptionsSection) -> Options {
    Options {
        clipboard_sharing: o.clipboard_sharing.unwrap_or(true),
        clipboard_max_bytes: o.clipboard_max_bytes.unwrap_or(0),
        scroll_lock_locks: o.scroll_lock_locks.unwrap_or(true),
        screensaver_sync: o.screensaver_sync.unwrap_or(false),
        relative_mouse_moves: o.relative_mouse_moves.unwrap_or(true),
    }
}

/// The `[options]` section with nothing set.
pub open spec fn no_options() -> OptionsSection {
    OptionsSection {
        switch_delay_ms: None,
        switch_double_tap_ms: None,
        switch_corner_size: None,
        jump_zone_size: None,
        scroll_lock_locks: None,
        clipboard_sharing: None,
        clipboard_max_bytes: None,
        screensaver_sync: None,
        relative_mouse_moves: None,
    }
}

/// Every `[options]` key that is left out takes the value of the default
/// switch policy or the default client options, and every key that is given
/// is taken as written; Scroll Lock is one setting shared by both. So a
/// configuration with no `[options]` section, or an empty one, runs with
/// exactly the default policy and the default options.
pub proof fn lemma_options_default_when_left_out(o: OptionsSection)
    ensures
        policy_of(o).delay_ms == match o.switch_delay_ms {
            Some(v) => v,
            None => default_policy().delay_ms,
        },
        policy_of(o).double_tap_ms == match o.switch_double_tap_ms {
            Some(v) => v,
            None => default_policy().double_tap_ms,
        },
        policy_of(o).corner_size == match o.switch_corner_size {
            Some(v) => v,
            None => default_policy().corner_size,
        },
        policy_of(o).jump_zone == match o.jump_zone_size {
            Some(v) => v,
            None => default_policy().jump_zone,
        },
        policy_of(o).scroll_lock_locks == match o.scroll_lock_locks {
            Some(v) => v,
            None => default_policy().scroll_lock_locks,
        },
        options_of(o).clipboard_sharing == match o.clipboard_sharing {
            Some(v) => v,
            None => default_options().clipboard_sharing,
        },
        options_of(o).clipboard_max_bytes == match o.clipboard_max_bytes {
            Some(v) => v,
            None => default_options().clipboard_max_bytes,
        },
        options_of(o).screensaver_sync == match o.screensaver_sync {
            Some(v) => v,
            None => default_options().screensaver_sync,
        },
        options_of(o).relative_mouse_moves == match o.relative_mouse_moves {
            Some(v) => v,
            None => default_options().relative_mouse_moves,
        },
        options_of(o).scroll_lock_locks == policy_of(o).scroll_lock_locks,
        default_options().scroll_lock_locks == default_policy().scroll_lock_locks,
        policy_of(no_options()) == default_policy(),
        options_of(no_options()) == default_options(),
{
}

/// The screen names of a configuration, in order.
pub open spec fn names_of(raw: RawConfig) -> Seq<Seq<char>> {
    raw.screens@.map_values(|s: ScreenEntry| s.name@)
}

impl Config {
    /// Check a configuration and build the layout, switch policy and client
    /// options from it. It is refused when it names no screen, when a screen
    /// name repeats (the first repeat is reported), or when a link names a
    /// screen that is not configured (the first such link is reported).
    pub fn from_raw(raw: RawConfig) -> (r: Result<Config, ConfigError>)
        ensures
            raw.screens@.len() == 0 ==> r matches Err(ConfigError::NoScreens),
            raw.screens@.len() > 0 && !names_of(raw).no_duplicates() ==> (r matches Err(
                ConfigError::DuplicateScreen(n),
            ) && exists|k: int|
                0 <= k < names_of(raw).len() && names_of(raw)[k] == n@ && names_of(raw).take(
                    k,
                ).contains(n@) && names_of(raw).take(k).no_duplicates()),
            raw.screens@.len() > 0 && names_of(raw).no_duplicates() ==> {
                let ts = all_links(raw.links@);
                let names = names_of(raw);
                if forall|k: int| 0 <= k < ts.len() ==> link_ok(names, #[trigger] ts[k]) {
                    (r matches Ok(c) && {
                        let o = match raw.options {
                            Some(o) => o,
                            None => no_options(),
                        };
                        &&& c.listen@ == listen_of(raw)
                        &&& c.layout.screen_names() == names
                        &&& c.layout.neighbor_map() == links_applied(Map::empty(), ts)
                        &&& c.policy == policy_of(o)
                        &&& c.options == options_of(o)
                    })
                } else {
                    (r matches Err(ConfigError::UnknownScreen(e)) && exists|k: int|
                        0 <= k < ts.len() && !link_ok(names, #[trigger] ts[k]) && (forall|j: int|
                            0 <= j < k ==> link_ok(names, #[trigger] ts[j])) && e.from@ == ts[k].0
                            && e.to@ == ts[k].2 && e.undefined@ == (if !names.contains(ts[k].0) {
                            ts[k].0
                        } else {
                            ts[k].2
                        }))
                }
            },
    {
        let listen = listen_text(&raw);
        if raw.screens.len() == 0 {
            return Err(ConfigError::NoScreens);
        }
        let ghost names = names_of(raw);
        let mut names_vec: Vec<String> = Vec::new();
        let mut i: usize = 0;
        while i < raw.screens.len()
            invariant
                i <= raw.screens@.len(),
                names == names_of(raw),
                names_vec@.map_values(|s: String| s@) == names.take(i as int),
                names.take(i as int).no_duplicates(),
            decreases raw.screens@.len() - i,
        {
            let name = &raw.screens[i].name;
            if contains_name(&names_vec, name) {
                proof {
                    assert(names[i as int] == name@);
                    assert(names_vec@.map_values(|s: String| s@).contains(name@));
                }
                return Err(ConfigError::DuplicateScreen(name.clone()));
            }
            let ghost before = names_vec@;
            names_vec.push(name.clone());
            proof {
                assert(names.take(i + 1) =~= names.take(i as int).push(name@));
                assert(names_vec@.map_values(|s: String| s@) =~= names.take(i + 1));
                assert(names.take(i + 1).no_duplicates()) by {
                    let t = names.take(i + 1);
                    assert forall|a: int, b: int| 0 <= a < t.len() && 0 <= b < t.len() && a != b implies t[a] != t[b] by {
                        if a == i && b < i {
                            assert(names.take(i as int)[b] == t[b]);
                        }
                        if b == i && a < i {
                            assert(names.take(i as int)[a] == t[a]);
                        }
                    }
                }
            }
            i = i + 1;
        }
        proof {
            assert(names.take(i as int) =~= names);
            assert(names_vec@.map_values(|s: String| s@) =~= raw.screens@.map_values(|s: ScreenEntry| s.name@));
        }
        let mut layout = Layout::new(names_vec);
        let ghost ts = all_links(raw.links@);
        let mut i: usize = 0;
        while i < raw.links.len()
            invariant
                i <= raw.links@.len(),
                raw.screens@.len() > 0,
                names.no_duplicates(),
                ts == all_links(raw.links@),
                names == names_of(raw),
                layout.screen_names() == names,
                layout.neighbor_map() == links_applied(Map::empty(), all_links(raw.links@.take(i as int))),
                forall|k: int| 0 <= k < all_links(raw.links@.take(i as int)).len() ==> link_ok(names, #[trigger] all_links(raw.links@.take(i as int))[k]),
                ts.take(all_links(raw.links@.take(i as int)).len() as int) == all_links(raw.links@.take(i as int)),
                all_links(raw.links@.take(i as int)).len() <= ts.len(),
            decreases raw.links@.len() - i,
        {
            let from = raw.links[i].0.as_str();
            let edges = raw.links[i].1.edges();
            let ghost done = all_links(raw.links@.take(i as int));
            let ghost here = entry_links(raw.links@[i as int].1).map_values(
                |p: (Edge, Seq<char>)| (from@, p.0, p.1),
            );
            proof {
                lemma_all_links_step(raw.links@, i as int);
            }
            let mut j: usize = 0;
            while j < edges.len()
                invariant
                    j <= edges@.len(),
                    names == names_of(raw),
                    i < raw.links@.len(),
                    raw.screens@.len() > 0,
                    names.no_duplicates(),
                    edges@.map_values(|p: (Edge, &str)| (p.0, p.1@)) == entry_links(raw.links@[i as int].1),
                    here.len() == edges@.len(),
                    ts == all_links(raw.links@),
                    (done + here).len() <= ts.len(),
                    ts.take((done + here).len() as int) == done + here,
                    forall|m: int| 0 <= m < here.len() ==> #[trigger] here[m] == (from@, edges@[m].0, edges@[m].1@),
                    layout.screen_names() == names,
                    layout.neighbor_map() == links_applied(Map::empty(), done + here.take(j as int)),
                    forall|k: int| 0 <= k < (done + here.take(j as int)).len() ==> link_ok(names, #[trigger] (done + here.take(j as int))[k]),
                decreases edges@.len() - j,
            {
                let (edge, to) = edges[j];
                let ghost before_map = layout.neighbor_map();
                match layout.link(from, edge, to) {
                    Ok(()) => {},
                    Err(e) => {
                        proof {
                            let k = done.len() + j;
                            assert(here[j as int] == (from@, edge, to@));
                            assert(ts[k] == ts.take((done + here).len() as int)[k]);
                            assert(ts[k] == here[j as int]);
                            assert forall|jj: int| 0 <= jj < k implies link_ok(names, #[trigger] ts[jj]) by {
                                assert(ts[jj] == ts.take((done + here).len() as int)[jj]);
                                assert(ts[jj] == (done + here.take(j as int))[jj]);
                            }
                        }
                        return Err(ConfigError::UnknownScreen(e));
                    },
                }
                proof {
                    let t = (from@, edge, to@);
                    assert(here[j as int] == t);
                    assert((done + here.take(j + 1)).drop_last() =~= done + here.take(j as int));
                    assert((done + here.take(j + 1)).last() == t);
                    assert forall|k: int| 0 <= k < (done + here.take(j + 1)).len() implies link_ok(names, #[trigger] (done + here.take(j + 1))[k]) by {
                        if k < (done + here.take(j as int)).len() {
                            assert((done + here.take(j + 1))[k] == (done + here.take(j as int))[k]);
                        }
                    }
                }
                j = j + 1;
            }
            proof {
                assert(here.take(j as int) =~= here);
            }
            i = i + 1;
        }
        proof {
            assert(raw.links@.take(i as int) =~= raw.links@);
        }
        let opt = match raw.options {
            Some(o) => o,
            None => OptionsSection::default(),
        };
        let policy = SwitchPolicy {
            delay_ms: opt.switch_delay_ms.unwrap_or(0),
            double_tap_ms: opt.switch_double_tap_ms.unwrap_or(0),
            corner_size: opt.switch_corner_size.unwrap_or(0),
            jump_zone: opt.jump_zone_size.unwrap_or(1),
            scroll_lock_locks: opt.scroll_lock_locks.unwrap_or(true),
        };
        let options = Options {
            clipboard_sharing: opt.clipboard_sharing.unwrap_or(true),
            clipboard_max_bytes: opt.clipboard_max_bytes.unwrap_or(0),
            scroll_lock_locks: policy.scroll_lock_locks,
            screensaver_sync: opt.screensaver_sync.unwrap_or(false),
            relative_mouse_moves: opt.relative_mouse_moves.unwrap_or(true),
        };
        Ok(Config { listen, layout, policy, options })
    }
}

/// The links of the first `i + 1` table entries are those of the first `i`
/// followed by those of entry `i`.
proof fn lemma_all_links_step(links: Seq<(String, LinkEntry)>, i: int)
    requires
        0 <= i < links.len(),
    ensures
        all_links(links.take(i + 1)) == all_links(links.take(i)) + entry_links(links[i].1).map_values(
            |p: (Edge, Seq<char>)| (links[i].0@, p.0, p.1),
        ),
        all_links(links.take(i + 1)).len() <= all_links(links).len(),
        all_links(links).take(all_links(links.take(i + 1)).len() as int) == all_links(links.take(i + 1)),
{
    assert(links.take(i + 1).drop_last() =~= links.take(i));
    lemma_all_links_prefix(links, i + 1);
}

/// The links of a prefix of the table are a prefix of all the links.
proof fn lemma_all_links_prefix(links: Seq<(String, LinkEntry)>, n: int)
    requires
        0 <= n <= links.len(),
    ensures
        all_links(links.take(n)).len() <= all_links(links).len(),
        all_links(links).take(all_links(links.take(n)).len() as int) == all_links(links.take(n)),
    decreases links.len() - n,
{
    if n == links.len() {
        assert(links.take(n) =~= links);
        assert(all_links(links).take(all_links(links).len() as int) =~= all_links(links));
    } else {
        lemma_all_links_prefix(links, n + 1);
        assert(links.take(n + 1).drop_last() =~= links.take(n));
        let a = all_links(links.take(n));
        let b = all_links(links.take(n + 1));
        assert(b.take(a.len() as int) =~= a);
        assert(all_links(links).take(a.len() as int) =~= all_links(links).take(b.len() as int).take(
            a.len() as int,
        ));
    }
}

/// A name occurs among `names`.
fn contains_name(names: &Vec<String>, name: &String) -> (b: bool)
    ensures
        b == names@.map_values(|s: String| s@).contains(name@),
{
    let mut i: usize = 0;
    while i < names.len()
        invariant
            i <= names@.len(),
            forall|j: int| 0 <= j < i ==> names@[j]@ != name@,
        decreases names@.len() - i,
    {
        if names[i] == *name {
            assert(names@.map_values(|s: String| s@)[i as int] == name@);
            return true;
        }
        i = i + 1;
    }
    proof {
        let m = names@.map_values(|s: String| s@);
        if m.contains(name@) {
            let j = choose|j: int| 0 <= j < m.len() && m[j] == name@;
            assert(names@[j]@ == name@);
        }
    }
    false
}

} // verus!
