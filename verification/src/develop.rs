//! The develop-mode loop's decisions.  Three concurrent roles share
//! two pieces of state: the watcher sets a sticky rebuild flag on
//! qualifying file events, the builder polls and clears it, and the
//! notifier keeps the set of live-reload clients, pruned by heartbeat
//! age.  The threads, the filesystem watch and the connections belong
//! to the shell; what is decided about every event, flag and client
//! lives here.

use vstd::prelude::*;

verus! {

/// The script stub injected into rendered pages while the develop
/// server runs, so browsers reconnect and reload on rebuild.
pub const LIVE_RELOAD_CODE: &'static str = "<script>var s=new WebSocket(\"ws://\"+location.host+\"/notifier\");s.onmessage=function(){location.reload();};</script>";

/// The develop-mode context handed to templates: the live-reload stub
/// in develop mode, nothing otherwise.
#[derive(Debug)]
pub struct DevelopData {
    pub live_reload: String,
}

impl DevelopData {
    /// The stub is injected exactly in develop mode.
    pub fn new(is_develop: bool) -> (r: Self)
        ensures
            r.live_reload@ == if is_develop {
                LIVE_RELOAD_CODE@
            } else {
                ""@
            },
    {
        let live_reload = if is_develop {
            String::from_str(LIVE_RELOAD_CODE)
        } else {
            String::from_str("")
        };
        DevelopData { live_reload }
    }
}

/// The kinds of filesystem event the watcher receives.
#[derive(Debug, PartialEq, Eq, Structural, Clone, Copy)]
pub enum FileEvent {
    Chmod,
    Create,
    Write,
    Rename,
    Other,
}

/// Whether a path lies under a root: the root is a whole-component
/// prefix of the path.
pub open spec fn path_under(p: Seq<char>, root: Seq<char>) -> bool {
    &&& root.len() <= p.len()
    &&& p.subrange(0, root.len() as int) == root
    &&& (p.len() == root.len() || p[root.len() as int] == '/' || (root.len() > 0 && root[root.len()
        - 1] == '/'))
}

/// Whether a path falls under any of the exclusion roots.
pub open spec fn excluded_spec(p: Seq<char>, roots: Seq<String>) -> bool {
    exists|i: int| 0 <= i < roots.len() && path_under(p, roots[i]@)
}

/// Executable form of `path_under`.
fn is_under(path: &Vec<char>, root: &str) -> (r: bool)
    ensures
        r == path_under(path@, root@),
{
    let rv = crate::text::to_chars(root);
    let m = rv.len();
    let n = path.len();
    if m > n {
        return false;
    }
    if !crate::text::range_matches(path, 0, &rv) {
        return false;
    }
    proof {
        assert(path@.subrange(0, m as int) == rv@);
    }
    n == m || path[m] == '/' || (m > 0 && rv[m - 1] == '/')
}

/// Whether a changed path is excluded from triggering rebuilds.
pub fn is_excluded(path: &str, roots: &Vec<String>) -> (r: bool)
    ensures
        r == excluded_spec(path@, roots@),
{
    let pv = crate::text::to_chars(path);
    let mut i: usize = 0;
    while i < roots.len()
        invariant
            i <= roots@.len(),
            pv@ == path@,
            forall|j: int| 0 <= j < i ==> !path_under(path@, (#[trigger] roots@[j])@),
        decreases roots@.len() - i,
    {
        if is_under(&pv, roots[i].as_str()) {
            return true;
        }
        i += 1;
    }
    false
}

/// The watcher's whole decision: a change of a qualifying kind, on a
/// path no exclusion root covers, requests a rebuild; nothing else
/// does.
pub fn watch_event_triggers(kind: FileEvent, path: &str, roots: &Vec<String>) -> (r: bool)
    ensures
        r == ((kind is Chmod || kind is Create || kind is Write || kind is Rename)
            && !excluded_spec(path@, roots@)),
{
    let relevant = match kind {
        FileEvent::Chmod | FileEvent::Create | FileEvent::Write | FileEvent::Rename => true,
        FileEvent::Other => false,
    };
    relevant && !is_excluded(path, roots)
}

/// The rebuild flag the watcher and the builder share.  It is sticky:
/// once set it stays set until the builder takes it, so coalesced
/// events are never lost, and taking it clears it, so one burst of
/// changes triggers exactly one build.
#[derive(Debug)]
pub struct RebuildFlag {
    pub set: bool,
}

impl RebuildFlag {
    /// No rebuild is pending at the start.
    pub fn new() -> (r: Self)
        ensures
            !r.set,
    {
        RebuildFlag { set: false }
    }

    /// The watcher's side: a triggering event sets the flag, a
    /// non-triggering one leaves it exactly as it was.
    pub fn notice(&mut self, triggers: bool)
        ensures
            final (self).set == (old(self).set || triggers),
    {
        if triggers {
            self.set = true;
        }
    }

    /// The builder's side: one atomic test-and-clear per poll.  It
    /// returns whether a rebuild was pending, and afterwards none is.
    pub fn take(&mut self) -> (r: bool)
        ensures
            r == old(self).set,
            !final (self).set,
    {
        let was = self.set;
        self.set = false;
        was
    }
}

/// The live-reload clients the notifier knows, each with the instant
/// of its last heartbeat.
#[derive(Debug)]
pub struct Notifier {
    pub clients: Vec<(u64, i64)>,
}

impl Notifier {
    /// Nobody is connected at the start.
    pub fn new() -> (r: Self)
        ensures
            r.clients@ == Seq::<(u64, i64)>::empty(),
    {
        Notifier { clients: Vec::new() }
    }

    /// A client joins, alive as of `now`.
    pub fn join(&mut self, id: u64, now: i64)
        ensures
            final (self).clients@ == old(self).clients@.push((id, now)),
    {
        self.clients.push((id, now));
    }

    /// A client's heartbeat arrives: its timestamp is refreshed, every
    /// other entry is untouched.
    pub fn heartbeat(&mut self, id: u64, now: i64)
        ensures
            final (self).clients@.len() == old(self).clients@.len(),
            forall|i: int|
                0 <= i < old(self).clients@.len() ==> final (self).clients@[i] == (
                if old(self).clients@[i].0 == id {
                    (id, now)
                } else {
                    (#[trigger] old(self).clients@[i])
                }),
    {
        let n = self.clients.len();
        let mut i: usize = 0;
        while i < n
            invariant
                i <= n == self.clients@.len(),
                old(self).clients@.len() == n,
                forall|j: int|
                    0 <= j < n ==> self.clients@[j] == (if j < i && old(self).clients@[j].0 == id {
                        (id, now)
                    } else {
                        (#[trigger] old(self).clients@[j])
                    }),
            decreases n - i,
        {
            if self.clients[i].0 == id {
                self.clients.set(i, (id, now));
            }
            i += 1;
        }
    }

    /// A client closed its connection: every entry carrying its id is
    /// dropped, the rest keep their order.
    pub fn leave(&mut self, id: u64)
        ensures
            final (self).clients@ == old(self).clients@.filter(
                (|c: (u64, i64)| c.0 != id),
            ),
    {
        let ghost all = self.clients@;
        let mut kept: Vec<(u64, i64)> = Vec::new();
        let n = self.clients.len();
        let mut i: usize = 0;
        proof {
            reveal(Seq::filter);
            assert(all.subrange(0, 0) =~= Seq::<(u64, i64)>::empty());
            assert(kept@ =~= all.subrange(0, 0).filter((|c: (u64, i64)| c.0 != id)));
        }
        while i < n
            invariant
                i <= n == all.len(),
                self.clients@ == all,
                kept@ == all.subrange(0, i as int).filter((|c: (u64, i64)| c.0 != id)),
            decreases n - i,
        {
            let c = self.clients[i];
            i += 1;
            proof {
                reveal(Seq::filter);
                let pre = all.subrange(0, i as int);
                assert(pre.drop_last() =~= all.subrange(0, i - 1));
                assert(pre[pre.len() - 1] == all[i - 1]);
                assert(c == all[i - 1]);
            }
            if c.0 != id {
                kept.push(c);
            }
            proof {
                assert(kept@ =~= all.subrange(0, i as int).filter((|c: (u64, i64)| c.0 != id)));
            }
        }
        proof {
            assert(all.subrange(0, n as int) =~= all);
        }
        self.clients = kept;
    }

    /// Drops every client whose last heartbeat is older than the
    /// timeout as of `now`; the survivors keep their order.
    pub fn prune(&mut self, now: i64, timeout: i64)
        ensures
            final (self).clients@ == old(self).clients@.filter(
                (|c: (u64, i64)| now - c.1 <= timeout),
            ),
    {
        let ghost all = self.clients@;
        let mut kept: Vec<(u64, i64)> = Vec::new();
        let n = self.clients.len();
        let mut i: usize = 0;
        proof {
            reveal(Seq::filter);
            assert(all.subrange(0, 0) =~= Seq::<(u64, i64)>::empty());
            assert(kept@ =~= all.subrange(0, 0).filter((|c: (u64, i64)| now - c.1 <= timeout)));
        }
        while i < n
            invariant
                i <= n == all.len(),
                self.clients@ == all,
                kept@ == all.subrange(0, i as int).filter((|c: (u64, i64)| now - c.1 <= timeout)),
            decreases n - i,
        {
            let c = self.clients[i];
            i += 1;
            proof {
                reveal(Seq::filter);
                let pre = all.subrange(0, i as int);
                assert(pre.drop_last() =~= all.subrange(0, i - 1));
                assert(pre[pre.len() - 1] == all[i - 1]);
                assert(c == all[i - 1]);
            }
            let fresh = (now as i128) - (c.1 as i128) <= (timeout as i128);
            proof {
                assert(fresh == ((now - c.1) as int <= timeout as int));
            }
            if fresh {
                kept.push(c);
            }
            proof {
                assert(kept@ =~= all.subrange(0, i as int).filter(
                    (|c: (u64, i64)| now - c.1 <= timeout),
                ));
            }
        }
        proof {
            assert(all.subrange(0, n as int) =~= all);
        }
        self.clients = kept;
    }

    /// The ids a build-success broadcast goes to: every connected
    /// client, in join order.
    pub fn broadcast_targets(&self) -> (r: Vec<u64>)
        ensures
            r@ == self.clients@.map_values(|c: (u64, i64)| c.0),
    {
        let mut out: Vec<u64> = Vec::new();
        let n = self.clients.len();
        let mut i: usize = 0;
        proof {
            assert(out@ =~= self.clients@.subrange(0, 0).map_values(|c: (u64, i64)| c.0));
        }
        while i < n
            invariant
                i <= n == self.clients@.len(),
                out@ == self.clients@.subrange(0, i as int).map_values(|c: (u64, i64)| c.0),
            decreases n - i,
        {
            out.push(self.clients[i].0);
            i += 1;
            proof {
                assert(out@ =~= self.clients@.subrange(0, i as int).map_values(
                    |c: (u64, i64)| c.0,
                ));
            }
        }
        proof {
            assert(self.clients@.subrange(0, n as int) =~= self.clients@);
        }
        out
    }
}

} // verus!
