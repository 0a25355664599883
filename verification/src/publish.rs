//! The atomic publish protocol, as a state machine over the two
//! output trees.  A build stages every rendered file into a fresh
//! staging tree; the published tree never changes while files are
//! staged, and `commit` — the single rename at the end — replaces it
//! wholesale.  A build that stops early leaves staging in place for
//! inspection and the published tree exactly as it was.  The shell
//! mirrors each operation with the real directories.

use vstd::prelude::*;

verus! {

/// A directory tree as a flat list of files: path and contents.
pub open spec fn tree_view(files: Seq<(String, String)>) -> Seq<(Seq<char>, Seq<char>)> {
    files.map_values(|f: (String, String)| (f.0@, f.1@))
}

/// The two output trees: `None` stands for an absent directory.
#[derive(Debug)]
pub struct PublishArea {
    pub staging: Option<Vec<(String, String)>>,
    pub published: Option<Vec<(String, String)>>,
}

impl PublishArea {
    /// What the published tree holds.
    pub open spec fn published_view(self) -> Option<Seq<(Seq<char>, Seq<char>)>> {
        match self.published {
            Some(files) => Some(tree_view(files@)),
            None => None,
        }
    }

    /// What the staging tree holds.
    pub open spec fn staging_view(self) -> Option<Seq<(Seq<char>, Seq<char>)>> {
        match self.staging {
            Some(files) => Some(tree_view(files@)),
            None => None,
        }
    }

    /// Before the first build: neither tree exists.
    pub fn new() -> (r: Self)
        ensures
            r.staging_view() is None,
            r.published_view() is None,
    {
        PublishArea { staging: None, published: None }
    }

    /// Begins a build: a fresh, empty staging tree, discarding any
    /// stale one from an earlier failed run.  The published tree is
    /// untouched.
    pub fn begin(&mut self)
        ensures
            final (self).staging_view() == Some(Seq::<(Seq<char>, Seq<char>)>::empty()),
            final (self).published_view() == old(self).published_view(),
    {
        self.staging = Some(Vec::new());
        proof {
            assert(tree_view(Seq::<(String, String)>::empty()) =~= Seq::<
                (Seq<char>, Seq<char>),
            >::empty());
        }
    }

    /// Stages one rendered file.  The published tree is untouched: no
    /// write of a build is ever visible before the final swap.
    pub fn stage_file(&mut self, path: String, contents: String)
        requires
            old(self).staging is Some,
        ensures
            final (self).staging_view() == Some(
                old(self).staging_view()->Some_0.push((path@, contents@)),
            ),
            final (self).published_view() == old(self).published_view(),
    {
        let ghost before = self.staging->Some_0@;
        match &mut self.staging {
            Some(files) => {
                files.push((path, contents));
            },
            None => {},
        }
        proof {
            assert(tree_view(self.staging->Some_0@) =~= tree_view(before).push(
                (path@, contents@),
            ));
        }
    }

    /// The atomic swap that ends a successful build: the staging tree
    /// becomes the published tree, whole; readers see the old tree or
    /// the new one, never a mixture.
    pub fn commit(&mut self)
        requires
            old(self).staging is Some,
        ensures
            final (self).published_view() == old(self).staging_view(),
            final (self).staging_view() is None,
    {
        let staging = self.staging.take();
        self.published = staging;
        self.staging = None;
    }

    /// Stages a whole list of rendered files, in order.  However many
    /// files a build writes, the published tree stays exactly as it
    /// was — the protocol never exposes a partially built output.
    pub fn stage_all(&mut self, files: Vec<(String, String)>)
        requires
            old(self).staging is Some,
        ensures
            final (self).staging_view() == Some(
                old(self).staging_view()->Some_0 + tree_view(files@),
            ),
            final (self).published_view() == old(self).published_view(),
    {
        let ghost all = files@;
        let ghost start = self.staging_view()->Some_0;
        let mut rest = files;
        let ghost mut i: int = 0;
        proof {
            assert(all.subrange(0, 0) =~= Seq::<(String, String)>::empty());
            assert(start + tree_view(all.subrange(0, 0)) =~= start);
        }
        while rest.len() > 0
            invariant
                0 <= i,
                i + rest@.len() == all.len(),
                rest@ == all.subrange(i, all.len() as int),
                self.staging_view() == Some(start + tree_view(all.subrange(0, i))),
                self.published_view() == old(self).published_view(),
            decreases rest@.len(),
        {
            let f = rest.remove(0);
            proof {
                assert(all.subrange(i, all.len() as int)[0] == all[i]);
                assert(all.subrange(i, all.len() as int).remove(0) =~= all.subrange(
                    i + 1,
                    all.len() as int,
                ));
                i = i + 1;
            }
            self.stage_file(f.0, f.1);
            proof {
                assert(tree_view(all.subrange(0, i)) =~= tree_view(
                    all.subrange(0, i - 1),
                ).push((all[i - 1].0@, all[i - 1].1@)));
                assert(start + tree_view(all.subrange(0, i)) =~= (start + tree_view(
                    all.subrange(0, i - 1),
                )).push((all[i - 1].0@, all[i - 1].1@)));
            }
        }
        proof {
            assert(all.subrange(0, all.len() as int) =~= all);
        }
    }
}

} // verus!
