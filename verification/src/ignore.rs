//! The ignore filter: a gitignore-style matcher built from the root,
//! overlaid with the global gitignore and an optional hidden-file rule.
//!
//! The matchers themselves come from an outside library and their verdicts
//! are opaque; how the verdicts combine, and the hidden-file walk over a
//! path's ancestors, are verified here. The outside matcher refuses (by
//! panicking) a path that still has a root after its own root prefix is
//! stripped, so consulting the filter is restricted to paths in the
//! matcher's scope; `in_scope` tests that boundary in verified code.

use vstd::prelude::*;
use crate::pathutil::{is_hidden, parent, spec_is_hidden, spec_parent, DOT_BYTE, SEP_BYTE};

verus! {

#[verifier::external_type_specification]
#[verifier::external_body]
pub struct ExGitignore(ignore::gitignore::Gitignore);

/// The root a matcher was built with, as its builder stores it (a leading
/// `./` already stripped).
pub uninterp spec fn gitignore_root(gi: ignore::gitignore::Gitignore) -> Seq<u8>;

/// A leading `./` stripped, once, as the matcher's builder normalizes a
/// root and the matcher normalizes a candidate path.
pub open spec fn strip_dot_slash(p: Seq<u8>) -> Seq<u8> {
    if p.len() >= 2 && p[0] == DOT_BYTE && p[1] == SEP_BYTE {
        p.subrange(2, p.len() as int)
    } else {
        p
    }
}

/// A path the matcher accepts without panicking, for a matcher rooted at
/// `root`: after the matcher strips a leading `./` and then its own root,
/// what remains must not be rooted. So a path that extends the root must
/// not continue with a doubled separator, and a path that does not extend
/// the root must not be absolute.
pub open spec fn matcher_safe(path: Seq<u8>, root: Seq<u8>) -> bool {
    let p = strip_dot_slash(path);
    if p.len() > root.len() && p.subrange(0, root.len() as int) == root {
        let q = p.subrange(root.len() as int, p.len() as int);
        !(q.len() >= 2 && q[0] == SEP_BYTE && q[1] == SEP_BYTE)
    } else if p == root {
        true
    } else {
        p.len() == 0 || p[0] != SEP_BYTE
    }
}

/// A path is hidden, or some ancestor of it is.
pub open spec fn spec_hidden_or_ancestor(path: Seq<u8>) -> bool
    decreases path.len(),
{
    if spec_is_hidden(path) {
        true
    } else {
        match spec_parent(path) {
            Some(p) => if p.len() < path.len() {
                spec_hidden_or_ancestor(p)
            } else {
                false
            },
            None => false,
        }
    }
}

/// How the verdicts combine into the skip decision: the local rules are
/// consulted first, then the global rules, and when neither speaks, a
/// hidden path is skipped only when hidden files are being ignored.
pub open spec fn spec_skip_decision(
    local: Option<bool>,
    global: Option<bool>,
    ignore_hidden: bool,
    hidden_or_ancestor: bool,
) -> bool {
    match local {
        Some(b) => b,
        None => match global {
            Some(b) => b,
            None => ignore_hidden && hidden_or_ancestor,
        },
    }
}

/// Combine the two matchers' verdicts with the hidden-file rule.
pub fn skip_decision(
    local: Option<bool>,
    global: Option<bool>,
    ignore_hidden: bool,
    hidden_or_ancestor: bool,
) -> (r: bool)
    ensures
        r == spec_skip_decision(local, global, ignore_hidden, hidden_or_ancestor),
{
    match local {
        Some(b) => b,
        None => match global {
            Some(b) => b,
            None => ignore_hidden && hidden_or_ancestor,
        },
    }
}

/// Configuration for building the ignore filter from a root.
pub struct IgnoreBuilder {
    /// Root the local rules are read from, as a byte path.
    pub root: Vec<u8>,
    /// Whether rules are also read from the root's `.ignore` file.
    pub ignore_dot: bool,
    /// Whether hidden files are included (not skipped).
    pub hidden: bool,
}

/// The composed ignore filter.
pub struct Ignore {
    global_ignore: ignore::gitignore::Gitignore,
    local_ignore: ignore::gitignore::Gitignore,
    ignore_hidden: bool,
    root: Vec<u8>,
}

/// Relies on ignore::gitignore::GitignoreBuilder::build_global: the global
/// gitignore matcher, built with the empty root; its rules depend on the
/// machine, so nothing is assumed of its verdicts.
#[verifier::external_body]
fn build_global_gitignore() -> (r: ignore::gitignore::Gitignore)
    ensures
        gitignore_root(r) == Seq::<u8>::empty(),
{
    let (global, _err) = ignore::gitignore::GitignoreBuilder::new("").build_global();
    global
}

/// Relies on ignore::gitignore::GitignoreBuilder: the matcher built from
/// the root's `.gitignore` (and, when asked, `.ignore`) with the rule that
/// `.git/**/*.lock` is always ignored; the builder keeps the root it was
/// given, with a leading `./` stripped. The verdicts depend on what those
/// files hold, so nothing is assumed of them. A root that is not UTF-8 is
/// refused.
#[verifier::external_body]
fn build_local_gitignore(root: &Vec<u8>, ignore_dot: bool) -> (r: Result<
    ignore::gitignore::Gitignore,
    String,
>)
    ensures
        (r matches Ok(gi) ==> gitignore_root(gi) == strip_dot_slash(root@)),
{
    let root = match core::str::from_utf8(root.as_slice()) {
        Ok(s) => std::path::Path::new(s),
        Err(e) => return Err(e.to_string()),
    };
    let mut builder = ignore::gitignore::GitignoreBuilder::new(root);
    builder.add(".gitignore");
    if ignore_dot {
        builder.add(".ignore");
    }
    if let Err(e) = builder.add_line(None, ".git/**/*.lock") {
        return Err(e.to_string());
    }
    builder.build().map_err(|e| e.to_string())
}

/// Relies on ignore::gitignore::Gitignore::matched_path_or_any_parents:
/// whether the matcher ignores the path or any of its parents (true),
/// whitelists it (false), or says nothing (none). The verdict consults the
/// matcher's rules and whether the path is a directory on disk, so nothing
/// is assumed of it. The method panics on a path that is still rooted
/// after the matcher strips its own root, so only paths in the matcher's
/// scope are admitted; a path that is not UTF-8 is matched as the empty
/// path, which is in every scope.
#[verifier::external_body]
fn should_ignore_skip_path(gi: &ignore::gitignore::Gitignore, path: &Vec<u8>) -> (r: Option<
    bool,
>)
    requires
        matcher_safe(path@, gitignore_root(*gi)),
{
    let path = std::path::Path::new(core::str::from_utf8(path.as_slice()).unwrap_or(""));
    match gi.matched_path_or_any_parents(path, path.is_dir()) {
        ignore::Match::None => None,
        ignore::Match::Ignore(_) => Some(true),
        ignore::Match::Whitelist(_) => Some(false),
    }
}

impl IgnoreBuilder {
    /// Build the composed filter from this configuration.
    pub fn build(&self) -> (r: Result<Ignore, String>)
        ensures
            r matches Ok(ig) ==> {
                &&& ig.wf()
                &&& ig.spec_root() == self.root@
                &&& ig.spec_ignore_hidden() == !self.hidden
            },
    {
        let global_ignore = build_global_gitignore();
        let local_ignore = match build_local_gitignore(&self.root, self.ignore_dot) {
            Ok(gi) => gi,
            Err(e) => {
                return Err(e);
            },
        };
        Ok(Ignore {
            global_ignore,
            local_ignore,
            ignore_hidden: !self.hidden,
            root: crate::proto::clone_bytes(&self.root),
        })
    }

    /// Switch off reading the root's `.ignore` file.
    pub fn no_ignore_dot(&mut self, value: bool)
        ensures
            final(self).ignore_dot == !value,
            final(self).root@ == old(self).root@,
            final(self).hidden == old(self).hidden,
    {
        self.ignore_dot = !value;
    }

    /// Choose whether hidden files are included.
    pub fn hidden(&mut self, value: bool)
        ensures
            final(self).hidden == value,
            final(self).root@ == old(self).root@,
            final(self).ignore_dot == old(self).ignore_dot,
    {
        self.hidden = value;
    }
}

impl Ignore {
    /// The matchers carry the roots the builder gave them.
    pub closed spec fn wf(self) -> bool {
        &&& gitignore_root(self.local_ignore) == strip_dot_slash(self.root@)
        &&& gitignore_root(self.global_ignore) == Seq::<u8>::empty()
    }

    /// The root the filter was built from.
    pub closed spec fn spec_root(self) -> Seq<u8> {
        self.root@
    }

    /// Whether paths that neither matcher speaks of are skipped when
    /// hidden.
    pub closed spec fn spec_ignore_hidden(self) -> bool {
        self.ignore_hidden
    }

    /// A path both matchers accept: in the scope of the filter's root, and
    /// in the scope of the global matcher's empty root.
    pub open spec fn spec_in_scope(self, path: Seq<u8>) -> bool {
        matcher_safe(path, strip_dot_slash(self.spec_root())) && matcher_safe(path, Seq::empty())
    }

    /// Start building a filter rooted at `root`: by default the `.ignore`
    /// file is read and hidden files are included.
    pub fn new(root: Vec<u8>) -> (r: IgnoreBuilder)
        ensures
            r.root@ == root@,
            r.ignore_dot == true,
            r.hidden == true,
    {
        IgnoreBuilder { root, ignore_dot: true, hidden: true }
    }

    /// Whether the path, or any of its ancestors, is hidden.
    pub fn is_hidden_or_any_parents(path: &Vec<u8>) -> (r: bool)
        ensures
            r == spec_hidden_or_ancestor(path@),
    {
        let mut current = crate::proto::clone_bytes(path);
        loop
            invariant
                spec_hidden_or_ancestor(path@) == spec_hidden_or_ancestor(current@),
            decreases current@.len(),
        {
            if is_hidden(&current) {
                return true;
            }
            match parent(&current) {
                Some(p) => {
                    current = p;
                },
                None => {
                    return false;
                },
            }
        }
    }

    /// Whether the path is in both matchers' scope, so that the filter can
    /// be consulted on it.
    pub fn in_scope(&self, path: &Vec<u8>) -> (r: bool)
        ensures
            r == self.spec_in_scope(path@),
    {
        let stripped_root = strip_dot_slash_exec(&self.root);
        let empty: &[u8] = &[];
        proof {
            assert(empty@ =~= Seq::<u8>::empty());
        }
        path_safe_for(path, stripped_root) && path_safe_for(path, empty)
    }

    /// Whether the path is skipped: the local rules first, then the global
    /// rules, then the hidden-file rule. The path must be in the filter's
    /// scope; `in_scope` decides that.
    pub fn should_skip_path(&self, path: &Vec<u8>) -> bool
        requires
            self.wf(),
            self.spec_in_scope(path@),
    {
        let local = should_ignore_skip_path(&self.local_ignore, path);
        let global = should_ignore_skip_path(&self.global_ignore, path);
        let hidden_or_ancestor = Self::is_hidden_or_any_parents(path);
        skip_decision(local, global, self.ignore_hidden, hidden_or_ancestor)
    }
}

/// The slice left after stripping one leading `./`.
fn strip_dot_slash_exec(p: &Vec<u8>) -> (r: &[u8])
    ensures
        r@ == strip_dot_slash(p@),
{
    if p.len() >= 2 && p[0] == DOT_BYTE && p[1] == SEP_BYTE {
        vstd::slice::slice_subrange(p.as_slice(), 2, p.len())
    } else {
        let r = p.as_slice();
        proof {
            assert(r@ =~= strip_dot_slash(p@));
        }
        r
    }
}

/// Whether `prefix` is a byte prefix of `p`.
fn bytes_prefix(prefix: &[u8], p: &[u8]) -> (r: bool)
    ensures
        r == (prefix@.len() <= p@.len() && p@.subrange(0, prefix@.len() as int) == prefix@),
{
    let n = prefix.len();
    if n > p.len() {
        return false;
    }
    let head = vstd::slice::slice_subrange(p, 0, n);
    let mut i: usize = 0;
    while i < n
        invariant
            i <= n,
            n == prefix@.len(),
            n <= p@.len(),
            head@ == p@.subrange(0, n as int),
            forall|k: int| 0 <= k < i ==> head@[k] == prefix@[k],
        decreases n - i,
    {
        if *vstd::slice::slice_index_get(head, i) != *vstd::slice::slice_index_get(prefix, i) {
            return false;
        }
        i = i + 1;
    }
    proof {
        assert(head@ =~= prefix@);
    }
    true
}

/// Whether a path is accepted by a matcher rooted at `root`, as
/// `matcher_safe` defines it.
fn path_safe_for(path: &Vec<u8>, root: &[u8]) -> (r: bool)
    ensures
        r == matcher_safe(path@, root@),
{
    let p = strip_dot_slash_exec(path);
    let rn = root.len();
    if p.len() > rn && bytes_prefix(root, p) {
        if p.len() - rn >= 2 && *vstd::slice::slice_index_get(p, rn) == SEP_BYTE
            && *vstd::slice::slice_index_get(p, rn + 1) == SEP_BYTE {
            proof {
                let q = strip_dot_slash(path@).subrange(
                    rn as int,
                    strip_dot_slash(path@).len() as int,
                );
                assert(q[0] == strip_dot_slash(path@)[rn as int]);
                assert(q[1] == strip_dot_slash(path@)[rn as int + 1]);
            }
            false
        } else {
            proof {
                let sp = strip_dot_slash(path@);
                let q = sp.subrange(rn as int, sp.len() as int);
                if q.len() >= 2 {
                    assert(q[0] == sp[rn as int]);
                    assert(q[1] == sp[rn as int + 1]);
                }
            }
            true
        }
    } else if p.len() == rn && bytes_prefix(root, p) {
        proof {
            assert(strip_dot_slash(path@) =~= root@);
        }
        true
    } else {
        proof {
            let sp = strip_dot_slash(path@);
            if sp.len() > root@.len() {
                assert(sp.subrange(0, root@.len() as int) != root@);
            } else if sp.len() == root@.len() {
                assert(sp != root@) by {
                    if sp == root@ {
                        assert(sp.subrange(0, root@.len() as int) =~= sp);
                    }
                }
            }
        }
        p.is_empty() || *vstd::slice::slice_index_get(p, 0) != SEP_BYTE
    }
}

} // verus!
