//! The dispatch engine: it owns the parsed bind tree, holds a reference to
//! the currently active bind sequence, and on each received key-press event
//! finds the matching bind, yields its command, and computes the exact
//! deregister/register pair for the mode transition, so that the chords with
//! standing interest always equal the chords of the active sequence.

use vstd::prelude::*;
use crate::bind::{Bind, Action};
use crate::chord::{Chord, matches_event};

verus! {

/// The bind sequence a path of indices leads to: each step descends into the
/// mode entered by the bind at that index.
pub open spec fn seq_at(bs: Seq<Bind>, path: Seq<int>) -> Seq<Bind>
    decreases path.len(),
{
    if path.len() == 0 {
        bs
    } else {
        match bs[path[0]].action {
            Action::EnterMode { binds } => seq_at(binds@, path.drop_first()),
            Action::ToRoot => Seq::empty(),
        }
    }
}

/// A path is valid in a bind tree when each index is in bounds and names a
/// bind whose action enters a mode.
pub open spec fn path_valid(bs: Seq<Bind>, path: Seq<int>) -> bool
    decreases path.len(),
{
    path.len() == 0 || {
        &&& 0 <= path[0] < bs.len()
        &&& bs[path[0]].action matches Action::EnterMode { binds }
        &&& path_valid(binds@, path.drop_first())
    }
}

/// The chords of a bind sequence, in order.
pub open spec fn chords_of(bs: Seq<Bind>) -> Seq<Chord> {
    bs.map(|_k: int, b: Bind| b.chord)
}

/// The index of the first bind in `bs` whose chord the event matches, if
/// any: the linear scan of the dispatch transition.
pub open spec fn first_match(bs: Seq<Bind>, state: u32, detail: u8) -> Option<int>
    decreases bs.len(),
{
    if bs.len() == 0 {
        Option::None
    } else if matches_event(bs[0].chord, state, detail) {
        Option::Some(0)
    } else {
        match first_match(bs.drop_first(), state, detail) {
            Option::Some(i) => Option::Some(i + 1),
            Option::None => Option::None,
        }
    }
}

/// The first match is in bounds, matches, and nothing before it matches; no
/// match means nothing matches at all.
pub proof fn lemma_first_match(bs: Seq<Bind>, state: u32, detail: u8)
    ensures
        match first_match(bs, state, detail) {
            Option::Some(i) => 0 <= i < bs.len() && matches_event(bs[i].chord, state,
                detail) && forall|k: int| 0 <= k < i ==> !matches_event(bs[k].chord,
                state, detail),
            Option::None => forall|k: int| 0 <= k < bs.len() ==> !matches_event(
                bs[k].chord, state, detail),
        },
    decreases bs.len(),
{
    if bs.len() > 0 && !matches_event(bs[0].chord, state, detail) {
        lemma_first_match(bs.drop_first(), state, detail);
        assert(forall|k: int| 1 <= k < bs.len() ==> bs[k] == bs.drop_first()[k - 1]);
    }
}

/// A scan that found a match at `k`, every earlier bind failing, found the
/// first match.
pub proof fn lemma_first_match_found(bs: Seq<Bind>, state: u32, detail: u8, k: int)
    requires
        0 <= k < bs.len(),
        matches_event(bs[k].chord, state, detail),
        forall|j: int| 0 <= j < k ==> !matches_event(bs[j].chord, state, detail),
    ensures
        first_match(bs, state, detail) == Option::Some(k),
{
    lemma_first_match(bs, state, detail);
    match first_match(bs, state, detail) {
        Option::Some(i) => {
            if i < k {
                assert(!matches_event(bs[i].chord, state, detail));
            }
            if i > k {
                assert(!matches_event(bs[k].chord, state, detail));
            }
        }
        Option::None => {
            assert(!matches_event(bs[k].chord, state, detail));
        }
    }
}

/// The next active path after an event: unchanged when nothing matches; on a
/// match, descend into the entered mode, or return to the root.
pub open spec fn step_path(root: Seq<Bind>, path: Seq<int>, state: u32, detail: u8) -> Seq<int> {
    let active = seq_at(root, path);
    match first_match(active, state, detail) {
        Option::None => path,
        Option::Some(i) => match active[i].action {
            Action::EnterMode { .. } => path.push(i),
            Action::ToRoot => Seq::empty(),
        },
    }
}

/// Descending from a valid path into a mode-entering bind keeps the path
/// valid, and the sequence there is that bind's nested binds.
pub proof fn lemma_path_push(bs: Seq<Bind>, path: Seq<int>, i: int)
    requires
        path_valid(bs, path),
        0 <= i < seq_at(bs, path).len(),
        seq_at(bs, path)[i].action is EnterMode,
    ensures
        path_valid(bs, path.push(i)),
        seq_at(bs, path.push(i)) == (match seq_at(bs, path)[i].action {
            Action::EnterMode { binds } => binds@,
            Action::ToRoot => Seq::empty(),
        }),
    decreases path.len(),
{
    if path.len() == 0 {
        assert(seq_at(bs, path) == bs);
        assert(path.push(i).drop_first() =~= Seq::<int>::empty());
        assert(path.push(i)[0] == i);
        match bs[i].action {
            Action::EnterMode { binds } => {
                assert(path_valid(binds@, Seq::<int>::empty()));
                assert(seq_at(binds@, Seq::<int>::empty()) == binds@);
            }
            Action::ToRoot => {
                assert(false);
            }
        }
    } else {
        let sub = match bs[path[0]].action {
            Action::EnterMode { binds } => binds@,
            Action::ToRoot => Seq::empty(),
        };
        lemma_path_push(sub, path.drop_first(), i);
        assert(path.push(i).drop_first() =~= path.drop_first().push(i));
        assert(path.push(i)[0] == path[0]);
        assert(seq_at(bs, path) == seq_at(sub, path.drop_first()));
        assert(seq_at(bs, path.push(i)) == seq_at(sub, path.push(i).drop_first()));
    }
}

/// What one event does: the command to spawn, and the deregister/register
/// pair when the active sequence changes.
pub struct StepEffect {
    /// The matched bind's command, run unconditionally before the mode
    /// transition is evaluated.
    pub output: Option<String>,
    /// `Some((out, into))` when the active sequence changes: every chord of
    /// `out` is to be deregistered, then every chord of `into` registered.
    pub transition: Option<(Vec<Chord>, Vec<Chord>)>,
}

/// The dispatch engine: the immutable bind tree, and the path of mode
/// indices leading to the currently active sequence (empty: the root).
pub struct Dispatcher {
    pub root: Vec<Bind>,
    pub path: Vec<usize>,
}

impl Dispatcher {
    /// The current path as a sequence of indices into the tree.
    pub open spec fn spec_path(self) -> Seq<int> {
        self.path@.map(|_k: int, v: usize| v as int)
    }

    /// The dispatcher's path leads to a bind sequence of the tree.
    pub open spec fn wf(self) -> bool {
        path_valid(self.root@, self.spec_path())
    }

    /// The currently active bind sequence.
    pub open spec fn active(self) -> Seq<Bind> {
        seq_at(self.root@, self.spec_path())
    }

    /// A dispatcher over a parsed bind tree; the root sequence is active.
    pub fn new(root: Vec<Bind>) -> (r: Dispatcher)
        ensures
            r.root == root,
            r.wf(),
            r.active() == root@,
            r.spec_path() == Seq::<int>::empty(),
    {
        let r = Dispatcher { root, path: Vec::new() };
        proof {
            assert(r.spec_path() =~= Seq::<int>::empty());
        }
        r
    }

    /// A reference to the currently active bind sequence.
    fn active_ref(&self) -> (r: &Vec<Bind>)
        requires
            self.wf(),
        ensures
            r@ == self.active(),
    {
        let mut cur: &Vec<Bind> = &self.root;
        let mut k: usize = 0;
        proof {
            assert(self.spec_path().skip(0) =~= self.spec_path());
        }
        while k < self.path.len()
            invariant
                0 <= k <= self.path@.len(),
                self.wf(),
                path_valid(cur@, self.spec_path().skip(k as int)),
                seq_at(cur@, self.spec_path().skip(k as int)) == self.active(),
            decreases self.path@.len() - k,
        {
            let ghost tail = self.spec_path().skip(k as int);
            proof {
                assert(tail.len() > 0);
                assert(tail[0] == self.spec_path()[k as int]);
                assert(tail[0] == self.path@[k as int] as int);
                assert(tail.drop_first() =~= self.spec_path().skip(k as int + 1));
            }
            let i = self.path[k];
            match &cur[i].action {
                Action::EnterMode { binds } => {
                    cur = binds;
                }
                Action::ToRoot => {
                    proof {
                        assert(false);
                    }
                }
            }
            k += 1;
        }
        proof {
            assert(self.spec_path().skip(k as int) =~= Seq::<int>::empty());
        }
        cur
    }

    /// The chords of the currently active sequence: what must stand
    /// registered with the environment between transitions.
    pub fn active_chords(&self) -> (r: Vec<Chord>)
        requires
            self.wf(),
        ensures
            r@ == chords_of(self.active()),
    {
        chords_vec(self.active_ref())
    }

    /// Process one incoming key-press event: linear-scan the active sequence
    /// for the first bind whose chord matches; no match is a no-op. On a
    /// match, yield its command, and for its action compute the transition:
    /// entering a mode deregisters every chord of the active sequence and
    /// registers those of the entered one (even when it is the same
    /// sequence); returning to the root does the same towards the root
    /// sequence, except that at the root itself it is a no-op with no
    /// deregister/register at all.
    pub fn step(&mut self, state: u32, detail: u8) -> (r: StepEffect)
        requires
            old(self).wf(),
        ensures
            final(self).wf(),
            final(self).root == old(self).root,
            final(self).spec_path() == step_path(old(self).root@, old(self).spec_path(),
                state, detail),
            ({
                let active = old(self).active();
                match first_match(active, state, detail) {
                    Option::None => r.output is None && r.transition is None
                        && final(self).spec_path() == old(self).spec_path(),
                    Option::Some(i) => {
                        &&& r.output == active[i].output
                        &&& match active[i].action {
                            Action::EnterMode { .. } => r.transition matches Option::Some(t)
                                && t.0@ == chords_of(active)
                                && t.1@ == chords_of(final(self).active()),
                            Action::ToRoot => if old(self).spec_path().len() == 0 {
                                r.transition is None && final(self).spec_path()
                                    == old(self).spec_path()
                            } else {
                                r.transition matches Option::Some(t)
                                    && t.0@ == chords_of(active)
                                    && t.1@ == chords_of(old(self).root@)
                            },
                        }
                    }
                }
            }),
    {
        let ghost active = self.active();
        let idx: Option<usize>;
        {
            let a = self.active_ref();
            let mut k: usize = 0;
            let mut found: Option<usize> = Option::None;
            while k < a.len() && found.is_none()
                invariant
                    0 <= k <= a@.len(),
                    a@ == active,
                    match found {
                        Option::Some(f) => f < k
                            && matches_event(a@[f as int].chord, state, detail)
                            && (forall|j: int| 0 <= j < f ==> !matches_event(
                                a@[j].chord, state, detail)),
                        Option::None => forall|j: int| 0 <= j < k ==> !matches_event(
                            a@[j].chord, state, detail),
                    },
                decreases a@.len() - k,
            {
                if a[k].chord.matches(state, detail) {
                    found = Option::Some(k);
                }
                k += 1;
            }
            proof {
                match found {
                    Option::Some(f) => {
                        lemma_first_match_found(active, state, detail, f as int);
                    }
                    Option::None => {
                        lemma_first_match(active, state, detail);
                        if first_match(active, state, detail) is Some {
                            let fi = first_match(active, state, detail)->0;
                            assert(!matches_event(active[fi].chord, state, detail));
                        }
                    }
                }
            }
            idx = found;
        }
        match idx {
            Option::None => StepEffect { output: Option::None, transition: Option::None },
            Option::Some(i) => {
                let output: Option<String>;
                let is_enter: bool;
                {
                    let a = self.active_ref();
                    output = match &a[i].output {
                        Option::Some(o) => Option::Some(o.clone()),
                        Option::None => Option::None,
                    };
                    is_enter = match &a[i].action {
                        Action::EnterMode { .. } => true,
                        Action::ToRoot => false,
                    };
                }
                if is_enter {
                    let out = chords_vec(self.active_ref());
                    proof {
                        lemma_path_push(self.root@, self.spec_path(), i as int);
                    }
                    self.path.push(i);
                    proof {
                        assert(self.spec_path() =~= old(self).spec_path().push(i as int));
                    }
                    let into = chords_vec(self.active_ref());
                    StepEffect { output, transition: Option::Some((out, into)) }
                } else if self.path.len() == 0 {
                    // Already at the root: avoid the redundant deregister
                    // and register of the same set.
                    StepEffect { output, transition: Option::None }
                } else {
                    let out = chords_vec(self.active_ref());
                    self.path = Vec::new();
                    proof {
                        assert(self.spec_path() =~= Seq::<int>::empty());
                    }
                    let into = chords_vec(self.active_ref());
                    StepEffect { output, transition: Option::Some((out, into)) }
                }
            }
        }
    }
}

/// The chords of a bind sequence, collected in order.
fn chords_vec(bs: &Vec<Bind>) -> (r: Vec<Chord>)
    ensures
        r@ == chords_of(bs@),
{
    let mut r: Vec<Chord> = Vec::new();
    let mut k: usize = 0;
    while k < bs.len()
        invariant
            0 <= k <= bs@.len(),
            r@ == chords_of(bs@).take(k as int),
        decreases bs@.len() - k,
    {
        r.push(bs[k].chord);
        k += 1;
        proof {
            assert(chords_of(bs@).take(k as int) =~= chords_of(bs@).take(k - 1).push(
                bs@[k - 1].chord));
        }
    }
    proof {
        assert(chords_of(bs@).take(k as int) =~= chords_of(bs@));
    }
    r
}

/// Mode isolation: an event that matches no chord of the currently active
/// sequence — in particular one matching chords defined only in a previously
/// active, now inactive sequence — triggers nothing: the first-match scan
/// fails and the active path stays as it is.
pub proof fn lemma_mode_isolation(root: Seq<Bind>, path: Seq<int>, state: u32, detail: u8)
    requires
        forall|k: int| 0 <= k < seq_at(root, path).len() ==> !matches_event(
            #[trigger] seq_at(root, path)[k].chord, state, detail),
    ensures
        first_match(seq_at(root, path), state, detail) is None,
        step_path(root, path, state, detail) == path,
{
    lemma_first_match(seq_at(root, path), state, detail);
    if first_match(seq_at(root, path), state, detail) is Some {
        let i = first_match(seq_at(root, path), state, detail)->0;
        assert(!matches_event(seq_at(root, path)[i].chord, state, detail));
    }
}

/// Idempotent return-to-root: an event whose matched bind returns to the
/// root, received while the root sequence is already the active one, leaves
/// the active path unchanged; [`Dispatcher::step`] then reports no
/// transition, so no deregister or register happens at all.
pub proof fn lemma_idempotent_return_to_root(root: Seq<Bind>, state: u32, detail: u8, i: int)
    requires
        first_match(root, state, detail) == Option::Some(i),
        0 <= i < root.len(),
        root[i].action is ToRoot,
    ensures
        step_path(root, Seq::<int>::empty(), state, detail) == Seq::<int>::empty(),
{
    assert(seq_at(root, Seq::<int>::empty()) == root);
}

} // verus!
