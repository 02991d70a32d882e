//! Breakpoints, kept per file path and independent of any debug session.
//!
//! A breakpoint is anchored at a position in a file and is either a plain
//! stop or a log point carrying a message. Two anchored breakpoints count as
//! the same breakpoint when they sit at the same position and are of the
//! same kind, whatever a log point's message says; toggling removes the
//! matching breakpoints or, where none matched, adds the new one.

use vstd::prelude::*;

verus! {

/// The message a log point prints when it is hit.
pub type LogMessage = String;

/// How a breakpoint at a position is edited.
#[derive(Clone, Debug)]
pub enum BreakpointEditAction {
    /// Remove the matching breakpoints, or add this one if none matched.
    Toggle,
    /// Turn the breakpoint into a log point with this message, or remove
    /// the log point when the message is empty.
    EditLogMessage(LogMessage),
}

/// What happens when the breakpoint is hit.
#[derive(Debug)]
pub enum BreakpointKind {
    Standard,
    Log(LogMessage),
}

impl Clone for BreakpointKind {
    fn clone(&self) -> (r: Self)
        ensures
            r == *self,
    {
        match self {
            BreakpointKind::Standard => BreakpointKind::Standard,
            BreakpointKind::Log(message) => BreakpointKind::Log(message.clone()),
        }
    }
}

/// Whether two kinds are the same sort of breakpoint. A log point's message
/// does not distinguish kinds.
pub open spec fn same_kind(a: BreakpointKind, b: BreakpointKind) -> bool {
    match (a, b) {
        (BreakpointKind::Standard, BreakpointKind::Standard) => true,
        (BreakpointKind::Log(_), BreakpointKind::Log(_)) => true,
        _ => false,
    }
}

impl BreakpointKind {
    /// A stable small integer for serialization: plain breakpoints are 0,
    /// log points 1.
    pub fn to_int(&self) -> (r: i32)
        ensures
            (self matches BreakpointKind::Standard) ==> r == 0,
            (self matches BreakpointKind::Log(_)) ==> r == 1,
    {
        match self {
            BreakpointKind::Standard => 0,
            BreakpointKind::Log(_) => 1,
        }
    }

    /// The log point's message, if this is one.
    pub fn log_message(&self) -> (r: Option<LogMessage>)
        ensures
            (self matches BreakpointKind::Standard) ==> r is None,
            self matches BreakpointKind::Log(m) ==> (r matches Some(x) && x == m),
    {
        match self {
            BreakpointKind::Standard => None,
            BreakpointKind::Log(message) => Some(message.clone()),
        }
    }
}

impl PartialEq for BreakpointKind {
    /// Kinds compare by sort alone: any two log points are equal.
    fn eq(&self, other: &Self) -> (r: bool) {
        match (self, other) {
            (BreakpointKind::Standard, BreakpointKind::Standard) => true,
            (BreakpointKind::Log(_), BreakpointKind::Log(_)) => true,
            _ => false,
        }
    }
}

impl vstd::std_specs::cmp::PartialEqSpecImpl for BreakpointKind {
    open spec fn obeys_eq_spec() -> bool {
        true
    }

    open spec fn eq_spec(&self, other: &Self) -> bool {
        same_kind(*self, *other)
    }
}

/// A breakpoint as the store keeps it.
#[derive(Debug)]
pub struct Breakpoint {
    pub kind: BreakpointKind,
}

impl Clone for Breakpoint {
    fn clone(&self) -> (r: Self)
        ensures
            r == *self,
    {
        Breakpoint { kind: self.kind.clone() }
    }
}

/// An anchored breakpoint: its position in the file, and the breakpoint.
pub type AnchoredBreakpoint = (u32, Breakpoint);

/// Whether two anchored breakpoints count as the same breakpoint: same
/// position, same sort.
pub open spec fn same_breakpoint(a: AnchoredBreakpoint, b: AnchoredBreakpoint) -> bool {
    a.0 == b.0 && same_kind(a.1.kind, b.1.kind)
}

/// A breakpoint ready to be persisted.
#[derive(Clone, Debug)]
pub struct SerializedBreakpoint {
    pub position: u32,
    pub path: String,
    pub kind: BreakpointKind,
}

/// The breakpoints of `list` that do not match `bp`, in order.
pub open spec fn without_matching(list: Seq<AnchoredBreakpoint>, bp: AnchoredBreakpoint) -> Seq<
    AnchoredBreakpoint,
>
    decreases list.len(),
{
    if list.len() == 0 {
        Seq::empty()
    } else {
        without_matching(list.drop_last(), bp) + if !same_breakpoint(list.last(), bp) {
            seq![list.last()]
        } else {
            Seq::<AnchoredBreakpoint>::empty()
        }
    }
}

/// The list after toggling `bp`: every matching breakpoint is removed, and
/// where none matched the new one is appended.
pub open spec fn toggled(list: Seq<AnchoredBreakpoint>, bp: AnchoredBreakpoint) -> Seq<
    AnchoredBreakpoint,
> {
    let remaining = without_matching(list, bp);
    if remaining.len() == list.len() {
        list.push(bp)
    } else {
        remaining
    }
}

/// The list after one edit of `bp`.
pub open spec fn edited_list(
    list: Seq<AnchoredBreakpoint>,
    bp: AnchoredBreakpoint,
    action: BreakpointEditAction,
) -> Seq<AnchoredBreakpoint> {
    match action {
        BreakpointEditAction::Toggle => toggled(list, bp),
        BreakpointEditAction::EditLogMessage(message) => {
            if message@.len() > 0 {
                toggled(list, (bp.0, Breakpoint { kind: BreakpointKind::Log(message) }))
            } else if bp.1.kind matches BreakpointKind::Log(_) {
                without_matching(list, bp)
            } else {
                list
            }
        },
    }
}

/// The breakpoint list stored under the first entry with this path, if any.
pub open spec fn path_entry(
    entries: Seq<(String, Vec<AnchoredBreakpoint>)>,
    path: Seq<char>,
) -> Option<Seq<AnchoredBreakpoint>>
    decreases entries.len(),
{
    if entries.len() == 0 {
        None
    } else if entries[0].0@ == path {
        Some(entries[0].1@)
    } else {
        path_entry(entries.drop_first(), path)
    }
}

/// A path has no entry exactly when no stored pair carries it.
proof fn lemma_path_entry_absent(entries: Seq<(String, Vec<AnchoredBreakpoint>)>, path: Seq<char>)
    ensures
        (path_entry(entries, path) is None) <==> (forall|j: int|
            0 <= j < entries.len() ==> entries[j].0@ != path),
    decreases entries.len(),
{
    if entries.len() == 0 {
    } else {
        lemma_path_entry_absent(entries.drop_first(), path);
        assert(forall|j: int|
            1 <= j < entries.len() ==> entries[j] == entries.drop_first()[j - 1]);
    }
}

/// Removing the only entry of a path removes the path; every other path
/// keeps its entry.
proof fn lemma_path_entry_remove(entries: Seq<(String, Vec<AnchoredBreakpoint>)>, i: int)
    requires
        0 <= i < entries.len(),
        forall|j: int|
            0 <= j < entries.len() && j != i ==> entries[j].0@ != entries[i].0@,
    ensures
        path_entry(entries.remove(i), entries[i].0@) is None,
        forall|p: Seq<char>|
            p != entries[i].0@ ==> path_entry(entries.remove(i), p) == path_entry(entries, p),
    decreases entries.len(),
{
    let removed = entries.remove(i);
    if i == 0 {
        assert(removed =~= entries.drop_first());
        lemma_path_entry_absent(entries.drop_first(), entries[0].0@);
        assert(forall|j: int|
            1 <= j < entries.len() ==> entries[j] == entries.drop_first()[j - 1]);
    } else {
        assert forall|j: int|
            0 <= j < entries.drop_first().len() && j != i - 1 implies (
        #[trigger] entries.drop_first()[j]).0@ != entries.drop_first()[i - 1].0@ by {
            assert(entries.drop_first()[j] == entries[j + 1]);
            assert(entries.drop_first()[i - 1] == entries[i]);
        }
        lemma_path_entry_remove(entries.drop_first(), i - 1);
        assert(entries.drop_first().remove(i - 1) =~= removed.drop_first());
        assert(entries.drop_first()[i - 1] == entries[i]);
        assert(removed[0] == entries[0]);
        assert(removed.len() > 0);
        assert forall|p: Seq<char>| p != entries[i].0@ implies path_entry(removed, p)
            == path_entry(entries, p) by {
            if removed[0].0@ == p {
                assert(path_entry(removed, p) == Some(removed[0].1@));
                assert(path_entry(entries, p) == Some(entries[0].1@));
            } else {
                assert(path_entry(removed, p) == path_entry(removed.drop_first(), p));
                assert(path_entry(removed.drop_first(), p) == path_entry(
                    entries.drop_first(),
                    p,
                ));
                assert(path_entry(entries, p) == path_entry(entries.drop_first(), p));
            }
        }
        assert(path_entry(removed, entries[i].0@) is None) by {
            assert(removed[0].0@ != entries[i].0@);
            assert(path_entry(removed.drop_first(), entries.drop_first()[i - 1].0@) is None);
        }
    }
}

/// Appending an entry for an absent path stores its list; every other path
/// keeps its entry.
proof fn lemma_path_entry_push(
    entries: Seq<(String, Vec<AnchoredBreakpoint>)>,
    entry: (String, Vec<AnchoredBreakpoint>),
)
    requires
        path_entry(entries, entry.0@) is None,
    ensures
        path_entry(entries.push(entry), entry.0@) == Some(entry.1@),
        forall|p: Seq<char>|
            p != entry.0@ ==> path_entry(entries.push(entry), p) == path_entry(entries, p),
    decreases entries.len(),
{
    let pushed = entries.push(entry);
    if entries.len() == 0 {
        assert(pushed[0] == entry);
        assert(pushed.drop_first() =~= Seq::<(String, Vec<AnchoredBreakpoint>)>::empty());
        assert forall|p: Seq<char>| p != entry.0@ implies path_entry(pushed, p) == path_entry(
            entries,
            p,
        ) by {
            assert(path_entry(pushed, p) == path_entry(pushed.drop_first(), p));
        }
    } else {
        lemma_path_entry_push(entries.drop_first(), entry);
        assert(pushed[0] == entries[0]);
        assert(pushed.drop_first() =~= entries.drop_first().push(entry));
        assert(pushed[0].0@ != entry.0@);
        assert(path_entry(pushed, entry.0@) == path_entry(pushed.drop_first(), entry.0@));
        assert forall|p: Seq<char>| p != entry.0@ implies path_entry(pushed, p) == path_entry(
            entries,
            p,
        ) by {
            if pushed[0].0@ == p {
                assert(path_entry(pushed, p) == Some(pushed[0].1@));
                assert(path_entry(entries, p) == Some(entries[0].1@));
            } else {
                assert(path_entry(pushed, p) == path_entry(pushed.drop_first(), p));
                assert(path_entry(entries, p) == path_entry(entries.drop_first(), p));
            }
        }
    }
}

/// The frame stored under the first entry with this thread, if any.
pub open spec fn frame_entry(entries: Seq<(u64, (String, u32))>, thread_id: u64) -> Option<
    (String, u32),
>
    decreases entries.len(),
{
    if entries.len() == 0 {
        None
    } else if entries[0].0 == thread_id {
        Some(entries[0].1)
    } else {
        frame_entry(entries.drop_first(), thread_id)
    }
}

/// The store, one breakpoint list per file path.
pub struct BreakpointStore {
    breakpoints: Vec<(String, Vec<AnchoredBreakpoint>)>,
    active_stack_frames: Vec<(u64, (String, u32))>,
}

impl BreakpointStore {
    /// Every path has at most one entry and no entry is empty.
    pub closed spec fn wf(self) -> bool {
        forall|a: int, b: int|
            0 <= a < b < self.breakpoints@.len() ==> self.breakpoints@[a].0@
                != self.breakpoints@[b].0@
    }

    /// The breakpoint list of a path, if the path has any.
    pub closed spec fn spec_breakpoints(self, path: Seq<char>) -> Option<Seq<AnchoredBreakpoint>> {
        path_entry(self.breakpoints@, path)
    }

    /// The position of the active stack frame of a thread, if one was set.
    pub closed spec fn spec_active_frame(self, thread_id: u64) -> Option<(String, u32)> {
        frame_entry(self.active_stack_frames@, thread_id)
    }

    /// A store for the local machine: empty.
    pub fn local() -> (r: BreakpointStore)
        ensures
            r.wf(),
            forall|p: Seq<char>| r.spec_breakpoints(p) is None,
            forall|t: u64| r.spec_active_frame(t) is None,
    {
        BreakpointStore { breakpoints: Vec::new(), active_stack_frames: Vec::new() }
    }

    /// Records the position a thread is stopped at, replacing what was
    /// recorded for it before.
    pub fn set_active_stack_frame(&mut self, thread_id: u64, path: String, position: u32)
        requires
            old(self).wf(),
        ensures
            final(self).wf(),
            final(self).spec_active_frame(thread_id) == Some((path, position)),
            forall|t: u64|
                t != thread_id ==> final(self).spec_active_frame(t) == old(self).spec_active_frame(
                    t,
                ),
            forall|p: Seq<char>|
                final(self).spec_breakpoints(p) == old(self).spec_breakpoints(p),
    {
        let ghost pre = self.active_stack_frames@;
        self.active_stack_frames.insert(0, (thread_id, (path, position)));
        proof {
            let now = self.active_stack_frames@;
            assert(now[0].0 == thread_id);
            assert(now.drop_first() =~= pre);
        }
    }

    /// The index of the entry of a path, if the path has one.
    fn find_path_index(&self, path: &String) -> (r: Option<usize>)
        ensures
            match r {
                Some(i) => i < self.breakpoints@.len() && self.breakpoints@[i as int].0@ == path@
                    && (forall|j: int|
                    0 <= j < i ==> self.breakpoints@[j].0@ != path@),
                None => self.spec_breakpoints(path@) is None,
            },
    {
        let mut i: usize = 0;
        while i < self.breakpoints.len()
            invariant
                i <= self.breakpoints@.len(),
                forall|j: int| 0 <= j < i ==> self.breakpoints@[j].0@ != path@,
            decreases self.breakpoints@.len() - i,
        {
            if self.breakpoints[i].0.eq(path) {
                return Some(i);
            }
            i = i + 1;
        }
        proof {
            lemma_path_entry_absent(self.breakpoints@, path@);
        }
        None
    }

    /// Edits the breakpoint anchored at `breakpoint` in the file at
    /// `abs_path`: toggles it, or turns it into or removes a log point.
    /// A path whose list becomes empty loses its entry.
    pub fn toggle_breakpoint(
        &mut self,
        abs_path: String,
        breakpoint: AnchoredBreakpoint,
        edit_action: BreakpointEditAction,
    )
        requires
            old(self).wf(),
        ensures
            final(self).wf(),
            forall|p: Seq<char>|
                p != abs_path@ ==> final(self).spec_breakpoints(p) == old(self).spec_breakpoints(p),
            forall|t: u64| final(self).spec_active_frame(t) == old(self).spec_active_frame(t),
            ({
                let old_list = match old(self).spec_breakpoints(abs_path@) {
                    Some(list) => list,
                    None => Seq::<AnchoredBreakpoint>::empty(),
                };
                let new_list = edited_list(old_list, breakpoint, edit_action);
                if new_list.len() == 0 {
                    final(self).spec_breakpoints(abs_path@) is None
                } else {
                    final(self).spec_breakpoints(abs_path@) == Some(new_list)
                }
            }),
    {
        let ghost pre_entries = self.breakpoints@;
        let list: Vec<AnchoredBreakpoint> = match self.find_path_index(&abs_path) {
            Some(i) => {
                proof {
                    lemma_path_entry_first(pre_entries, i as int);
                    lemma_path_entry_remove(pre_entries, i as int);
                }
                let entry = self.breakpoints.remove(i);
                entry.1
            },
            None => Vec::new(),
        };
        proof {
            assert(self.spec_breakpoints(abs_path@) is None);
            assert forall|a: int, b: int|
                0 <= a < b < self.breakpoints@.len() implies self.breakpoints@[a].0@
                != self.breakpoints@[b].0@ by {}
        }
        let new_list: Vec<AnchoredBreakpoint> = match edit_action {
            BreakpointEditAction::Toggle => toggle_list(list, breakpoint),
            BreakpointEditAction::EditLogMessage(message) => {
                if !message.as_str().is_empty() {
                    let position = breakpoint.0;
                    toggle_list(list, (position, Breakpoint { kind: BreakpointKind::Log(message) }))
                } else {
                    match breakpoint.1.kind {
                        BreakpointKind::Log(_) => remove_matching(list, &breakpoint),
                        BreakpointKind::Standard => list,
                    }
                }
            },
        };
        if new_list.len() > 0 {
            proof {
                lemma_path_entry_push(self.breakpoints@, (abs_path, new_list));
            }
            let ghost mid_entries = self.breakpoints@;
            self.breakpoints.push((abs_path, new_list));
            proof {
                lemma_path_entry_absent(mid_entries, abs_path@);
                assert forall|a: int, b: int|
                    0 <= a < b < self.breakpoints@.len() implies self.breakpoints@[a].0@
                    != self.breakpoints@[b].0@ by {}
            }
        }
    }

    /// Moves the breakpoints of a renamed file to its new path, replacing
    /// whatever the new path held. A path without breakpoints changes
    /// nothing.
    pub fn on_file_rename(&mut self, old_path: String, new_path: String)
        requires
            old(self).wf(),
        ensures
            final(self).wf(),
            forall|t: u64| final(self).spec_active_frame(t) == old(self).spec_active_frame(t),
            (old(self).spec_breakpoints(old_path@) is None) ==> forall|p: Seq<char>|
                final(self).spec_breakpoints(p) == old(self).spec_breakpoints(p),
            old(self).spec_breakpoints(old_path@) matches Some(list) ==> final(self).spec_breakpoints(new_path@) == Some(list) && (old_path@ != new_path@ ==> final(self).spec_breakpoints(old_path@) is None) && (forall|p: Seq<char>|
                p != old_path@ && p != new_path@ ==> final(self).spec_breakpoints(p) == old(self).spec_breakpoints(p)),
    {
        let ghost pre_entries = self.breakpoints@;
        match self.find_path_index(&old_path) {
            None => {},
            Some(i) => {
                proof {
                    lemma_path_entry_first(pre_entries, i as int);
                    lemma_path_entry_remove(pre_entries, i as int);
                }
                let entry = self.breakpoints.remove(i);
                proof {
                    assert forall|a: int, b: int|
                        0 <= a < b < self.breakpoints@.len() implies self.breakpoints@[a].0@
                        != self.breakpoints@[b].0@ by {}
                }
                let ghost mid1 = self.breakpoints@;
                match self.find_path_index(&new_path) {
                    None => {},
                    Some(j) => {
                        proof {
                            lemma_path_entry_remove(mid1, j as int);
                        }
                        let _replaced = self.breakpoints.remove(j);
                        proof {
                            assert forall|a: int, b: int|
                                0 <= a < b < self.breakpoints@.len() implies self.breakpoints@[a].0@
                                != self.breakpoints@[b].0@ by {}
                        }
                    },
                }
                proof {
                    lemma_path_entry_absent(self.breakpoints@, new_path@);
                    lemma_path_entry_push(self.breakpoints@, (new_path, entry.1));
                }
                let ghost mid2 = self.breakpoints@;
                self.breakpoints.push((new_path, entry.1));
                proof {
                    lemma_path_entry_absent(mid2, new_path@);
                    assert forall|a: int, b: int|
                        0 <= a < b < self.breakpoints@.len() implies self.breakpoints@[a].0@
                        != self.breakpoints@[b].0@ by {}
                }
            },
        }
    }

    /// The breakpoints of a file that sit inside the given position range,
    /// in stored order. Without a range nothing is reported.
    pub fn breakpoints(&self, path: &String, range: Option<(u32, u32)>) -> (r: Vec<
        AnchoredBreakpoint,
    >)
        ensures
            r@ == ({
                match self.spec_breakpoints(path@) {
                    None => Seq::<AnchoredBreakpoint>::empty(),
                    Some(list) => match range {
                        None => Seq::<AnchoredBreakpoint>::empty(),
                        Some(bounds) => in_range(list, bounds.0, bounds.1),
                    },
                }
            }),
    {
        let bounds = match range {
            None => {
                return Vec::new();
            },
            Some(bounds) => bounds,
        };
        let index = match self.find_path_index(path) {
            None => {
                return Vec::new();
            },
            Some(i) => i,
        };
        proof {
            lemma_path_entry_first(self.breakpoints@, index as int);
        }
        let list = &self.breakpoints[index].1;
        let mut selected: Vec<AnchoredBreakpoint> = Vec::new();
        let mut i: usize = 0;
        while i < list.len()
            invariant
                i <= list@.len(),
                selected@ == in_range(list@.take(i as int), bounds.0, bounds.1),
            decreases list@.len() - i,
        {
            let entry = &list[i];
            if bounds.0 <= entry.0 && entry.0 <= bounds.1 {
                selected.push((entry.0, entry.1.clone()));
            }
            proof {
                assert(list@.take(i as int + 1).drop_last() =~= list@.take(i as int));
                assert(list@.take(i as int + 1).last() == list@[i as int]);
            }
            i = i + 1;
        }
        proof {
            assert(list@.take(list@.len() as int) =~= list@);
        }
        selected
    }
}

/// The breakpoints of `list` anchored between `low` and `high`, both ends
/// included, in order.
pub open spec fn in_range(list: Seq<AnchoredBreakpoint>, low: u32, high: u32) -> Seq<
    AnchoredBreakpoint,
>
    decreases list.len(),
{
    if list.len() == 0 {
        Seq::empty()
    } else {
        in_range(list.drop_last(), low, high) + if low <= list.last().0 <= high {
            seq![list.last()]
        } else {
            Seq::<AnchoredBreakpoint>::empty()
        }
    }
}

/// The first entry of a path determines its stored list.
proof fn lemma_path_entry_first(entries: Seq<(String, Vec<AnchoredBreakpoint>)>, i: int)
    requires
        0 <= i < entries.len(),
        forall|j: int| 0 <= j < i ==> entries[j].0@ != entries[i].0@,
    ensures
        path_entry(entries, entries[i].0@) == Some(entries[i].1@),
    decreases i,
{
    if i == 0 {
    } else {
        lemma_path_entry_first(entries.drop_first(), i - 1);
        assert(entries.drop_first()[i - 1] == entries[i]);
    }
}

/// Removes every breakpoint of `list` that matches `bp`, keeping order.
fn remove_matching(list: Vec<AnchoredBreakpoint>, bp: &AnchoredBreakpoint) -> (r: Vec<
    AnchoredBreakpoint,
>)
    ensures
        r@ == without_matching(list@, *bp),
{
    let ghost orig = list@;
    let mut list = list;
    let mut kept: Vec<AnchoredBreakpoint> = Vec::new();
    let ghost mut taken: int = 0;
    while list.len() > 0
        invariant
            0 <= taken <= orig.len(),
            list@ == orig.skip(taken),
            kept@ == without_matching(orig.take(taken), *bp),
        decreases list@.len(),
    {
        let entry = list.remove(0);
        proof {
            assert(orig.skip(taken)[0] == orig[taken]);
            assert(orig.skip(taken).drop_first() =~= orig.skip(taken + 1));
            assert(orig.take(taken + 1).drop_last() =~= orig.take(taken));
            assert(orig.take(taken + 1).last() == orig[taken]);
        }
        if !(entry.0 == bp.0 && breakpoint_kinds_match(&entry.1.kind, &bp.1.kind)) {
            kept.push(entry);
        }
        proof {
            taken = taken + 1;
        }
    }
    proof {
        assert(orig.take(orig.len() as int) =~= orig);
    }
    kept
}

/// Whether two kinds are the same sort of breakpoint.
fn breakpoint_kinds_match(a: &BreakpointKind, b: &BreakpointKind) -> (r: bool)
    ensures
        r == same_kind(*a, *b),
{
    match (a, b) {
        (BreakpointKind::Standard, BreakpointKind::Standard) => true,
        (BreakpointKind::Log(_), BreakpointKind::Log(_)) => true,
        _ => false,
    }
}

/// A filtering that removed nothing kept the list as it was.
proof fn lemma_without_matching_all(list: Seq<AnchoredBreakpoint>, bp: AnchoredBreakpoint)
    ensures
        without_matching(list, bp).len() <= list.len(),
        without_matching(list, bp).len() == list.len() ==> without_matching(list, bp) == list,
    decreases list.len(),
{
    if list.len() == 0 {
        assert(without_matching(list, bp) =~= list);
    } else {
        lemma_without_matching_all(list.drop_last(), bp);
        if without_matching(list, bp).len() == list.len() {
            assert(!same_breakpoint(list.last(), bp));
            assert(without_matching(list, bp) =~= list);
        }
    }
}

/// Toggles `bp` in `list`: removes the matching breakpoints, or appends the
/// new one if none matched.
fn toggle_list(list: Vec<AnchoredBreakpoint>, bp: AnchoredBreakpoint) -> (r: Vec<
    AnchoredBreakpoint,
>)
    ensures
        r@ == toggled(list@, bp),
{
    let ghost orig = list@;
    let length_before = list.len();
    let mut kept = remove_matching(list, &bp);
    proof {
        lemma_without_matching_all(orig, bp);
    }
    if kept.len() == length_before {
        kept.push(bp);
    }
    kept
}

} // verus!
