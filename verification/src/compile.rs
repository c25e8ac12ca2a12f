//! The compile requests of the plain watcher: which file changes ask for a
//! compile, and how often one is granted.

use vstd::prelude::*;
use vstd::string::StringExecFns;
use crate::names::{any_matches, filename, ignored_patterns};
use crate::timelock::{current, Timelock};

verus! {

/// Seconds that must lie between two compiles.
pub const MIN_GAP: isize = 2;

/// The build tool's command that a compile runs where none was given.
pub open spec fn default_commands() -> Seq<Seq<char>> {
    seq!["check"@]
}

/// Whether a request at `now` is granted: the last one lies at least the
/// minimal gap back.
pub open spec fn granted(last: isize, now: isize) -> bool {
    last <= now - MIN_GAP
}

/// Whether a change to the file named `name` asks for a compile.
pub open spec fn asks_compile(name: Option<Seq<char>>) -> bool {
    match name {
        Some(n) => !any_matches(ignored_patterns(), n),
        None => false,
    }
}

/// The lock after an event at `now` on the file named `name`.
pub open spec fn lock_after(t: Timelock, name: Option<Seq<char>>, now: isize) -> Timelock {
    if asks_compile(name) && granted(t.last, now) {
        Timelock { last: now }
    } else {
        t
    }
}

/// Whether an event at `now` on the file named `name` makes `before` into
/// `after` and has the answer `spawn`.
pub open spec fn handled_at(
    before: Timelock,
    name: Option<Seq<char>>,
    now: isize,
    spawn: bool,
    after: Timelock,
) -> bool {
    &&& spawn == (asks_compile(name) && granted(before.last, now))
    &&& after == lock_after(before, name, now)
}

/// The name as a mathematical value.
pub open spec fn name_text(file_name: Option<&String>) -> Option<Seq<char>> {
    match file_name {
        Some(n) => Some(n@),
        None => None,
    }
}

/// The lock after requests at these times, in order.
pub open spec fn lock_after_requests(t: Timelock, times: Seq<isize>) -> Timelock
    decreases times.len(),
{
    if times.len() == 0 {
        t
    } else {
        let before = lock_after_requests(t, times.drop_last());
        if granted(before.last, times.last()) {
            Timelock { last: times.last() }
        } else {
            before
        }
    }
}

/// Whether the request at position `i` among those at these times is
/// granted.
pub open spec fn granted_at(t: Timelock, times: Seq<isize>, i: int) -> bool {
    granted(lock_after_requests(t, times.take(i)).last, times[i])
}

/// Of a burst of requests that all come within the minimal gap, after a
/// time without any, exactly one is granted: the first. Every later one
/// is denied and leaves the lock as the first left it.
pub proof fn lemma_burst_compiles_once(t: Timelock, start: isize, times: Seq<isize>)
    requires
        t.last <= start - MIN_GAP,
        times.len() >= 1,
        forall|i: int| 0 <= i < times.len() ==> start <= #[trigger] times[i] < start + MIN_GAP,
    ensures
        granted_at(t, times, 0),
        forall|i: int| 1 <= i < times.len() ==> !granted_at(t, times, i),
        lock_after_requests(t, times) == (Timelock { last: times[0] }),
    decreases times.len(),
{
    assert(times.take(0) == Seq::<isize>::empty());
    if times.len() == 1 {
        assert(times.drop_last() == Seq::<isize>::empty());
        assert(times.last() == times[0]);
    } else {
        let fewer = times.drop_last();
        assert forall|i: int| 0 <= i < fewer.len() implies start <= #[trigger] fewer[i] < start
            + MIN_GAP by {
            assert(fewer[i] == times[i]);
        }
        lemma_burst_compiles_once(t, start, fewer);
        assert(fewer[0] == times[0]);
        assert(times.last() == times[times.len() - 1]);
        assert forall|i: int| 1 <= i < times.len() implies !granted_at(t, times, i) by {
            if i < fewer.len() {
                assert(times.take(i) == fewer.take(i));
                assert(fewer[i] == times[i]);
                assert(!granted_at(t, fewer, i));
            } else {
                assert(times.take(i) == fewer);
            }
        }
        assert(fewer.take(0) == Seq::<isize>::empty());
    }
}

/// The build tool's commands that a compile runs, in order: those given,
/// or the single `check` where none is given. When they have been run the
/// caller updates the lock.
pub fn compile(args: &Vec<String>) -> (commands: Vec<String>)
    ensures
        commands.deep_view() == if args.len() > 0 {
            args.deep_view()
        } else {
            default_commands()
        },
{
    let mut commands: Vec<String> = Vec::new();
    if args.len() > 0 {
        let mut i: usize = 0;
        while i < args.len()
            invariant
                i <= args.len(),
                commands.len() == i,
                forall|k: int| 0 <= k < i ==> (#[trigger] commands@[k])@ == args@[k]@,
            decreases args.len() - i,
        {
            commands.push(args[i].clone());
            i += 1;
        }
        proof {
            assert(commands.deep_view() =~= args.deep_view());
        }
    } else {
        commands.push(String::from_str("check"));
        proof {
            assert(commands.deep_view() =~= default_commands());
        }
    }
    commands
}

/// Decides on a request for a compile at the time `now`: it is granted,
/// and the lock then holds `now`, unless the last request lies less than
/// the minimal gap back.
pub fn request_compile(t: &mut Timelock, now: isize) -> (spawn: bool)
    ensures
        spawn == granted(old(t).last, now),
        *final(t) == if spawn {
            Timelock { last: now }
        } else {
            *old(t)
        },
{
    let denied = if now >= isize::MIN + MIN_GAP {
        t.last > now - MIN_GAP
    } else {
        true
    };
    if denied {
        false
    } else {
        t.last = now;
        true
    }
}

/// Decides on a request for a compile now. Returns whether the caller
/// spawns one.
pub fn spawn_compile(t: &mut Timelock) -> (spawn: bool)
    ensures
        exists|now: isize|
            spawn == granted(old(t).last, now) && *final(t) == if spawn {
                Timelock { last: now }
            } else {
                *old(t)
            },
{
    let now = current();
    request_compile(t, now)
}

/// Decides on an event at the time `now` that names a file, if it names
/// one: a compile is asked for unless the name is ignored, and granted as
/// `request_compile` says.
pub fn handle_event_at(t: &mut Timelock, file_name: Option<&String>, now: isize) -> (spawn: bool)
    ensures
        handled_at(*old(t), name_text(file_name), now, spawn, *final(t)),
{
    match file_name {
        Some(name) => {
            if filename(name) {
                false
            } else {
                request_compile(t, now)
            }
        },
        None => false,
    }
}

/// Decides on an event that names a file, if it names one. Returns whether
/// the caller spawns a compile: what `handle_event_at` returns for the
/// current time.
pub fn handle_event(t: &mut Timelock, file_name: Option<&String>) -> (spawn: bool)
    ensures
        exists|now: isize| handled_at(*old(t), name_text(file_name), now, spawn, *final(t)),
{
    let now = current();
    let spawn = handle_event_at(t, file_name, now);
    proof {
        assert(handled_at(*old(t), name_text(file_name), now, spawn, *t));
    }
    spawn
}

} // verus!
