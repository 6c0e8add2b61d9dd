//! Commands to a running tray, and the state they change.
use vstd::prelude::*;

use crate::error::{Error, Result};
use crate::menu::{Icon, Menu};

verus! {

/// A command to a running tray.
#[derive(Debug)]
pub enum TrayCommand {
    SetMenu(Menu),
    SetIcon(Icon),
    SetTooltip(Option<String>),
    SetTitle(Option<String>),
    SetVisible(bool),
    /// Open the popup.
    Open,
    /// Dismiss the popup.
    Close,
    /// End the tray.
    Shutdown,
    /// The theme of the surface was replaced.
    SetTheme,
    /// The options of the surface were replaced.
    SetOptions,
    /// Someone waits for the rectangle of the tray icon.
    QueryAnchorRect,
}

/// What a tray shows.
#[derive(Debug)]
pub struct TrayState {
    pub icon: Icon,
    pub tooltip: Option<String>,
    /// The text beside the icon, where the host shows one.
    pub title: Option<String>,
}

/// The part of a batch of commands that is applied one by one: everything but a shutdown.
pub open spec fn applicable(batch: Seq<TrayCommand>) -> Seq<TrayCommand> {
    batch.filter(|c: TrayCommand| !(c is Shutdown))
}

/// The batch asks the tray to end.
pub open spec fn ends(batch: Seq<TrayCommand>) -> bool {
    exists|k: int| 0 <= k < batch.len() && (#[trigger] batch[k]) is Shutdown
}

/// A batch of commands with its shutdowns taken out.
#[derive(Debug)]
pub struct Batch {
    pub commands: Vec<TrayCommand>,
    /// The tray ends once the commands are applied.
    pub shutdown: bool,
}

/// Splits a batch of pending commands. A shutdown takes effect after every other command of its
/// batch, wherever it stands.
pub fn split_batch(pending: Vec<TrayCommand>) -> (r: Batch)
    ensures
        r.commands@ == applicable(pending@),
        r.shutdown == ends(pending@),
{
    let mut rest: Vec<TrayCommand> = pending;
    let mut commands: Vec<TrayCommand> = Vec::new();
    let mut shutdown: bool = false;
    let ghost all = rest@;
    let ghost keep = |c: TrayCommand| !(c is Shutdown);
    proof {
        reveal(Seq::filter);
        assert(all.take(0).filter(keep) =~= Seq::empty());
        assert(all.skip(0) =~= all);
    }
    while rest.len() > 0
        invariant
            keep == (|c: TrayCommand| !(c is Shutdown)),
            rest@.len() <= all.len(),
            rest@ == all.skip(all.len() - rest@.len()),
            commands@ == all.take(all.len() - rest@.len()).filter(keep),
            shutdown == ends(all.take(all.len() - rest@.len())),
        decreases rest@.len(),
    {
        let ghost at = all.len() - rest@.len();
        let ghost before = all.take(at);
        let ghost after = all.take(at + 1);
        let c: TrayCommand = rest.remove(0);
        proof {
            assert(rest@ =~= all.skip(at + 1));
            assert(after.drop_last() =~= before);
            reveal(Seq::filter);
            if ends(before) {
                let k = choose|k: int| 0 <= k < before.len() && (#[trigger] before[k]) is Shutdown;
                assert(after[k] is Shutdown);
            }
            if ends(after) {
                let k = choose|k: int| 0 <= k < after.len() && (#[trigger] after[k]) is Shutdown;
                assert(k < at ==> before[k] is Shutdown);
            }
            assert(after[at] == c);
        }
        match c {
            TrayCommand::Shutdown => {
                shutdown = true;
            },
            other => {
                commands.push(other);
            },
        }
    }
    assert(all.take(all.len() as int) =~= all);
    Batch { commands, shutdown }
}

/// What the loop that serves a tray does after a batch.
#[derive(Debug, Clone, Copy, PartialEq, Eq, Structural)]
pub enum LoopStep {
    /// Take the tray down and return.
    ShutDown,
    /// The host closed the tray: return.
    Stop,
    /// Wait for the next command.
    Wait,
}

/// Decides how the loop goes on. A shutdown that was asked for goes before a tray that is gone.
pub fn after_batch(shutdown: bool, closed: bool) -> (r: LoopStep)
    ensures
        r is ShutDown <==> shutdown,
        r is Stop <==> !shutdown && closed,
        r is Wait <==> !shutdown && !closed,
{
    if shutdown {
        LoopStep::ShutDown
    } else if closed {
        LoopStep::Stop
    } else {
        LoopStep::Wait
    }
}

/// A piece of pending work: a command to the tray, or an event of its windows.
#[derive(Debug, PartialEq, Eq)]
pub enum Work<C, E> {
    Command(C),
    Event(E),
}

/// The pending work in the order it is done: the commands, then the events, each as they came.
pub open spec fn ordered<C, E>(commands: Seq<C>, events: Seq<E>) -> Seq<Work<C, E>> {
    commands.map_values(|c: C| Work::<C, E>::Command(c)) + events.map_values(
        |e: E| Work::<C, E>::Event(e),
    )
}

/// Puts pending work in order. An event sees what every pending command has done.
pub fn work_in_order<C, E>(commands: Vec<C>, events: Vec<E>) -> (r: Vec<Work<C, E>>)
    ensures
        r@ == ordered(commands@, events@),
{
    let mut commands: Vec<C> = commands;
    let mut events: Vec<E> = events;
    let ghost first = commands@;
    let ghost then = events@;
    let mut r: Vec<Work<C, E>> = Vec::new();
    assert(first.skip(0) =~= first);
    while commands.len() > 0
        invariant
            commands@.len() <= first.len(),
            commands@ == first.skip(first.len() - commands@.len()),
            r@ == ordered(first.take(first.len() - commands@.len()), Seq::<E>::empty()),
        decreases commands@.len(),
    {
        let ghost at = first.len() - commands@.len();
        let c: C = commands.remove(0);
        assert(c == first[at]);
        assert(commands@ =~= first.skip(at + 1));
        r.push(Work::Command(c));
        assert(r@ =~= ordered(first.take(at + 1), Seq::<E>::empty()));
    }
    assert(first.take(first.len() as int) =~= first);
    assert(then.skip(0) =~= then);
    assert(then.take(0) =~= Seq::<E>::empty());
    while events.len() > 0
        invariant
            events@.len() <= then.len(),
            events@ == then.skip(then.len() - events@.len()),
            r@ == ordered(first, then.take(then.len() - events@.len())),
        decreases events@.len(),
    {
        let ghost at = then.len() - events@.len();
        let e: E = events.remove(0);
        assert(e == then[at]);
        assert(events@ =~= then.skip(at + 1));
        r.push(Work::Event(e));
        assert(r@ =~= ordered(first, then.take(at + 1)));
    }
    assert(then.take(then.len() as int) =~= then);
    r
}

/// Whether a drain begins another round: as long as the last one found anything to do, since doing
/// it may have brought up more.
pub fn drains_again(had_commands: bool, had_events: bool, had_actions: bool) -> (again: bool)
    ensures
        again == (had_commands || had_events || had_actions),
{
    had_commands || had_events || had_actions
}

/// Who learns of an activated row.
#[derive(Debug, Clone, Copy, PartialEq, Eq, Structural)]
pub enum Sink {
    /// The click handler of the tray.
    Handler,
    /// The channel of the process.
    Channel,
}

/// Who learns of an activated row, in order: the handler first, where there is one, then the
/// channel.
pub fn sinks(has_handler: bool) -> (r: Vec<Sink>)
    ensures
        r@ == if has_handler {
            seq![Sink::Handler, Sink::Channel]
        } else {
            seq![Sink::Channel]
        },
{
    let mut r: Vec<Sink> = Vec::new();
    if has_handler {
        r.push(Sink::Handler);
    }
    r.push(Sink::Channel);
    assert(r@ =~= if has_handler {
        seq![Sink::Handler, Sink::Channel]
    } else {
        seq![Sink::Channel]
    });
    r
}

/// What a UI thread does once it knows whether its tray item was registered.
#[derive(Debug, Clone, Copy, PartialEq, Eq, Structural)]
pub enum Handshake {
    /// Store the function that wakes the thread.
    StoreWaker,
    /// Tell the one who waits that the item is up.
    ReportOk,
    /// Tell the one who waits that it is not.
    ReportFailure,
}

/// What to do after the attempt to register a tray item, in order. Success is reported only once the
/// thread can be woken, so that a command posted on the report does not wait for a timeout.
pub fn after_registration(registered: bool) -> (r: Vec<Handshake>)
    ensures
        r@ == if registered {
            seq![Handshake::StoreWaker, Handshake::ReportOk]
        } else {
            seq![Handshake::ReportFailure]
        },
{
    let mut r: Vec<Handshake> = Vec::new();
    if registered {
        r.push(Handshake::StoreWaker);
        r.push(Handshake::ReportOk);
    } else {
        r.push(Handshake::ReportFailure);
    }
    assert(r@ =~= if registered {
        seq![Handshake::StoreWaker, Handshake::ReportOk]
    } else {
        seq![Handshake::ReportFailure]
    });
    r
}

/// The error for a UI thread that the system did not start, with the system's words.
pub fn thread_spawn_failed(words: &str) -> (r: Error)
    ensures
        r matches Error::ThreadSpawn(m) && m@ == "failed to spawn muri tray thread: "@ + words@,
{
    let mut message: String = "failed to spawn muri tray thread: ".to_owned();
    message.append(words);
    Error::ThreadSpawn(message)
}

/// The outcome of starting a tray on a thread of its own. `report` is what the thread said of its
/// installation; `None` where it ended without a word.
pub fn install_outcome(report: Option<Result<()>>) -> (r: Result<()>)
    ensures
        match report {
            Some(said) => r == said,
            None => r matches Err(e) && crate::error::install_failure(
                e,
                "muri tray thread exited before reporting the tray install"@,
            ),
        },
{
    match report {
        Some(said) => said,
        None => Err(
            Error::TrayInstall(
                "muri tray thread exited before reporting the tray install".to_owned(),
            ),
        ),
    }
}

/// Splitting a batch takes the shutdowns out and nothing else: the other commands stay, in their
/// order, whatever stands between them, and the tray ends exactly where the batch held a shutdown.
pub proof fn law_a_batch_loses_its_shutdowns_alone(
    first: Seq<TrayCommand>,
    command: TrayCommand,
    rest: Seq<TrayCommand>,
)
    ensures
        applicable(Seq::empty()) == Seq::<TrayCommand>::empty(),
        applicable(seq![command]) == if command is Shutdown {
            Seq::empty()
        } else {
            seq![command]
        },
        applicable(first + rest) == applicable(first) + applicable(rest),
        ends(first + seq![command] + rest) == (ends(first) || command is Shutdown || ends(rest)),
        !ends(Seq::empty()),
{
    let keep = |c: TrayCommand| !(c is Shutdown);
    reveal(Seq::filter);
    assert(seq![command].drop_last() =~= Seq::<TrayCommand>::empty());
    assert(Seq::<TrayCommand>::empty().filter(keep) =~= Seq::<TrayCommand>::empty());
    assert(applicable(seq![command]) =~= if command is Shutdown {
        Seq::empty()
    } else {
        seq![command]
    });
    Seq::filter_distributes_over_add(first, rest, keep);
    let all = first + seq![command] + rest;
    let n = first.len() as int;
    if ends(first) {
        let k = choose|k: int| 0 <= k < first.len() && (#[trigger] first[k]) is Shutdown;
        assert(all[k] is Shutdown);
    }
    if command is Shutdown {
        assert(all[n] is Shutdown);
    }
    if ends(rest) {
        let k = choose|k: int| 0 <= k < rest.len() && (#[trigger] rest[k]) is Shutdown;
        assert(all[n + 1 + k] is Shutdown);
    }
    if ends(all) {
        let k = choose|k: int| 0 <= k < all.len() && (#[trigger] all[k]) is Shutdown;
        if k < n {
            assert(first[k] is Shutdown);
        } else if k > n {
            assert(rest[k - n - 1] is Shutdown);
        }
    }
}

/// Pending work loses nothing and changes no order: every command comes before every event, each in
/// the place it had among its own.
pub proof fn law_commands_come_before_events<C, E>(commands: Seq<C>, events: Seq<E>, k: int)
    requires
        0 <= k,
    ensures
        ordered(commands, events).len() == commands.len() + events.len(),
        k < commands.len() ==> ordered(commands, events)[k] == Work::<C, E>::Command(commands[k]),
        k < events.len() ==> ordered(commands, events)[commands.len() + k] == Work::<C, E>::Event(
            events[k],
        ),
{
}

} // verus!
