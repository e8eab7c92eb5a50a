//! The run as a whole: a machine that works through the deployments in their order and,
//! within each, through its hosts, and stops wherever a host has to be connected and its
//! tasks run. A failure ends the run for good; only a host that the inventory does not
//! know is passed over.

use crate::common::{clone_tasks, Task, TaskModel};
use crate::context::{Binding, Context};
use crate::driver::{
    deployment_vars_spec, host_target_spec, hosts_spec, is_recoverable, lookup_target, opt_host,
    ConnectError, ConnectErrorModel, Deployment, DeploymentModel, Target, TargetHost,
    TargetHostModel, TargetModel,
};
use crate::engine::{merge_vars, starts, Engine, EngineModel};
use crate::modules::include_tasks::task_views;
use crate::text::{opt_view, views};
use crate::utils::{RenderError, RenderErrorModel};
use indexmap::IndexMap;
use vstd::prelude::*;

verus! {

/// An entry of an inventory model: the key of a host, and the host.
pub type HostEntry = (Seq<char>, TargetHostModel);

/// What an inventory holds: its entries in the map's order.
pub uninterp spec fn host_entries(map: IndexMap<String, TargetHost>) -> Seq<HostEntry>;

/// The host that `entries` holds under `key`, if any.
pub open spec fn find_host(entries: Seq<HostEntry>, key: Seq<char>) -> Option<TargetHostModel>
    decreases entries.len(),
{
    if entries.len() == 0 {
        None
    } else if entries[0].0 == key {
        Some(entries[0].1)
    } else {
        find_host(entries.drop_first(), key)
    }
}

/// `IndexMap::get`: the host stored for a key, if the key is in the map.
#[verifier::external_body]
fn inventory_get<'a>(map: &'a IndexMap<String, TargetHost>, key: &str) -> (host: Option<
    &'a TargetHost,
>)
    ensures
        opt_host(host) == find_host(host_entries(*map), key@),
{
    map.get(key)
}

/// Why a run has ended before its deployments were done.
#[derive(Debug, Clone, PartialEq, Eq)]
pub enum RunFailure {
    /// A variable of a deployment could not be set.
    Render(RenderError),
    /// A host of the inventory cannot be reached as the inventory describes it.
    Connect(ConnectError),
}

/// The mathematical model of a [`RunFailure`].
pub enum RunFailureModel {
    Render(RenderErrorModel),
    Connect(ConnectErrorModel),
}

impl View for RunFailure {
    type V = RunFailureModel;

    open spec fn view(&self) -> RunFailureModel {
        match self {
            RunFailure::Render(e) => RunFailureModel::Render(e@),
            RunFailure::Connect(e) => RunFailureModel::Connect(e@),
        }
    }
}

/// Something to tell the operator about the run.
#[derive(Debug, Clone, PartialEq, Eq)]
pub enum RunNotice {
    /// A deployment begins.
    Starting(String),
    /// A host is passed over, for the reason given.
    HostSkipped(ConnectError),
}

/// The mathematical model of a [`RunNotice`].
pub enum RunNoticeModel {
    Starting(Seq<char>),
    HostSkipped(ConnectErrorModel),
}

impl View for RunNotice {
    type V = RunNoticeModel;

    open spec fn view(&self) -> RunNoticeModel {
        match self {
            RunNotice::Starting(name) => RunNoticeModel::Starting(name@),
            RunNotice::HostSkipped(e) => RunNoticeModel::HostSkipped(e@),
        }
    }
}

/// The model of a notice that may be absent.
pub open spec fn opt_run_notice(notice: Option<RunNotice>) -> Option<RunNoticeModel> {
    match notice {
        Some(n) => Some(n@),
        None => None,
    }
}

/// One pending piece of a run.
#[derive(Debug)]
pub enum RunInstr {
    /// A deployment is announced.
    Announce(Deployment),
    /// A deployment begins: its variables are set, and its hosts take its place.
    Begin(Deployment),
    /// The tasks of a deployment run on one of its hosts.
    Host { name: String, several: bool, tasks: Vec<Task>, chdir: Option<String> },
}

/// The mathematical model of a [`RunInstr`].
pub enum RunInstrModel {
    Announce(DeploymentModel),
    Begin(DeploymentModel),
    Host { name: Seq<char>, several: bool, tasks: Seq<TaskModel>, chdir: Option<Seq<char>> },
}

impl View for RunInstr {
    type V = RunInstrModel;

    open spec fn view(&self) -> RunInstrModel {
        match self {
            RunInstr::Announce(d) => RunInstrModel::Announce(d@),
            RunInstr::Begin(d) => RunInstrModel::Begin(d@),
            RunInstr::Host { name, several, tasks, chdir } => RunInstrModel::Host {
                name: name@,
                several: *several,
                tasks: task_views(tasks@),
                chdir: opt_view(*chdir),
            },
        }
    }
}

/// The models of a sequence of pieces, in its order.
pub open spec fn piece_views(pieces: Seq<RunInstr>) -> Seq<RunInstrModel> {
    Seq::new(pieces.len(), |i: int| pieces[i]@)
}

/// The models of a stack of pieces, from its top, which is the end of the sequence, to
/// its bottom.
pub open spec fn pile_view(stack: Seq<RunInstr>) -> Seq<RunInstrModel> {
    Seq::new(stack.len(), |i: int| stack[stack.len() - 1 - i]@)
}

/// Puts `pieces` on the stack, so that the first of them becomes the top.
fn pile_up(pending: &mut Vec<RunInstr>, pieces: Vec<RunInstr>)
    ensures
        pile_view(final(pending)@) == piece_views(pieces@) + pile_view(old(pending)@),
{
    let ghost all = piece_views(pieces@);
    let ghost base = pile_view(pending@);
    let mut pieces = pieces;
    assert(all.skip(pieces@.len() as int) + base =~= base);
    assert(all.take(pieces@.len() as int) =~= piece_views(pieces@));
    loop
        invariant
            pieces@.len() <= all.len(),
            piece_views(pieces@) == all.take(pieces@.len() as int),
            pile_view(pending@) == all.skip(pieces@.len() as int) + base,
        ensures
            pile_view(pending@) == all + base,
        decreases pieces@.len(),
    {
        let ghost before = pieces@;
        match pieces.pop() {
            Some(piece) => {
                proof {
                    assert(piece@ == all[before.len() - 1]) by {
                        assert(piece_views(before)[before.len() - 1] == piece@);
                    }
                    assert(piece_views(pieces@) =~= all.take(pieces@.len() as int));
                    assert(pile_view(pending@.push(piece)) =~= seq![piece@] + pile_view(
                        pending@,
                    ));
                    assert(seq![piece@] + (all.skip(before.len() as int) + base) =~= all.skip(
                        pieces@.len() as int,
                    ) + base);
                }
                pending.push(piece);
            },
            None => {
                assert(all.skip(0) =~= all);
                break ;
            },
        }
    }
}

/// One `Announce` for each of `deployments`, in order.
pub open spec fn announcements(deployments: Seq<DeploymentModel>) -> Seq<RunInstrModel> {
    Seq::new(deployments.len(), |i: int| RunInstrModel::Announce(deployments[i]))
}

/// The models of a sequence of deployments.
pub open spec fn deployment_views(deployments: Seq<Deployment>) -> Seq<DeploymentModel> {
    Seq::new(deployments.len(), |i: int| deployments[i]@)
}

/// One `Host` for each of `hosts`, in order, each with the tasks and the working
/// directory of the deployment `d`. Hosts are named to the operator where there are
/// several.
pub open spec fn host_pieces(hosts: Seq<Seq<char>>, d: DeploymentModel) -> Seq<RunInstrModel> {
    Seq::new(
        hosts.len(),
        |i: int|
            RunInstrModel::Host {
                name: hosts[i],
                several: hosts.len() > 1,
                tasks: d.tasks,
                chdir: d.chdir,
            },
    )
}

/// The run between two steps: the context, the inventory, and what is still to be done.
pub struct Run {
    context: Context,
    rest: Suspended,
}

/// The mathematical model of a [`Run`].
pub struct RunModel {
    /// The variables.
    pub context: Seq<Binding>,
    /// The hosts that are known.
    pub inventory: Seq<HostEntry>,
    /// What is still to be done, next first.
    pub pending: Seq<RunInstrModel>,
}

/// A run while the tasks of a host are being run: all of it but the context, which the
/// task engine holds meanwhile.
pub struct Suspended {
    inventory: IndexMap<String, TargetHost>,
    pending: Vec<RunInstr>,
}

/// The mathematical model of a [`Suspended`].
pub struct SuspendedModel {
    pub inventory: Seq<HostEntry>,
    pub pending: Seq<RunInstrModel>,
}

impl View for Suspended {
    type V = SuspendedModel;

    closed spec fn view(&self) -> SuspendedModel {
        SuspendedModel { inventory: host_entries(self.inventory), pending: pile_view(self.pending@) }
    }
}

impl View for Run {
    type V = RunModel;

    closed spec fn view(&self) -> RunModel {
        RunModel {
            context: self.context@,
            inventory: self.rest@.inventory,
            pending: self.rest@.pending,
        }
    }
}

/// A host that is to be connected, with the tasks that are to run on it.
pub struct HostTurn {
    context: Context,
    rest: Suspended,
    tasks: Vec<Task>,
    chdir: Option<String>,
}

/// The mathematical model of a [`HostTurn`].
pub struct HostTurnModel {
    pub context: Seq<Binding>,
    pub rest: SuspendedModel,
    pub tasks: Seq<TaskModel>,
    pub chdir: Option<Seq<char>>,
}

impl View for HostTurn {
    type V = HostTurnModel;

    closed spec fn view(&self) -> HostTurnModel {
        HostTurnModel {
            context: self.context@,
            rest: self.rest@,
            tasks: task_views(self.tasks@),
            chdir: opt_view(self.chdir),
        }
    }
}

/// A host as the operator and the connection need it.
#[derive(Debug, Clone, PartialEq, Eq)]
pub struct HostRequest {
    /// The key of the host in the inventory.
    pub name: String,
    /// Whether the deployment names several hosts.
    pub several: bool,
    /// How the host is reached.
    pub target: Target,
}

/// The mathematical model of a [`HostRequest`].
pub struct HostRequestModel {
    pub name: Seq<char>,
    pub several: bool,
    pub target: TargetModel,
}

impl View for HostRequest {
    type V = HostRequestModel;

    open spec fn view(&self) -> HostRequestModel {
        HostRequestModel { name: self.name@, several: self.several, target: self.target@ }
    }
}

/// Where a step of the run has led.
pub enum RunProgress {
    /// One thing was done without help; there may be something to tell.
    Advanced(Option<RunNotice>, Run),
    /// A host is to be connected and its tasks run.
    Connect(HostRequest, HostTurn),
    /// Nothing is left to do; the context is as the deployments have left it.
    Finished(Context),
    /// The run has failed, and nothing of it goes on.
    Failed(RunFailure),
}

/// The mathematical model of a [`RunProgress`].
pub enum RunProgressModel {
    Advanced(Option<RunNoticeModel>, RunModel),
    Connect(HostRequestModel, HostTurnModel),
    Finished(Seq<Binding>),
    Failed(RunFailureModel),
}

impl View for RunProgress {
    type V = RunProgressModel;

    open spec fn view(&self) -> RunProgressModel {
        match self {
            RunProgress::Advanced(notice, run) => RunProgressModel::Advanced(
                opt_run_notice(*notice),
                run@,
            ),
            RunProgress::Connect(request, turn) => RunProgressModel::Connect(request@, turn@),
            RunProgress::Finished(context) => RunProgressModel::Finished(context@),
            RunProgress::Failed(e) => RunProgressModel::Failed(e@),
        }
    }
}

/// What the beginning of a deployment leads to: its variables are set, in their order,
/// and its hosts come before what was pending. A variable whose template stands for
/// nothing ends the run.
pub open spec fn begin_spec(d: DeploymentModel, m: RunModel, rest: Seq<RunInstrModel>)
    -> RunProgressModel {
    let (merged, failure) = deployment_vars_spec(d, m.context);
    match failure {
        Some(e) => RunProgressModel::Failed(RunFailureModel::Render(e)),
        None => RunProgressModel::Advanced(
            None,
            RunModel {
                context: merged,
                inventory: m.inventory,
                pending: host_pieces(hosts_spec(d.hosts), d) + rest,
            },
        ),
    }
}

/// What the turn of a host leads to. A host that can be reached is handed out to be
/// connected. A host that is missing from the inventory is passed over, and the run goes
/// on with what comes next. Any other failure ends the run.
pub open spec fn host_spec(
    name: Seq<char>,
    several: bool,
    tasks: Seq<TaskModel>,
    chdir: Option<Seq<char>>,
    m: RunModel,
    rest: Seq<RunInstrModel>,
) -> RunProgressModel {
    match host_target_spec(name, find_host(m.inventory, name)) {
        Ok(target) => RunProgressModel::Connect(
            HostRequestModel { name, several, target },
            HostTurnModel {
                context: m.context,
                rest: SuspendedModel { inventory: m.inventory, pending: rest },
                tasks,
                chdir,
            },
        ),
        Err(e) => if e is MissingHostConfig {
            RunProgressModel::Advanced(
                Some(RunNoticeModel::HostSkipped(e)),
                RunModel { context: m.context, inventory: m.inventory, pending: rest },
            )
        } else {
            RunProgressModel::Failed(RunFailureModel::Connect(e))
        },
    }
}

/// Where one step leads from the state `m` of the run.
pub open spec fn run_step_spec(m: RunModel) -> RunProgressModel {
    if m.pending.len() == 0 {
        RunProgressModel::Finished(m.context)
    } else {
        let rest = m.pending.drop_first();
        match m.pending[0] {
            RunInstrModel::Announce(d) => RunProgressModel::Advanced(
                Some(RunNoticeModel::Starting(d.name)),
                RunModel {
                    context: m.context,
                    inventory: m.inventory,
                    pending: seq![RunInstrModel::Begin(d)] + rest,
                },
            ),
            RunInstrModel::Begin(d) => begin_spec(d, m, rest),
            RunInstrModel::Host { name, several, tasks, chdir } => host_spec(
                name,
                several,
                tasks,
                chdir,
                m,
                rest,
            ),
        }
    }
}

impl Run {
    /// A run that is to work through `deployments` in their order, with the hosts of
    /// `inventory`, in the context `context`.
    pub fn new(
        deployments: Vec<Deployment>,
        inventory: IndexMap<String, TargetHost>,
        context: Context,
    ) -> (run: Run)
        ensures
            run@ == (RunModel {
                context: context@,
                inventory: host_entries(inventory),
                pending: announcements(deployment_views(deployments@)),
            }),
    {
        let ghost all = announcements(deployment_views(deployments@));
        let mut deployments = deployments;
        let mut pending: Vec<RunInstr> = Vec::new();
        let ghost original = deployments@;
        assert(all.skip(deployments@.len() as int) + pile_view(pending@) =~= pile_view(pending@));
        assert(original.take(deployments@.len() as int) =~= deployments@);
        loop
            invariant
                deployments@.len() <= original.len(),
                deployments@ == original.take(deployments@.len() as int),
                all == announcements(deployment_views(original)),
                pile_view(pending@) == all.skip(deployments@.len() as int),
            ensures
                pile_view(pending@) == all,
            decreases deployments@.len(),
        {
            let ghost before = deployments@;
            match deployments.pop() {
                Some(d) => {
                    let piece = RunInstr::Announce(d);
                    proof {
                        assert(d == original[before.len() - 1]);
                        assert(piece@ == all[before.len() - 1]);
                        assert(deployments@ =~= original.take(deployments@.len() as int));
                        assert(pile_view(pending@.push(piece)) =~= seq![piece@] + pile_view(
                            pending@,
                        ));
                        assert(seq![piece@] + all.skip(before.len() as int) =~= all.skip(
                            deployments@.len() as int,
                        ));
                    }
                    pending.push(piece);
                },
                None => {
                    assert(all.skip(0) =~= all);
                    break ;
                },
            }
        }
        Run { context, rest: Suspended { inventory, pending } }
    }

    /// The context as it stands.
    pub fn context(&self) -> (context: &Context)
        ensures
            context@ == self@.context,
    {
        &self.context
    }

    fn begin(self, d: Deployment) -> (progress: RunProgress)
        ensures
            progress@ == begin_spec(d@, self@, self@.pending),
    {
        let Run { context, rest } = self;
        let Suspended { inventory, pending } = rest;
        let mut context = context;
        let mut pending = pending;
        let hosts = match d.begin(&mut context) {
            Ok(hosts) => hosts,
            Err(e) => {
                return RunProgress::Failed(RunFailure::Render(e));
            },
        };
        let ghost all = host_pieces(hosts_spec(d.hosts@), d@);
        let several = hosts.len() > 1;
        let mut pieces: Vec<RunInstr> = Vec::new();
        let mut i: usize = 0;
        while i < hosts.len()
            invariant
                i <= hosts.len(),
                views(hosts@) == hosts_spec(d.hosts@),
                several == (hosts.len() > 1),
                all == host_pieces(hosts_spec(d.hosts@), d@),
                pieces@.len() == i,
                forall|k: int| 0 <= k < i ==> (#[trigger] pieces@[k])@ == all[k],
            decreases hosts.len() - i,
        {
            let tasks = clone_tasks(&d.tasks);
            let piece = RunInstr::Host {
                name: hosts[i].clone(),
                several,
                tasks,
                chdir: d.chdir.clone(),
            };
            proof {
                assert(task_views(tasks@) =~= d@.tasks);
                assert(views(hosts@)[i as int] == hosts@[i as int]@);
                assert(piece@ == all[i as int]);
            }
            pieces.push(piece);
            i += 1;
        }
        assert(piece_views(pieces@) =~= all);
        pile_up(&mut pending, pieces);
        RunProgress::Advanced(None, Run { context, rest: Suspended { inventory, pending } })
    }

    /// Takes one step of the run.
    pub fn next(self) -> (progress: RunProgress)
        ensures
            progress@ == run_step_spec(self@),
    {
        let Run { context, rest } = self;
        let Suspended { inventory, pending } = rest;
        let mut pending = pending;
        let ghost before = pending@;
        let piece = match pending.pop() {
            None => {
                return RunProgress::Finished(context);
            },
            Some(piece) => piece,
        };
        proof {
            assert(pile_view(before)[0] == before.last()@);
            assert(pile_view(before.drop_last()) =~= pile_view(before).drop_first());
        }
        match piece {
            RunInstr::Announce(d) => {
                let notice = RunNotice::Starting(d.name.clone());
                let piece = RunInstr::Begin(d);
                proof {
                    assert(pile_view(pending@.push(piece)) =~= seq![piece@] + pile_view(
                        pending@,
                    ));
                }
                pending.push(piece);
                RunProgress::Advanced(
                    Some(notice),
                    Run { context, rest: Suspended { inventory, pending } },
                )
            },
            RunInstr::Begin(d) => (Run { context, rest: Suspended { inventory, pending } }).begin(
                d,
            ),
            RunInstr::Host { name, several, tasks, chdir } => {
                let resolved = lookup_target(
                    name.as_str(),
                    inventory_get(&inventory, name.as_str()),
                );
                match resolved {
                    Ok(target) => RunProgress::Connect(
                        HostRequest { name, several, target },
                        HostTurn { context, rest: Suspended { inventory, pending }, tasks, chdir },
                    ),
                    Err(e) => {
                        if is_recoverable(&e) {
                            RunProgress::Advanced(
                                Some(RunNotice::HostSkipped(e)),
                                Run { context, rest: Suspended { inventory, pending } },
                            )
                        } else {
                            RunProgress::Failed(RunFailure::Connect(e))
                        }
                    },
                }
            },
        }
    }
}

impl HostTurn {
    /// Hands out the engine that runs the tasks on the host, once the host is connected,
    /// and what is left of the run meanwhile.
    pub fn start(self) -> (r: (Engine, Suspended))
        ensures
            r.0@ == (EngineModel {
                context: self@.context,
                pending: starts(self@.tasks, self@.chdir),
            }),
            r.1@ == self@.rest,
    {
        let HostTurn { context, rest, tasks, chdir } = self;
        (Engine::new(tasks, chdir, context), rest)
    }
}

impl Suspended {
    /// Takes the run up again with the context as the tasks of the host have left it.
    pub fn resume(self, context: Context) -> (run: Run)
        ensures
            run@ == (RunModel {
                context: context@,
                inventory: self@.inventory,
                pending: self@.pending,
            }),
    {
        Run { context, rest: self }
    }
}

/// A host that is missing from the inventory is the one failure after which the run goes
/// on: it is passed over, the context is as it was, and what comes next is still to be
/// done.
pub proof fn lemma_missing_host_is_passed_over(m: RunModel)
    requires
        m.pending.len() > 0,
        m.pending[0] is Host,
        find_host(m.inventory, m.pending[0]->Host_name) is None,
    ensures
        run_step_spec(m) == RunProgressModel::Advanced(
            Some(
                RunNoticeModel::HostSkipped(
                    ConnectErrorModel::MissingHostConfig(m.pending[0]->Host_name),
                ),
            ),
            RunModel {
                context: m.context,
                inventory: m.inventory,
                pending: m.pending.drop_first(),
            },
        ),
{
}

} // verus!
