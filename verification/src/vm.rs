//! The interpreter.

use crate::actors::{actors_view, NetworkVersion};
use crate::amount::{BigInt, TokenAmount};
use crate::cron::{cron_view, start_cron, CronExecuting};
use crate::execution::{
    applied_view, executed_view, explicit_request, explicit_request_view, explicit_result,
    gas_limit_error, implicit_request, implicit_request_view, implicit_result,
    implicit_result_view, ApplyKind, ExecutionRequest,
};
use crate::identifiers::{Cid, CidSet};
use crate::message::{message_encoding, BlockMessages, ChainMessage, UnsignedMessage};
use crate::receipt::{ApplyRet, ExecutorRet};
use crate::tipset::{blocks_view, start_tipset, tipset_start, TipsetStep};
use std::collections::BTreeMap;
use vstd::prelude::*;
use vstd::string::StringExecFns;

verus! {

/// The height of a tipset.
pub type ChainEpoch = i64;

/// What the machine that executes the messages is set up with.
#[derive(Debug)]
pub struct MachineConfig {
    pub network_version: NetworkVersion,
    /// The index of the builtin actors, in place of the one in the state.
    pub builtin_actors: Cid,
    pub epoch: ChainEpoch,
    pub initial_state_root: Cid,
    pub base_fee: TokenAmount,
    pub circ_supply: TokenAmount,
    /// Whether executions are traced.
    pub tracing: bool,
    /// What the machine reports as the circulating supply, in place of `circ_supply`.
    pub override_circ_supply: Option<TokenAmount>,
}

/// The contents of a `MachineConfig`.
#[verifier::ext_equal]
pub struct ConfigView {
    pub network_version: NetworkVersion,
    pub builtin_actors: Seq<u8>,
    pub epoch: ChainEpoch,
    pub initial_state_root: Seq<u8>,
    pub base_fee: int,
    pub circ_supply: int,
    pub tracing: bool,
    pub override_circ_supply: Option<int>,
}

/// The amount, if there is one.
pub open spec fn amount_view(amount: Option<TokenAmount>) -> Option<int> {
    match amount {
        Some(amount) => Some(amount@),
        None => None,
    }
}

impl View for MachineConfig {
    type V = ConfigView;

    open spec fn view(&self) -> ConfigView {
        ConfigView {
            network_version: self.network_version,
            builtin_actors: self.builtin_actors@,
            epoch: self.epoch,
            initial_state_root: self.initial_state_root@,
            base_fee: self.base_fee@,
            circ_supply: self.circ_supply@,
            tracing: self.tracing,
            override_circ_supply: amount_view(self.override_circ_supply),
        }
    }
}

/// The state of an actor.
#[derive(Debug)]
pub struct ActorState {
    pub code: Cid,
    pub state: Cid,
    pub sequence: u64,
    pub balance: TokenAmount,
}

/// A state that is being migrated.
#[derive(Debug)]
pub struct StateMigrating {}

/// How a state migration goes on.
#[derive(Debug)]
pub enum MigrationStep {
    /// Flush the state tree, migrate the state, and hand over the root of the migrated state.
    Migrate(StateMigrating),
    /// There is no more to do.
    Finish(Result<Option<Cid>, String>),
}

impl StateMigrating {
    /// Goes on once the state tree was flushed and the migration performed: with the root of the
    /// migrated state, or with the error for which there is none.
    pub fn migrated(self, root: Result<Cid, String>) -> (migrated: Result<Option<Cid>, String>)
        ensures
            match root {
                Ok(root) => migrated == Ok::<Option<Cid>, String>(Some(root)),
                Err(error) => migrated == Err::<Option<Cid>, String>(error),
            },
    {
        match root {
            Ok(root) => Ok(Some(root)),
            Err(error) => Err(error),
        }
    }
}

/// Interpreter which handles execution of state transitioning messages and returns receipts
/// from the vm execution.
#[derive(Debug)]
pub struct VM {
    config: MachineConfig,
    registered_actors: CidSet,
    upgrade_actors_v4_height: ChainEpoch,
}

/// The contents of a `VM`.
#[verifier::ext_equal]
pub struct VmView {
    pub config: ConfigView,
    /// The code of the actors that are not builtin.
    pub registered_actors: Set<Seq<u8>>,
    /// The epoch at which the state has to be migrated.
    pub upgrade_actors_v4_height: ChainEpoch,
}

impl View for VM {
    type V = VmView;

    closed spec fn view(&self) -> VmView {
        VmView {
            config: self.config@,
            registered_actors: self.registered_actors@,
            upgrade_actors_v4_height: self.upgrade_actors_v4_height,
        }
    }
}

impl VM {
    /// Sets an interpreter up on the state at `root`. `state` says whether that state could be
    /// loaded: where it could not, its error is the result. `circ_supply` is the circulating
    /// supply in that state, and `nv_actors` is the table of builtin actors.
    pub fn new(
        root: Cid,
        state: Result<(), String>,
        epoch: ChainEpoch,
        base_fee: BigInt,
        network_version: NetworkVersion,
        circ_supply: Option<TokenAmount>,
        override_circ_supply: Option<TokenAmount>,
        nv_actors: &BTreeMap<NetworkVersion, Cid>,
        upgrade_actors_v4_height: ChainEpoch,
    ) -> (vm: Result<VM, String>)
        requires
            state is Ok ==> circ_supply is Some,
            state is Ok ==> nv_actors@.dom().contains(network_version),
        ensures
            match state {
                Err(error) => vm matches Err(e) && e@ == error@,
                Ok(_) => {
                    &&& vm matches Ok(vm)
                    &&& vm@ == VmView {
                        config: ConfigView {
                            network_version,
                            builtin_actors: actors_view(nv_actors@)[network_version],
                            epoch,
                            initial_state_root: root@,
                            base_fee: base_fee@,
                            circ_supply: circ_supply.unwrap()@,
                            tracing: true,
                            override_circ_supply: amount_view(override_circ_supply),
                        },
                        registered_actors: Set::empty(),
                        upgrade_actors_v4_height,
                    }
                },
            },
    {
        match state {
            Ok(_) => {},
            Err(error) => return Err(error),
        }
        let circ_supply = circ_supply.unwrap();
        let builtin_actors = nv_actors.get(&network_version).unwrap().clone();
        let config = MachineConfig {
            network_version,
            builtin_actors,
            epoch,
            initial_state_root: root,
            base_fee,
            circ_supply,
            tracing: true,
            override_circ_supply,
        };
        Ok(VM { config, registered_actors: CidSet::new(), upgrade_actors_v4_height })
    }

    /// What the machine that executes the messages is set up with.
    pub fn config(&self) -> (config: &MachineConfig)
        ensures
            config@ == self@.config,
    {
        &self.config
    }

    /// Registers an actor that is not part of the set of default builtin actors by providing the
    /// code cid. Returns whether it was not registered before.
    pub fn register_actor(&mut self, code_cid: Cid) -> (added: bool)
        ensures
            final(self)@ == (VmView {
                registered_actors: old(self)@.registered_actors.insert(code_cid@),
                ..old(self)@
            }),
            added == !old(self)@.registered_actors.contains(code_cid@),
    {
        self.registered_actors.insert(code_cid)
    }

    /// Gets registered actors that are not part of the set of default builtin actors.
    pub fn registered_actors(&self) -> (actors: &CidSet)
        ensures
            actors@ == self@.registered_actors,
    {
        &self.registered_actors
    }

    /// Get actor state from what the state tree holds for its address: the state, nothing, or the
    /// text of an error.
    pub fn get_actor(&self, found: Result<Option<ActorState>, String>) -> (actor: Result<
        Option<ActorState>,
        String,
    >)
        ensures
            match found {
                Ok(state) => actor == Ok::<Option<ActorState>, String>(state),
                Err(error) => actor matches Err(e) && e@ == "failed to get actor: "@ + error@,
            },
    {
        match found {
            Ok(state) => Ok(state),
            Err(error) => Err("failed to get actor: ".to_string().concat(error.as_str())),
        }
    }

    /// Begins to end `epoch`: the request is for the executor. `with_callback` says whether there
    /// is a callback for the result.
    pub fn run_cron(&self, epoch: ChainEpoch, with_callback: bool) -> (start: (
        ExecutionRequest,
        CronExecuting,
    ))
        ensures
            start.0@ == cron_view(epoch, with_callback).request(),
            start.1@ == cron_view(epoch, with_callback),
    {
        start_cron(epoch, with_callback)
    }

    /// Begins to perform a state migration if there is a migration at this epoch.
    /// If there is no migration the result is Ok(None).
    pub fn migrate_state(&self, epoch: ChainEpoch) -> (step: MigrationStep)
        ensures
            match step {
                MigrationStep::Migrate(_) => epoch == self@.upgrade_actors_v4_height,
                MigrationStep::Finish(migrated) => {
                    &&& epoch != self@.upgrade_actors_v4_height
                    &&& migrated == Ok::<Option<Cid>, String>(None)
                },
            },
    {
        if epoch == self.upgrade_actors_v4_height {
            MigrationStep::Migrate(StateMigrating {  })
        } else {
            MigrationStep::Finish(Ok(None))
        }
    }

    /// Begins to apply block messages from a Tipset. `with_callback` says whether there is a
    /// callback for the results. In the end come the receipts from the transactions.
    pub fn apply_block_messages<'a>(
        &self,
        messages: &'a [BlockMessages],
        epoch: ChainEpoch,
        with_callback: bool,
    ) -> (step: TipsetStep<'a>)
        ensures
            step@ == tipset_start(blocks_view(messages@), epoch, with_callback),
    {
        start_tipset(messages, epoch, with_callback)
    }

    /// Begins to apply a message of the interpreter's own: the request is for the executor.
    pub fn apply_implicit_message(&self, msg: &UnsignedMessage) -> (request: ExecutionRequest)
        requires
            msg@.encodable(),
        ensures
            request@ == implicit_request_view(msg@),
            request.message@ == msg@,
            request.kind == ApplyKind::Implicit,
            request.raw_length == message_encoding(msg@)->Ok_0.len(),
    {
        implicit_request(msg)
    }

    /// What applying a message of the interpreter's own comes to, once the executor has answered.
    pub fn implicit_message_applied(&self, answer: Result<ExecutorRet, String>) -> (applied: Result<
        ApplyRet,
        String,
    >)
        ensures
            applied_view(applied) == implicit_result_view(executed_view(answer)),
            match answer {
                Ok(ret) => {
                    &&& applied matches Ok(applied)
                    &&& applied.msg_receipt.exit_code == ret.msg_receipt.exit_code
                    &&& applied.msg_receipt.return_data@ == ret.msg_receipt.return_data@
                    &&& applied.msg_receipt.gas_used == 0
                    &&& applied@.error == ret@.error
                    &&& applied.penalty@ == 0
                    &&& applied.miner_tip@ == 0
                    &&& applied.base_fee_burn@ == ret.base_fee_burn@
                    &&& applied.over_estimation_burn@ == ret.over_estimation_burn@
                    &&& applied.refund@ == ret.refund@
                    &&& applied.gas_refund == ret.gas_refund
                    &&& applied.gas_burned == ret.gas_burned
                    &&& applied.exec_trace@ == ret.exec_trace@
                },
                Err(error) => applied matches Err(e) && e@ == error@,
            },
    {
        implicit_result(answer)
    }

    /// Begins to apply the state transition for a single message: the request is for the executor.
    pub fn apply_message(&self, msg: &ChainMessage) -> (request: Result<ExecutionRequest, String>)
        requires
            msg@.message().gas_limit > 0 ==> msg@.encodable(),
        ensures
            match request {
                Ok(request) => {
                    &&& gas_limit_error(msg@.message().gas_limit as int) is None
                    &&& request@ == explicit_request_view(msg@)
                    &&& request.message@ == msg@.message()
                    &&& request.kind == ApplyKind::Explicit
                    &&& request.raw_length == msg@.encoding()->Ok_0.len()
                },
                Err(error) => gas_limit_error(msg@.message().gas_limit as int) == Some(error@),
            },
            request is Ok <==> msg@.message().gas_limit > 0,
            msg@.message().gas_limit == 0 ==> request->Err_0@ == "Message has no gas limit set"@,
            msg@.message().gas_limit < 0 ==> request->Err_0@ == "Message has negative gas limit"@,
    {
        explicit_request(msg)
    }

    /// What applying a message comes to, once the executor has answered: a structure which
    /// contains the message receipt and some meta data.
    pub fn message_applied(&self, answer: Result<ExecutorRet, String>) -> (applied: Result<
        ApplyRet,
        String,
    >)
        ensures
            applied_view(applied) == executed_view(answer),
            match answer {
                Ok(ret) => applied matches Ok(applied) && applied@ == ret@,
                Err(error) => applied matches Err(e) && e@ == error@,
            },
    {
        explicit_result(answer)
    }
}

} // verus!
