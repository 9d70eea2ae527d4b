//! The action system: per-connection hooks that run after a successful
//! TCP connection and contribute entries to the task's shared result map.
//!
//! For each action of a task, in order:
//! - an action that declares no read runs right after the handshake;
//! - an action that declares a read is handed the bytes of the task's
//!   single non-blocking read (possibly empty).
//!
//! An action states what it does to the result map as a specification
//! function, and proves two laws: the no-read hook leaves an entry under
//! the action's own name, and neither hook removes entries that earlier
//! actions have made.

use crate::scanner::results::{
    assoc_contains, assoc_insert, lemma_assoc_insert_keys, ResultMap, ResultPairs,
};
use crate::utils::text::{dec_str_of, u64_to_dec_string};
use vstd::prelude::*;

verus! {

/// The abstract value of a scan context.
pub struct CtxView {
    pub target_addr: Seq<char>,
    pub port: u16,
    pub task_id: u64,
}

/// Contextual information supplied to each action during execution: the
/// target address text, the target port, and an opaque per-worker
/// identifier for correlation.
pub struct ScanContext {
    /// Target address in string form (e.g. `"127.0.0.1"`).
    pub target_addr: String,
    /// Target TCP port.
    pub port: u16,
    /// Identifier of the worker handling this connection attempt.
    pub task_id: u64,
}

impl View for ScanContext {
    type V = CtxView;

    open spec fn view(&self) -> CtxView {
        CtxView { target_addr: self.target_addr@, port: self.port, task_id: self.task_id }
    }
}

/// A single scanning action executed after a TCP connection.
///
/// An implementor declares a stable name, whether the scanner should
/// read once after connecting, and the exact effect of each hook on the
/// result map, as a function of the context, the bytes read and the map
/// so far.
pub trait Action: Sized {
    /// The action's stable name, the key under which it reports.
    spec fn name_spec(&self) -> Seq<char>;

    /// Whether the scanner should read once after connecting.
    spec fn wants_read_spec(&self) -> bool;

    /// What the no-read hook leaves in the result map.
    spec fn connect_effect(&self, ctx: CtxView, m: ResultPairs) -> ResultPairs;

    /// What the read hook leaves in the result map.
    spec fn read_effect(&self, ctx: CtxView, raw: Seq<u8>, m: ResultPairs) -> ResultPairs;

    /// The no-read hook reports under the action's name and keeps every
    /// entry already present.
    proof fn connect_effect_properties(&self, ctx: CtxView, m: ResultPairs)
        ensures
            assoc_contains(self.connect_effect(ctx, m), self.name_spec()),
            forall|k: Seq<char>|
                assoc_contains(m, k) ==> assoc_contains(#[trigger] self.connect_effect(ctx, m), k),
    ;

    /// The read hook keeps every entry already present.
    proof fn read_effect_properties(&self, ctx: CtxView, raw: Seq<u8>, m: ResultPairs)
        ensures
            forall|k: Seq<char>|
                assoc_contains(m, k) ==> assoc_contains(
                    #[trigger] self.read_effect(ctx, raw, m),
                    k,
                ),
    ;

    /// Returns the static name of the action.
    fn name(&self) -> (r: String)
        ensures
            r@ == self.name_spec(),
    ;

    /// Indicates whether the engine should perform a non-blocking read
    /// immediately after a successful TCP connection.
    fn set_read_from_successfull_connection(&self) -> (r: bool)
        ensures
            r == self.wants_read_spec(),
    ;

    /// Executed after a successful TCP connection when the action does
    /// not require any socket data.
    fn execute_after_successfull_connection(
        &self,
        ctx: &ScanContext,
        actions_results: &mut ResultMap,
    )
        ensures
            final(actions_results)@ == self.connect_effect(ctx@, old(actions_results)@),
    ;

    /// Executed after a successful TCP connection when the action
    /// requested socket data to be read.
    fn execute_after_successfull_connection_and_read(
        &self,
        ctx: &ScanContext,
        raw_data: &[u8],
        actions_results: &mut ResultMap,
    )
        ensures
            final(actions_results)@ == self.read_effect(ctx@, raw_data@, old(actions_results)@),
    ;
}

/// Basic action that reports whether the port is open: the successful
/// handshake itself confirms that the port accepts connections, so no
/// read is requested.
pub struct ActionIsPortOpen {}

/// What [`ActionIsPortOpen`] reports on connect: its own verdict, the
/// target and the port.
pub open spec fn is_port_open_effect(ctx: CtxView, m: ResultPairs) -> ResultPairs {
    assoc_insert(
        assoc_insert(assoc_insert(m, "IsPortOpen"@, "open"@), "target"@, ctx.target_addr),
        "port"@,
        dec_str_of(ctx.port as int),
    )
}

impl Action for ActionIsPortOpen {
    open spec fn name_spec(&self) -> Seq<char> {
        "IsPortOpen"@
    }

    open spec fn wants_read_spec(&self) -> bool {
        false
    }

    open spec fn connect_effect(&self, ctx: CtxView, m: ResultPairs) -> ResultPairs {
        is_port_open_effect(ctx, m)
    }

    open spec fn read_effect(&self, ctx: CtxView, raw: Seq<u8>, m: ResultPairs) -> ResultPairs {
        m
    }

    proof fn connect_effect_properties(&self, ctx: CtxView, m: ResultPairs) {
        let m1 = assoc_insert(m, "IsPortOpen"@, "open"@);
        let m2 = assoc_insert(m1, "target"@, ctx.target_addr);
        lemma_assoc_insert_keys(m, "IsPortOpen"@, "open"@);
        lemma_assoc_insert_keys(m1, "target"@, ctx.target_addr);
        lemma_assoc_insert_keys(m2, "port"@, dec_str_of(ctx.port as int));
    }

    proof fn read_effect_properties(&self, ctx: CtxView, raw: Seq<u8>, m: ResultPairs) {
    }

    fn name(&self) -> (r: String) {
        String::from_str("IsPortOpen")
    }

    fn set_read_from_successfull_connection(&self) -> (r: bool) {
        false
    }

    fn execute_after_successfull_connection(
        &self,
        ctx: &ScanContext,
        actions_results: &mut ResultMap,
    ) {
        let name = self.name();
        actions_results.insert(name, String::from_str("open"));
        actions_results.insert(String::from_str("target"), ctx.target_addr.clone());
        actions_results.insert(String::from_str("port"), u64_to_dec_string(ctx.port as u64));
    }

    fn execute_after_successfull_connection_and_read(
        &self,
        _ctx: &ScanContext,
        _raw_data: &[u8],
        _actions_results: &mut ResultMap,
    ) {
        // This action never asks for a read, so this hook leaves the map
        // as it stands.
    }
}

} // verus!
