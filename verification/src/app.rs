//! The first orchestrator: records are stored as they arrive, and a caller
//! finalizes a namespace's batch when it chooses.

use vstd::prelude::*;

use crate::commit::batch_meta;
use crate::commit::build_batch_meta;
use crate::commitment_registry::variant::registry_after_commit;
use crate::commitment_registry::CommitmentRegistryVariant;
use crate::config::BaseConfig;
use crate::proof_registry::ProofRegistryVariant;
use crate::storage::select;
use crate::storage::Storage;
use crate::storage::StorageScanFilter;
use crate::types::IncomingRecord;
use crate::types::Namespace;

verus! {

/// Main application orchestrator (first version).
pub struct App {
    /// Where batch commitments go.
    pub commitment_registry: CommitmentRegistryVariant,
    /// Where proofs go.
    pub proof_registry: ProofRegistryVariant,
    /// The settings, among them the accumulator type.
    pub config: BaseConfig,
    /// The record store.
    pub storage: Storage,
}

impl App {
    /// An orchestrator over the given parts.
    pub fn new(
        commitment_registry: CommitmentRegistryVariant,
        proof_registry: ProofRegistryVariant,
        config: BaseConfig,
        storage: Storage,
    ) -> (app: Self)
        ensures
            app.commitment_registry@ == commitment_registry@,
            app.storage@ == storage@,
            app.config == config,
    {
        App { commitment_registry, proof_registry, config, storage }
    }

    /// Does nothing: the run loop of this first version is a placeholder.
    /// The loop it stands for (receive records, store them, commit each
    /// epoch) is the one of `AppV2` and `RootSmith`, whose steps the service
    /// runs.
    pub fn run(&mut self) -> (res: Result<(), ()>)
        ensures
            res is Ok,
            final(self).storage@ == old(self).storage@,
            final(self).commitment_registry@ == old(self).commitment_registry@,
            final(self).proof_registry == old(self).proof_registry,
    {
        Ok(())
    }

    /// Stores a record.
    pub fn handle_incoming_record(&mut self, record: IncomingRecord) -> (res: Result<(), ()>)
        ensures
            res is Ok,
            final(self).storage@ == old(self).storage@.push(record),
            final(self).commitment_registry@ == old(self).commitment_registry@,
            final(self).proof_registry == old(self).proof_registry,
            final(self).config == old(self).config,
    {
        self.storage.put(&record);
        Ok(())
    }

    /// Registers, committed at `committed_at`, the batch commitment of every
    /// stored record of `namespace`; nothing when there are none. The
    /// records stay in the store.
    pub fn finalize_namespace_batch_at(
        &mut self,
        namespace: &Namespace,
        committed_at: u64,
    ) -> (res: Result<(), ()>)
        ensures
            res is Ok,
            final(self).storage@ == old(self).storage@,
            final(self).config == old(self).config,
            final(self).proof_registry == old(self).proof_registry,
            select(old(self).storage@, namespace@, None).len() == 0 ==> final(self).commitment_registry@ == old(self).commitment_registry@,
            select(old(self).storage@, namespace@, None).len() > 0 ==> final(self).commitment_registry@ == registry_after_commit(
                old(self).commitment_registry@,
                batch_meta(
                    namespace@,
                    select(old(self).storage@, namespace@, None),
                    committed_at,
                    old(self).config.accumulator_type,
                ),
            ),
    {
        let filter = StorageScanFilter { namespace: *namespace, timestamp: None };
        let records = self.storage.scan(&filter);
        if records.len() == 0 {
            return Ok(());
        }
        let meta = build_batch_meta(
            namespace,
            &records,
            committed_at,
            self.config.accumulator_type,
        );
        self.commitment_registry.commit(&meta)
    }

    /// Registers the batch commitment of every stored record of `namespace`,
    /// committed now by the system clock; nothing when there are none. The
    /// records stay in the store.
    pub fn finalize_namespace_batch(&mut self, namespace: &Namespace) -> (res: Result<(), ()>)
        ensures
            res is Ok,
            final(self).storage@ == old(self).storage@,
            final(self).config == old(self).config,
            final(self).proof_registry == old(self).proof_registry,
            select(old(self).storage@, namespace@, None).len() == 0 ==> final(self).commitment_registry@ == old(self).commitment_registry@,
            select(old(self).storage@, namespace@, None).len() > 0 ==> exists|committed_at: u64|
                final(self).commitment_registry@ == #[trigger] registry_after_commit(
                    old(self).commitment_registry@,
                    batch_meta(
                        namespace@,
                        select(old(self).storage@, namespace@, None),
                        committed_at,
                        old(self).config.accumulator_type,
                    ),
                ),
    {
        let now = crate::clock::unix_time_secs();
        let res = self.finalize_namespace_batch_at(namespace, now);
        proof {
            if select(old(self).storage@, namespace@, None).len() > 0 {
                assert(self.commitment_registry@ == registry_after_commit(
                    old(self).commitment_registry@,
                    batch_meta(
                        namespace@,
                        select(old(self).storage@, namespace@, None),
                        now,
                        old(self).config.accumulator_type,
                    ),
                ));
            }
        }
        res
    }
}

} // verus!
