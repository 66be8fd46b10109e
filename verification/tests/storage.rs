//! Storage lookups and storage synchronization.

use swarm_transport::class::SendCompletionOutcome;
use swarm_transport::delivery::StorageSyncDestination;
use swarm_transport::did::Did;
use swarm_transport::error::Error;
use swarm_transport::protection::ProtectionProfile;
use swarm_transport::storage_lookup::PlacementMiss;
use swarm_transport::storage_lookup::StorageLookups;
use swarm_transport::storage_lookup::STORAGE_LOOKUP_OBSERVATION_CAPACITY;
use swarm_transport::storage_lookup::STORAGE_LOOKUP_OBSERVATION_TTL_MS;
use swarm_transport::storage_sync::expected_storage_sync_receiver;
use swarm_transport::storage_sync::per_entry_yield_enabled;
use swarm_transport::storage_sync::plan_storage_sync;
use swarm_transport::storage_sync::relay_relocation_permits;
use swarm_transport::storage_sync::settle_storage_sync;
use swarm_transport::storage_sync::should_persist_synced_entry;
use swarm_transport::storage_sync::storage_sync_destination_accepts_placement;
use swarm_transport::storage_sync::storage_sync_hop;
use swarm_transport::storage_sync::validate_report_acks;
use swarm_transport::storage_sync::BatchWork;
use swarm_transport::storage_sync::EntryJudgement;
use swarm_transport::storage_sync::StorageOwner;
use swarm_transport::storage_sync::StorageSyncAcks;
use swarm_transport::storage_sync::StorageSyncBatch;
use swarm_transport::storage_sync::StorageSyncCompletion;
use swarm_transport::storage_sync::StorageSyncOutcome;
use swarm_transport::storage_sync::StorageSyncPlan;
use swarm_transport::storage_sync::StorageSyncPurpose;
use swarm_transport::storage_sync::StorageSyncReport;
use swarm_transport::storage_sync::SyncedEntryAck;
use swarm_transport::storage_sync::TransactionId;
use swarm_transport::storage_sync::STORAGE_SYNC_ACK_CAPACITY;

fn miss(placement: u32, owner: u32) -> PlacementMiss {
    PlacementMiss {
        placement: Did::from_u32(placement),
        owner: Did::from_u32(owner),
    }
}

fn ack(key: u32, bytes: &[u8]) -> SyncedEntryAck {
    SyncedEntryAck {
        key: Did::from_u32(key),
        entry: bytes.to_vec(),
    }
}

fn tx(value: u128) -> TransactionId {
    TransactionId { value }
}

#[test]
fn test_per_entry_yield_ablation_reaches_real_storage_batch_policy() {
    assert!(per_entry_yield_enabled(ProtectionProfile::production()));
    assert!(!per_entry_yield_enabled(
        ProtectionProfile::without_per_entry_yield()
    ));
}

#[test]
fn only_an_open_lookup_takes_in_misses_and_hands_each_out_once() {
    let mut lookups = StorageLookups::new();
    let resource = Did::from_u32(5);
    assert!(matches!(
        lookups.observe_storage_misses(resource, 3, Ok(()), vec![miss(1, 2)], 0),
        Err(Error::InvalidMessage(_))
    ));
    assert!(lookups.start_storage_lookup(resource, 3, Ok(()), 0).is_ok());
    assert!(lookups
        .observe_storage_misses(resource, 3, Ok(()), vec![miss(2, 9), miss(1, 2)], 1)
        .is_ok());
    assert!(lookups
        .observe_storage_misses(resource, 3, Ok(()), vec![miss(1, 2)], 2)
        .is_ok());
    let taken = lookups
        .take_storage_misses(resource, 3, Ok(()), 3)
        .expect("the lookup is active");
    assert_eq!(taken, vec![miss(1, 2), miss(2, 9)]);
    assert_eq!(
        lookups
            .take_storage_misses(resource, 3, Ok(()), 3)
            .expect("the lookup is active"),
        Vec::new()
    );
    assert!(matches!(
        lookups.ensure_storage_lookup_active(resource, 4, Ok(()), 3),
        Err(Error::InvalidMessage(_))
    ));
    assert!(matches!(
        lookups.start_storage_lookup(resource, 0, Err(Error::LockPoisoned), 3),
        Err(Error::LockPoisoned)
    ));
}

#[test]
fn stale_and_surplus_lookups_are_gone() {
    let mut lookups = StorageLookups::new();
    let resource = Did::from_u32(5);
    assert!(lookups.start_storage_lookup(resource, 1, Ok(()), 0).is_ok());
    lookups.evict(STORAGE_LOOKUP_OBSERVATION_TTL_MS);
    assert_eq!(lookups.len(), 1);
    lookups.evict(STORAGE_LOOKUP_OBSERVATION_TTL_MS + 1);
    assert_eq!(lookups.len(), 0);

    for index in 0..=STORAGE_LOOKUP_OBSERVATION_CAPACITY {
        let resource = Did::from_u32(index as u32);
        assert!(lookups
            .start_storage_lookup(resource, 1, Ok(()), index as i64)
            .is_ok());
    }
    assert!(lookups.len() <= STORAGE_LOOKUP_OBSERVATION_CAPACITY);
    let newest = Did::from_u32(STORAGE_LOOKUP_OBSERVATION_CAPACITY as u32);
    assert!(lookups
        .ensure_storage_lookup_active(
            newest,
            1,
            Ok(()),
            STORAGE_LOOKUP_OBSERVATION_CAPACITY as i64
        )
        .is_ok());
}

#[test]
fn reports_acknowledge_awaited_entries_and_no_others() {
    let expected = vec![ack(1, b"a"), ack(1, b"a"), ack(2, b"b")];
    assert!(validate_report_acks(&expected, &vec![ack(2, b"b"), ack(1, b"a")]).is_ok());
    assert!(validate_report_acks(&expected, &Vec::new()).is_ok());
    assert!(validate_report_acks(&expected, &vec![ack(1, b"a"), ack(1, b"a")]).is_ok());
    assert!(matches!(
        validate_report_acks(&expected, &vec![ack(2, b"b"), ack(2, b"b")]),
        Err(Error::InvalidMessage(reason)) if reason == "storage sync report ack was not pending"
    ));
    assert!(validate_report_acks(&expected, &vec![ack(3, b"b")]).is_err());
}

#[test]
fn a_report_is_believed_only_from_the_receiver_it_was_sent_to() {
    let mut acks = StorageSyncAcks::new();
    let destination = StorageSyncDestination::PlacementKey(Did::from_u32(30));
    let hop = Did::from_u32(31);
    let purpose = StorageSyncPurpose::OwnershipHandoff;
    assert!(acks
        .record_pending_storage_sync_ack(
            tx(1),
            purpose,
            destination,
            hop,
            vec![ack(30, b"entry")],
            0
        )
        .is_ok());
    let report = |receiver: u32| StorageSyncReport {
        receiver: Did::from_u32(receiver),
        purpose,
        destination,
        acks: vec![ack(30, b"entry")],
    };
    assert!(acks
        .take_pending_storage_sync_ack(tx(2), hop, &report(31))
        .is_err());
    assert!(acks
        .take_pending_storage_sync_ack(tx(1), Did::from_u32(32), &report(31))
        .is_err());
    assert!(acks
        .take_pending_storage_sync_ack(tx(1), Did::from_u32(32), &report(32))
        .is_err());
    assert_eq!(acks.len(), 1);
    let taken = acks
        .take_pending_storage_sync_ack(tx(1), hop, &report(31))
        .expect("the receiver's report is believed");
    assert!(taken[0].matches_ack(&ack(30, b"entry")));
    assert_eq!(acks.len(), 0);
    assert!(acks
        .take_pending_storage_sync_ack(tx(1), hop, &report(31))
        .is_err());
}

#[test]
fn awaited_syncs_are_bounded_and_can_be_withdrawn() {
    let mut acks = StorageSyncAcks::new();
    let destination = StorageSyncDestination::PhysicalOwner(Did::from_u32(30));
    for index in 0..=STORAGE_SYNC_ACK_CAPACITY {
        let _ = acks.record_pending_storage_sync_ack(
            tx(index as u128),
            StorageSyncPurpose::OwnershipHandoff,
            destination,
            Did::from_u32(31),
            vec![ack(1, b"a")],
            index as i64,
        );
    }
    assert_eq!(acks.len(), STORAGE_SYNC_ACK_CAPACITY);
    acks.remove_pending_storage_sync_ack(tx(7));
    assert_eq!(acks.len(), STORAGE_SYNC_ACK_CAPACITY - 1);
}

fn judgement(key: u32, owner: StorageOwner, stored: Result<Vec<u8>, Error>) -> EntryJudgement {
    EntryJudgement {
        key: Did::from_u32(key),
        owner: Ok(owner),
        relay_inbox: false,
        predecessor: Ok(None),
        stored,
    }
}

#[test]
fn a_batch_is_judged_whole_before_anything_is_stored() {
    let destination = StorageSyncDestination::PhysicalOwner(Did::from_u32(9));
    let sender = Did::from_u32(4);
    let purpose = StorageSyncPurpose::AdditiveRepair;
    let mut batch = StorageSyncBatch::new(purpose, destination, 3, sender);
    assert!(matches!(batch.work(), BatchWork::Validate(0)));
    assert!(batch
        .validate_one(judgement(1, StorageOwner::Local, Ok(b"one".to_vec())))
        .is_ok());
    assert!(batch
        .validate_one(judgement(2, StorageOwner::Remote, Ok(b"two".to_vec())))
        .is_ok());
    assert!(matches!(batch.work(), BatchWork::Validate(2)));
    assert!(batch
        .validate_one(judgement(3, StorageOwner::Local, Ok(b"three".to_vec())))
        .is_ok());
    assert!(matches!(batch.work(), BatchWork::Persist(0)));
    assert!(batch
        .entry_to_persist()
        .is_some_and(|entry| entry.matches_ack(&ack(1, b"one"))));
    batch.persisted_one();
    batch.persisted_one();
    assert!(matches!(batch.work(), BatchWork::Complete));
    let acks = batch.complete();
    assert_eq!(acks.len(), 2);
    assert!(acks[1].matches_ack(&ack(3, b"three")));

    let mut refused = StorageSyncBatch::new(purpose, destination, 2, sender);
    assert!(refused
        .validate_one(judgement(1, StorageOwner::Local, Err(Error::LockPoisoned)))
        .is_err());
}

#[test]
fn relay_inboxes_move_only_by_a_handoff_from_the_predecessor() {
    let sender = Did::from_u32(4);
    let handoff = StorageSyncPurpose::OwnershipHandoff;
    assert!(matches!(
        relay_relocation_permits(handoff, sender, false, Ok(None)),
        Ok(true)
    ));
    assert!(matches!(
        relay_relocation_permits(handoff, sender, true, Ok(Some(sender))),
        Ok(true)
    ));
    assert!(matches!(
        relay_relocation_permits(handoff, sender, true, Ok(Some(Did::from_u32(5)))),
        Ok(false)
    ));
    assert!(matches!(
        relay_relocation_permits(
            StorageSyncPurpose::AdditiveRepair,
            sender,
            true,
            Ok(Some(sender))
        ),
        Ok(false)
    ));
}

#[test]
fn destinations_decide_who_is_believed_and_what_is_stored() {
    let owner = Did::from_u32(1);
    let hop = Did::from_u32(2);
    let physical = StorageSyncDestination::PhysicalOwner(owner);
    let placed = StorageSyncDestination::PlacementKey(owner);
    assert_eq!(expected_storage_sync_receiver(physical, hop), owner);
    assert_eq!(expected_storage_sync_receiver(placed, hop), hop);
    assert!(storage_sync_destination_accepts_placement(physical, hop));
    assert!(!storage_sync_destination_accepts_placement(placed, hop));
    assert!(matches!(
        should_persist_synced_entry(placed, hop, Ok(StorageOwner::Local)),
        Ok(false)
    ));
    assert!(matches!(
        should_persist_synced_entry(placed, owner, Ok(StorageOwner::Local)),
        Ok(true)
    ));
    assert!(matches!(
        should_persist_synced_entry(physical, hop, Ok(StorageOwner::Unexpected)),
        Err(Error::UnexpectedPeerRingAction)
    ));
    assert_eq!(storage_sync_hop(Some(hop), owner), Some(hop));
    assert_eq!(storage_sync_hop(Some(owner), owner), None);
    assert_eq!(storage_sync_hop(None, owner), None);
}

#[test]
fn only_a_handoff_awaits_an_answer() {
    let hop = Did::from_u32(2);
    let destination = StorageSyncDestination::PlacementKey(Did::from_u32(30));
    let handoff = plan_storage_sync(Some(hop), StorageSyncPurpose::OwnershipHandoff);
    let repair = plan_storage_sync(Some(hop), StorageSyncPurpose::AdditiveRepair);
    assert_eq!(handoff, StorageSyncPlan::SendAwaitingAck { hop });
    assert_eq!(repair, StorageSyncPlan::SendUnrecorded { hop });
    let mut acks = StorageSyncAcks::new();

    acks.start_storage_sync(repair, tx(1), destination, vec![ack(30, b"entry")], 0);
    assert_eq!(acks.len(), 0);
    assert!(matches!(
        acks.finish_storage_sync(repair, tx(1), Ok(SendCompletionOutcome::Succeeded)),
        Ok(StorageSyncCompletion::Submitted {
            outcome: SendCompletionOutcome::Succeeded,
            ..
        })
    ));

    acks.start_storage_sync(handoff, tx(2), destination, vec![ack(30, b"entry")], 0);
    assert_eq!(acks.len(), 1);
    assert!(acks
        .finish_storage_sync(handoff, tx(2), Ok(SendCompletionOutcome::Succeeded))
        .is_ok());
    assert_eq!(acks.len(), 1);
    assert!(acks
        .take_pending_storage_sync_ack(
            tx(2),
            hop,
            &StorageSyncReport {
                receiver: hop,
                purpose: StorageSyncPurpose::OwnershipHandoff,
                destination,
                acks: vec![ack(30, b"entry")],
            }
        )
        .is_ok());

    acks.start_storage_sync(handoff, tx(3), destination, vec![ack(30, b"entry")], 0);
    assert!(matches!(
        acks.finish_storage_sync(
            handoff,
            tx(3),
            Err(Error::SwarmMissDidInTable(hop))
        ),
        Ok(StorageSyncCompletion::Submitted {
            outcome: SendCompletionOutcome::Cancelled,
            ..
        })
    ));
    assert_eq!(acks.len(), 0);

    // A repair withdraws no answer, not even under the number of an awaited sync.
    acks.start_storage_sync(handoff, tx(4), destination, vec![ack(30, b"entry")], 0);
    assert!(matches!(
        acks.finish_storage_sync(repair, tx(4), Err(Error::LockPoisoned)),
        Err(Error::LockPoisoned)
    ));
    assert_eq!(acks.len(), 1);
}

#[test]
fn a_sync_without_a_hop_is_stored_here() {
    let destination = StorageSyncDestination::PlacementKey(Did::from_u32(30));
    for purpose in [
        StorageSyncPurpose::OwnershipHandoff,
        StorageSyncPurpose::AdditiveRepair,
    ] {
        let plan = plan_storage_sync(None, purpose);
        assert_eq!(plan, StorageSyncPlan::PersistLocally);
        let mut acks = StorageSyncAcks::new();
        acks.start_storage_sync(plan, tx(1), destination, vec![ack(30, b"entry")], 0);
        assert_eq!(acks.len(), 0);
    }
}

#[test]
fn a_sync_that_was_not_sent_is_no_longer_awaited() {
    let (settled, withdrawn) = settle_storage_sync(tx(3), Ok(SendCompletionOutcome::Succeeded));
    assert!(!withdrawn);
    let completion = settled.expect("the sync was sent");
    assert!(StorageSyncOutcome::of(completion).is_sent());
    let (settled, withdrawn) = settle_storage_sync(tx(3), Ok(SendCompletionOutcome::Cancelled));
    assert!(withdrawn);
    let completion = settled.expect("a cancelled sync is no error");
    assert!(StorageSyncOutcome::of(completion).is_deferred());
    let (settled, withdrawn) = settle_storage_sync(tx(3), Err(Error::LockPoisoned));
    assert!(withdrawn);
    assert!(matches!(settled, Err(Error::LockPoisoned)));
    assert!(matches!(
        StorageSyncOutcome::of(StorageSyncCompletion::PersistedLocally),
        StorageSyncOutcome::PersistedLocally
    ));
}
