//! Resource lifetimes: completion waits and shutdown order.

use framesched::resources::{HandleKind, Ledger, ReleaseError};

#[test]
fn release_refused_while_work_is_in_flight() {
    let mut ledger = Ledger::new();
    let ds = ledger.allocate(HandleKind::DescriptorSet);
    let cb = ledger.allocate(HandleKind::CommandBuffer);
    let ub = ledger.allocate(HandleKind::UniformBuffer);
    ledger.submit(vec![ds.id, cb.id, ub.id]);
    // The completion signal is delayed: destruction must wait.
    assert!(matches!(ledger.release(ds.id), Err(ReleaseError::StillInFlight)));
    assert!(matches!(ledger.release(cb.id), Err(ReleaseError::StillInFlight)));
    assert!(matches!(ledger.release(ub.id), Err(ReleaseError::StillInFlight)));
    assert_eq!(ledger.live.len(), 3);
    ledger.wait_completion();
    // After the signal fires, everything the work referenced may go.
    assert!(ledger.release(ds.id).is_ok());
    assert!(ledger.release(cb.id).is_ok());
    assert!(ledger.release(ub.id).is_ok());
    assert_eq!(ledger.live.len(), 0);
}

#[test]
fn release_of_unknown_id_is_refused() {
    let mut ledger = Ledger::new();
    let ds = ledger.allocate(HandleKind::DescriptorSet);
    assert!(matches!(ledger.release(99), Err(ReleaseError::UnknownHandle)));
    assert!(ledger.release(ds.id).is_ok());
    assert!(matches!(ledger.release(ds.id), Err(ReleaseError::UnknownHandle)));
}

#[test]
fn unreferenced_resource_may_go_while_work_is_in_flight() {
    let mut ledger = Ledger::new();
    let ds = ledger.allocate(HandleKind::DescriptorSet);
    let other = ledger.allocate(HandleKind::UniformBuffer);
    ledger.submit(vec![ds.id]);
    // The in-flight work references only the descriptor set.
    assert!(ledger.release(other.id).is_ok());
    assert!(matches!(ledger.release(ds.id), Err(ReleaseError::StillInFlight)));
}

#[test]
fn ids_are_never_reused() {
    let mut ledger = Ledger::new();
    let a = ledger.allocate(HandleKind::CommandBuffer);
    let b = ledger.allocate(HandleKind::CommandBuffer);
    assert_eq!(a.id, 0);
    assert_eq!(b.id, 1);
    ledger.release(a.id).unwrap();
    let c = ledger.allocate(HandleKind::CommandBuffer);
    assert_eq!(c.id, 2);
}

#[test]
fn shutdown_releases_in_dependency_order() {
    let mut ledger = Ledger::new();
    // Allocation order deliberately interleaves ranks.
    let device = ledger.allocate(HandleKind::Device);
    let pipeline = ledger.allocate(HandleKind::Pipeline);
    let chain = ledger.allocate(HandleKind::PresentationChain);
    let ds = ledger.allocate(HandleKind::DescriptorSet);
    let cb = ledger.allocate(HandleKind::CommandBuffer);
    let ub = ledger.allocate(HandleKind::UniformBuffer);
    ledger.submit(vec![ds.id, cb.id, ub.id]);
    // Shutdown waits for the in-flight frame, then releases everything:
    // frame-scoped objects, then chain and pipeline, then the device.
    let order = ledger.shutdown();
    let kinds: Vec<HandleKind> = order.iter().map(|h| h.kind).collect();
    assert_eq!(
        kinds,
        vec![
            HandleKind::DescriptorSet,
            HandleKind::CommandBuffer,
            HandleKind::UniformBuffer,
            HandleKind::Pipeline,
            HandleKind::PresentationChain,
            HandleKind::Device,
        ]
    );
    let ids: Vec<u64> = order.iter().map(|h| h.id).collect();
    assert_eq!(ids, vec![ds.id, cb.id, ub.id, pipeline.id, chain.id, device.id]);
    // Zero leaked handles, nothing left pending.
    assert_eq!(ledger.live.len(), 0);
    assert_eq!(ledger.pending.len(), 0);
    assert!(!ledger.in_flight);
}

#[test]
fn shutdown_of_empty_ledger_is_empty() {
    let mut ledger = Ledger::new();
    let order = ledger.shutdown();
    assert_eq!(order.len(), 0);
}
