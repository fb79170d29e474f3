//! The frame state machine, alone and against the fake device layer.

use framesched::chain::{Chain, Extent};
use framesched::dispatch::DispatchDims;
use framesched::error::FatalDeviceError;
use framesched::resources::{HandleKind, Ledger};
use framesched::scheduler::{
    FrameAction, FrameEvent, FrameState, RenderConfig, Scheduler, FRAME_INTERVAL_NANOS,
};

fn config(width: u32, height: u32) -> RenderConfig {
    RenderConfig { width, height, local_size: 8 }
}

#[test]
fn cadence_is_one_sixtieth_of_a_second() {
    assert_eq!(FRAME_INTERVAL_NANOS, 16_666_666);
}

#[test]
fn happy_frame_walks_all_states() {
    let mut sched = Scheduler::new(config(16, 16));
    assert!(matches!(sched.state, FrameState::Idle));
    let a = sched.step(FrameEvent::TickStarted);
    assert!(matches!(a, FrameAction::AcquireImage));
    assert!(matches!(sched.state, FrameState::Acquiring));

    let mut chain = Chain::create(3, Extent { width: 16, height: 16 }).unwrap();
    let (idx, sig) = chain.acquire().unwrap();
    let a = sched.step(FrameEvent::ImageAcquired { image_index: idx, signal: sig });
    match a {
        FrameAction::RecordAndSubmit { image_index, signal, dims } => {
            assert_eq!(image_index, idx);
            assert_eq!(signal, sig);
            // 16x16 with local size 8 dispatches (2, 2, 1).
            assert_eq!(dims, DispatchDims { x: 2, y: 2, z: 1 });
        }
        _ => panic!("expected a record-and-submit action"),
    }
    assert!(matches!(sched.state, FrameState::Recording));

    let a = sched.step(FrameEvent::WorkSubmitted);
    match a {
        FrameAction::PresentImage { image_index, signal } => {
            assert_eq!(image_index, idx);
            assert_eq!(signal, sig);
        }
        _ => panic!("expected a present action"),
    }
    assert!(matches!(sched.state, FrameState::Submitted));

    let a = sched.step(FrameEvent::PresentAccepted);
    assert!(matches!(a, FrameAction::WaitCompletion));
    assert!(matches!(sched.state, FrameState::Presented));

    let a = sched.step(FrameEvent::CompletionSignaled);
    assert!(matches!(a, FrameAction::SleepTick));
    assert!(matches!(sched.state, FrameState::Idle));
}

#[test]
fn odd_resolution_rounds_the_dispatch_up() {
    let mut sched = Scheduler::new(config(17, 16));
    sched.step(FrameEvent::TickStarted);
    let sig = framesched::chain::ReadySignal { chain_generation: 0, image_index: 0 };
    let a = sched.step(FrameEvent::ImageAcquired { image_index: 0, signal: sig });
    match a {
        FrameAction::RecordAndSubmit { dims, .. } => {
            // 17x16 with local size 8 dispatches (3, 2, 1).
            assert_eq!(dims, DispatchDims { x: 3, y: 2, z: 1 });
        }
        _ => panic!("expected a record-and-submit action"),
    }
}

#[test]
fn stale_chain_mid_frame_is_recovered() {
    let mut sched = Scheduler::new(config(16, 16));
    sched.step(FrameEvent::TickStarted);
    let a = sched.step(FrameEvent::ChainStale);
    assert!(matches!(a, FrameAction::RebuildChain));
    assert!(matches!(sched.state, FrameState::Invalidated));
    let a = sched.step(FrameEvent::ChainRebuilt);
    assert!(matches!(a, FrameAction::SleepTick));
    assert!(matches!(sched.state, FrameState::Idle));
}

#[test]
fn acquire_timeout_retries_next_tick() {
    let mut sched = Scheduler::new(config(16, 16));
    sched.step(FrameEvent::TickStarted);
    let a = sched.step(FrameEvent::AcquireTimedOut);
    assert!(matches!(a, FrameAction::SleepTick));
    assert!(matches!(sched.state, FrameState::Idle));
}

#[test]
fn device_failure_is_fatal() {
    let mut sched = Scheduler::new(config(16, 16));
    sched.step(FrameEvent::TickStarted);
    let sig = framesched::chain::ReadySignal { chain_generation: 0, image_index: 0 };
    sched.step(FrameEvent::ImageAcquired { image_index: 0, signal: sig });
    let a = sched.step(FrameEvent::DeviceFailed { error: FatalDeviceError::DeviceLost });
    assert!(matches!(a, FrameAction::ReportFatal { error: FatalDeviceError::DeviceLost }));
    assert!(matches!(sched.state, FrameState::Faulted));
    assert!(matches!(sched.fault, Some(FatalDeviceError::DeviceLost)));
}

#[test]
fn quit_mid_frame_lets_the_frame_complete() {
    let mut sched = Scheduler::new(config(16, 16));
    sched.step(FrameEvent::TickStarted);
    let sig = framesched::chain::ReadySignal { chain_generation: 0, image_index: 0 };
    sched.step(FrameEvent::ImageAcquired { image_index: 0, signal: sig });
    sched.step(FrameEvent::WorkSubmitted);
    // Quit arrives while the frame is submitted.
    sched.request_quit();
    let a = sched.step(FrameEvent::PresentAccepted);
    assert!(matches!(a, FrameAction::WaitCompletion));
    // Only after the completion signal does the machine halt.
    let a = sched.step(FrameEvent::CompletionSignaled);
    assert!(matches!(a, FrameAction::Halt));
    assert!(matches!(sched.state, FrameState::Idle));
}

#[test]
fn quit_between_frames_halts_at_the_tick() {
    let mut sched = Scheduler::new(config(16, 16));
    sched.request_quit();
    let a = sched.step(FrameEvent::TickStarted);
    assert!(matches!(a, FrameAction::Halt));
}

#[test]
fn full_loop_against_fake_device_layer() {
    // Two frames end to end without a GPU: the model chain and the ledger
    // stand in for the device, then a quit shuts everything down in order.
    let extent = Extent { width: 16, height: 16 };
    let mut sched = Scheduler::new(config(16, 16));
    let mut chain = Chain::create(3, extent).unwrap();
    let mut ledger = Ledger::new();
    let device = ledger.allocate(HandleKind::Device);
    let pipeline = ledger.allocate(HandleKind::Pipeline);
    let chain_handle = ledger.allocate(HandleKind::PresentationChain);

    let mut frames: u32 = 0;
    let mut frame_resources: Vec<u64> = Vec::new();
    let mut action = sched.step(FrameEvent::TickStarted);
    let mut steps: u32 = 0;
    loop {
        steps += 1;
        assert!(steps < 100, "the loop must halt");
        let event = match action {
            FrameAction::AcquireImage => match chain.acquire() {
                Ok((image_index, signal)) => FrameEvent::ImageAcquired { image_index, signal },
                Err(framesched::error::TransientPresentationError::OutOfDate) => {
                    FrameEvent::ChainStale
                }
                Err(framesched::error::TransientPresentationError::AcquireTimeout) => {
                    FrameEvent::AcquireTimedOut
                }
            },
            FrameAction::RecordAndSubmit { dims, .. } => {
                assert_eq!(dims, DispatchDims { x: 2, y: 2, z: 1 });
                let ds = ledger.allocate(HandleKind::DescriptorSet);
                let cb = ledger.allocate(HandleKind::CommandBuffer);
                let ub = ledger.allocate(HandleKind::UniformBuffer);
                frame_resources = vec![ds.id, cb.id, ub.id];
                ledger.submit(frame_resources.clone());
                FrameEvent::WorkSubmitted
            }
            FrameAction::PresentImage { image_index, signal } => {
                chain.present(image_index, signal).unwrap();
                FrameEvent::PresentAccepted
            }
            FrameAction::WaitCompletion => {
                ledger.wait_completion();
                for id in frame_resources.drain(..) {
                    ledger.release(id).unwrap();
                }
                frames += 1;
                FrameEvent::CompletionSignaled
            }
            FrameAction::RebuildChain => {
                chain.rebuild(extent).unwrap();
                FrameEvent::ChainRebuilt
            }
            FrameAction::SleepTick => {
                if frames == 2 {
                    sched.request_quit();
                }
                FrameEvent::TickStarted
            }
            FrameAction::Halt => break,
            FrameAction::ReportFatal { error } => panic!("fatal: {:?}", error),
        };
        action = sched.step(event);
    }
    assert_eq!(frames, 2);
    // Shutdown: the per-frame resources are already gone; the rest leaves
    // in dependency order with nothing leaked.
    let order = ledger.shutdown();
    let ids: Vec<u64> = order.iter().map(|h| h.id).collect();
    assert_eq!(ids, vec![pipeline.id, chain_handle.id, device.id]);
    assert_eq!(ledger.live.len(), 0);
}
