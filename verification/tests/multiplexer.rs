//! The multiplexer's lifecycle: attach, detach, retarget, frame delivery,
//! the control channel, and the extractor record.

use std::sync::mpsc::{channel, Sender};

use visualizers::audio_devices::PaSourceInfo;
use visualizers::audio_process::{
    normalize_frame, scale_by_reference_max, AudioProcessor, FRAMES,
};
use visualizers::audio_updater::{AudioUpdater, MultiplexError};
use visualizers::data_helpers::FIXED_ONE;
use visualizers::message::UpdateMessage;
use visualizers::config::ConvertTo;
use visualizers::messages::HandleMessage;
use visualizers::shared_data::ContinueState;

fn source(name: &str, channels: u8) -> PaSourceInfo {
    PaSourceInfo {
        name: name.to_string(),
        description: format!("{} (monitor)", name),
        rate: 44100,
        channels,
    }
}

fn mux(table: Vec<Option<PaSourceInfo>>) -> (AudioUpdater, Sender<UpdateMessage>) {
    let (sender, receiver) = channel();
    (AudioUpdater::new("default.monitor", table, receiver), sender)
}

fn frame_of(channels: usize, value: u64) -> Vec<Vec<u64>> {
    vec![vec![value; FRAMES]; channels]
}

#[test]
fn attach_creates_extractor_lazily() {
    let (mut m, _tx) = mux(vec![Some(source("alpha", 2))]);
    assert!(!m.is_active(0));
    assert_eq!(m.consumer_count(0), 0);
    assert_eq!(m.assign_id_to_index(1, 0, true), Ok(()));
    assert!(m.is_active(0));
    assert_eq!(m.consumer_count(0), 1);
    // The publication slot starts empty: no frame has been produced yet.
    assert!(m.read_slot(0).is_none());
}

#[test]
fn attach_fails_without_descriptor() {
    let (mut m, _tx) = mux(vec![Some(source("alpha", 2)), None]);
    assert_eq!(
        m.assign_id_to_index(1, 1, true),
        Err(MultiplexError::DeviceUnavailable)
    );
    assert!(!m.is_active(1));
}

#[test]
fn attach_fails_when_device_does_not_open() {
    let (mut m, _tx) = mux(vec![Some(source("alpha", 2))]);
    assert_eq!(
        m.assign_id_to_index(1, 0, false),
        Err(MultiplexError::DeviceUnavailable)
    );
    assert!(!m.is_active(0));
    assert_eq!(m.consumer_count(0), 0);
}

#[test]
fn attach_detach_pair_returns_to_empty() {
    let (mut m, _tx) = mux(vec![Some(source("alpha", 2))]);
    for _round in 0..3 {
        assert_eq!(m.assign_id_to_index(9, 0, true), Ok(()));
        assert!(m.is_active(0));
        assert_eq!(m.consumer_count(0), 1);
        m.remove_id_from_index(9, 0);
        assert!(!m.is_active(0));
        assert_eq!(m.consumer_count(0), 0);
        assert!(m.read_slot(0).is_none());
    }
}

#[test]
fn detach_of_absent_consumer_is_noop() {
    let (mut m, _tx) = mux(vec![Some(source("alpha", 2))]);
    // Detaching from an Unassigned index does nothing.
    m.remove_id_from_index(5, 0);
    assert!(!m.is_active(0));
    // Detaching an id that is not attached does nothing either.
    assert_eq!(m.assign_id_to_index(1, 0, true), Ok(()));
    m.remove_id_from_index(5, 0);
    assert!(m.is_active(0));
    assert_eq!(m.consumer_count(0), 1);
}

#[test]
fn two_consumers_share_one_extractor() {
    let (mut m, _tx) = mux(vec![Some(source("alpha", 2))]);
    assert_eq!(m.assign_id_to_index(1, 0, true), Ok(()));
    // The index is Active, so no new device open is involved at all: the
    // second attach succeeds whatever the driver's open report says.
    assert_eq!(m.assign_id_to_index(2, 0, false), Ok(()));
    assert!(m.is_active(0));
    assert_eq!(m.consumer_count(0), 2);
    m.remove_id_from_index(1, 0);
    assert!(m.is_active(0));
    assert_eq!(m.consumer_count(0), 1);
    m.remove_id_from_index(2, 0);
    assert!(!m.is_active(0));
}

#[test]
fn retarget_failed_attach_keeps_old_attachment() {
    let (mut m, _tx) = mux(vec![Some(source("alpha", 2)), None, Some(source("gamma", 1))]);
    assert_eq!(m.assign_id_to_index(7, 0, true), Ok(()));
    // No descriptor at index 1: the internal attach fails, no detach runs.
    assert_eq!(
        m.retarget(7, 0, 1, true),
        Err(MultiplexError::DeviceUnavailable)
    );
    assert!(m.is_active(0));
    assert_eq!(m.consumer_count(0), 1);
    // A descriptor exists at index 2, but the device would not open.
    assert_eq!(
        m.retarget(7, 0, 2, false),
        Err(MultiplexError::DeviceUnavailable)
    );
    assert!(m.is_active(0));
    assert_eq!(m.consumer_count(0), 1);
    assert!(!m.is_active(2));
}

#[test]
fn retarget_moves_attachment() {
    let (mut m, _tx) = mux(vec![Some(source("alpha", 2)), Some(source("beta", 1))]);
    assert_eq!(m.assign_id_to_index(7, 0, true), Ok(()));
    assert_eq!(m.retarget(7, 0, 1, true), Ok(()));
    assert!(!m.is_active(0));
    assert!(m.is_active(1));
    assert_eq!(m.consumer_count(1), 1);
    // The old index's slot is reset on teardown.
    assert!(m.read_slot(0).is_none());
}

#[test]
fn last_detach_clears_publication_slot() {
    let (mut m, _tx) = mux(vec![Some(source("alpha", 2))]);
    assert_eq!(m.assign_id_to_index(1, 0, true), Ok(()));
    assert_eq!(m.apply_capture(0, Some(frame_of(2, 42))), Ok(()));
    assert!(m.read_slot(0).is_some());
    m.remove_id_from_index(1, 0);
    assert!(m.read_slot(0).is_none());
}

#[test]
fn capture_failure_tears_index_down() {
    let (mut m, _tx) = mux(vec![Some(source("alpha", 2))]);
    assert_eq!(m.assign_id_to_index(1, 0, true), Ok(()));
    assert_eq!(m.apply_capture(0, Some(frame_of(2, 5))), Ok(()));
    assert_eq!(
        m.apply_capture(0, None),
        Err(MultiplexError::CaptureReadFailure)
    );
    assert!(!m.is_active(0));
    assert!(m.read_slot(0).is_none());
}

#[test]
fn publish_overwrites_whole_frame() {
    let (mut m, _tx) = mux(vec![Some(source("alpha", 2))]);
    assert_eq!(m.assign_id_to_index(1, 0, true), Ok(()));
    assert_eq!(m.apply_capture(0, Some(frame_of(2, 5))), Ok(()));
    assert_eq!(m.apply_capture(0, Some(frame_of(2, 8))), Ok(()));
    let published = m.read_slot(0).as_ref().unwrap();
    assert_eq!(published.len(), 2);
    assert!(published.iter().all(|ch| ch.iter().all(|&v| v == 8)));
}

#[test]
fn active_indices_lists_live_extractors_in_order() {
    let (mut m, _tx) = mux(vec![
        Some(source("alpha", 2)),
        Some(source("beta", 1)),
        Some(source("gamma", 1)),
    ]);
    assert_eq!(m.active_indices(), Vec::<usize>::new());
    assert_eq!(m.assign_id_to_index(1, 2, true), Ok(()));
    assert_eq!(m.assign_id_to_index(2, 0, true), Ok(()));
    assert_eq!(m.active_indices(), vec![0, 2]);
}

#[test]
fn poll_message_hands_out_messages_then_empty_then_closed() {
    let (mut m, tx) = mux(vec![Some(source("alpha", 2))]);
    tx.send(UpdateMessage::Add(1, 0)).unwrap();
    tx.send(UpdateMessage::Destroy(1, 0)).unwrap();
    assert_eq!(m.poll_message(), Ok(Some(UpdateMessage::Add(1, 0))));
    assert_eq!(m.poll_message(), Ok(Some(UpdateMessage::Destroy(1, 0))));
    assert_eq!(m.poll_message(), Ok(None));
    drop(tx);
    assert_eq!(m.poll_message(), Err(MultiplexError::ChannelClosed));
}

#[test]
fn handle_message_dispatches_each_variant() {
    let (mut m, _tx) = mux(vec![Some(source("alpha", 2)), Some(source("beta", 1))]);
    assert_eq!(m.handle_message((UpdateMessage::Add(1, 0), true)), Ok(()));
    assert!(m.is_active(0));
    assert_eq!(
        m.handle_message((UpdateMessage::ChangeMapping(1, 0, 1), true)),
        Ok(())
    );
    assert!(!m.is_active(0));
    assert!(m.is_active(1));
    assert_eq!(
        m.handle_message((UpdateMessage::Destroy(1, 1), false)),
        Ok(())
    );
    assert!(!m.is_active(1));
}

#[test]
fn default_source_index_finds_first_match() {
    let (sender, receiver) = channel();
    drop(sender);
    let table = vec![
        None,
        Some(source("other", 2)),
        Some(source("default.monitor", 2)),
        Some(source("default.monitor", 1)),
    ];
    let m = AudioUpdater::new("default.monitor", table, receiver);
    assert_eq!(m.default_source_index(), Some(2));

    let (_s2, r2) = channel();
    let m2 = AudioUpdater::new("default.monitor", vec![Some(source("other", 2)), None], r2);
    assert_eq!(m2.default_source_index(), None);
}

#[test]
fn audio_processor_record_follows_descriptor() {
    let table = vec![Some(source("alpha", 3)), None];
    let p = AudioProcessor::new(&table, 0).unwrap();
    assert_eq!(p.channels(), 3);
    assert_eq!(p.source_index(), 0);
    assert!(AudioProcessor::new(&table, 1).is_none());
}

#[test]
fn deinterleave_splits_channels() {
    let table = vec![Some(source("alpha", 2))];
    let p = AudioProcessor::new(&table, 0).unwrap();
    let samples: Vec<i16> = (0..(2 * FRAMES) as i32).map(|v| v as i16).collect();
    let split = p.deinterleave(&samples);
    assert_eq!(split.len(), 2);
    for c in 0..2 {
        assert_eq!(split[c].len(), FRAMES);
        for f in 0..FRAMES {
            assert_eq!(split[c][f], samples[f * 2 + c]);
        }
    }
}

#[test]
fn reference_normalization_clamps_to_one() {
    let mut bins = vec![2 * FIXED_ONE, FIXED_ONE / 2, 0];
    let reference = vec![FIXED_ONE, FIXED_ONE, FIXED_ONE];
    scale_by_reference_max(&mut bins, &reference);
    assert_eq!(bins.as_slice(), &[FIXED_ONE, FIXED_ONE / 2, 0]);
}

#[test]
fn reference_normalization_treats_channels_identically() {
    let mut frame = vec![
        vec![4 * FIXED_ONE, FIXED_ONE],
        vec![4 * FIXED_ONE, FIXED_ONE],
    ];
    let reference = vec![2 * FIXED_ONE, 4 * FIXED_ONE];
    normalize_frame(&mut frame, &reference);
    assert_eq!(frame[0], frame[1]);
    assert_eq!(frame[0].as_slice(), &[FIXED_ONE, FIXED_ONE / 4]);
}

#[test]
fn continue_state_reads_back_last_store() {
    let flag = ContinueState::new(true);
    assert!(flag.get());
    flag.set(false);
    assert!(!flag.get());
    flag.set(true);
    assert!(flag.get());
}

struct BarSettings {
    bars: usize,
}

impl ConvertTo<usize> for BarSettings {
    fn convert_to(&self) -> usize {
        self.bars
    }
}

#[test]
fn convert_to_round_trips_a_value() {
    let settings = BarSettings { bars: 30 };
    assert_eq!(settings.convert_to(), 30);
}
