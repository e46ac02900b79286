use qr_cam::decode::{convert_frame, convert_planes, Decoder, FramePlane};
use qr_cam::qr::{Point, QRCode};
use std::num::{NonZeroU32, NonZeroU8};
use x_media::audio::{AudioFormat, AudioFrameDescription};
use x_media::media_frame::MediaFrame;
use x_media::video::{PixelFormat, VideoFrameDescription};

fn nz(n: u32) -> NonZeroU32 {
    NonZeroU32::new(n).unwrap()
}

fn packed_frame(width: u32, height: u32, stride: u32, bytes: &[u8]) -> MediaFrame<'_> {
    let desc = VideoFrameDescription::new(PixelFormat::UYVY, nz(width), nz(height));
    MediaFrame::from_packed_data_buffer(desc, nz(stride), bytes).unwrap()
}

fn plane(stride: Option<u32>, height: Option<u32>, data: Option<Vec<u8>>) -> FramePlane {
    FramePlane { stride, height, data }
}

const ROWS: [u8; 16] = [
    128, 1, 128, 2, 128, 3, 128, 4, //
    128, 5, 128, 6, 128, 7, 128, 8,
];

#[test]
fn a_new_decoder_holds_nothing() {
    let mut decoder = Decoder::new();
    assert!(decoder.mirror());
    assert!(decoder.take_img().is_none());
    assert!(decoder.take_qrcodes().is_none());
    assert!(decoder.take_sample().is_none());
}

#[test]
fn a_frame_fills_both_image_mailboxes() {
    let mut decoder = Decoder::new();
    decoder.set_mirror(false);
    decoder.decode(packed_frame(4, 2, 8, &ROWS));
    let image = decoder.take_img().unwrap();
    assert_eq!((image.width(), image.height()), (4, 2));
    let raw = image.into_raw();
    assert_eq!(&raw[..8], [1, 1, 1, 255, 2, 2, 2, 255]);
    assert_eq!(&raw[28..], [8, 8, 8, 255]);
    let sample = decoder.take_sample().unwrap();
    assert_eq!((sample.width(), sample.height()), (4, 2));
    assert_eq!(sample.into_raw(), vec![1, 2, 3, 4, 5, 6, 7, 8]);
    assert!(decoder.take_img().is_none());
    assert!(decoder.take_sample().is_none());
    assert!(decoder.take_qrcodes().is_none());
}

#[test]
fn frames_are_mirrored_unless_switched_off() {
    let mut decoder = Decoder::new();
    decoder.decode(packed_frame(4, 2, 8, &ROWS));
    assert_eq!(decoder.take_sample().unwrap().into_raw(), vec![7, 8, 5, 6, 0, 0, 0, 0]);
    decoder.set_mirror(false);
    assert!(!decoder.mirror());
    decoder.decode(packed_frame(4, 2, 8, &ROWS));
    assert_eq!(decoder.take_sample().unwrap().into_raw(), vec![1, 2, 3, 4, 5, 6, 7, 8]);
}

#[test]
fn a_newer_frame_replaces_an_unread_one() {
    let mut decoder = Decoder::new();
    decoder.set_mirror(false);
    decoder.decode(packed_frame(4, 2, 8, &ROWS));
    let newer = [128u8, 40, 128, 50];
    decoder.decode(packed_frame(2, 1, 4, &newer));
    let image = decoder.take_img().unwrap();
    assert_eq!((image.width(), image.height()), (2, 1));
    assert_eq!(decoder.take_sample().unwrap().into_raw(), vec![40, 50]);
    assert!(decoder.take_img().is_none());
}

#[test]
fn the_image_mailboxes_are_read_apart() {
    let mut decoder = Decoder::new();
    decoder.record_img(4, 1, &[128, 40, 128, 50]);
    assert!(decoder.take_sample().is_some());
    decoder.record_img(4, 1, &[128, 60, 128, 70]);
    // the consumer sees the newer image, the worker the newer sample
    assert!(decoder.take_img().is_some());
    assert!(decoder.take_sample().is_some());
    assert!(decoder.take_sample().is_none());
}

#[test]
fn a_frame_without_video_planes_changes_nothing() {
    let mut decoder = Decoder::new();
    decoder.set_mirror(false);
    decoder.decode(packed_frame(2, 1, 4, &[128, 40, 128, 50]));
    let desc = AudioFrameDescription::new(
        AudioFormat::S16,
        NonZeroU8::new(2).unwrap(),
        nz(64),
        nz(48_000),
    );
    let audio = MediaFrame::new_audio_frame(desc).unwrap();
    assert!(convert_frame(&audio, false).is_none());
    decoder.decode(audio);
    assert_eq!(decoder.take_sample().unwrap().into_raw(), vec![40, 50]);
    assert!(decoder.take_img().is_some());
}

#[test]
fn every_plane_of_a_planar_frame_is_taken_and_the_last_one_stays() {
    // I420, 4 x 2: a luma plane of stride 4 and two chroma planes of stride 2
    let desc = VideoFrameDescription::new(PixelFormat::I420, nz(4), nz(2));
    let bytes: Vec<u8> = (1..=12).collect();
    let frame = MediaFrame::from_data_buffer(desc, &bytes).unwrap();
    let (rgba, gray) = convert_frame(&frame, false).unwrap();
    assert_eq!((rgba.width(), rgba.height()), (1, 1));
    assert_eq!((gray.width(), gray.height()), (1, 1));
    assert_eq!(gray.into_raw(), vec![0]);
}

#[test]
fn incomplete_planes_are_passed_over() {
    let good = vec![128u8, 40, 128, 50];
    let planes = vec![
        plane(Some(4), Some(1), Some(good.clone())),
        plane(None, Some(1), Some(vec![1, 2, 3, 4])),
        plane(Some(4), None, Some(vec![1, 2, 3, 4])),
        plane(Some(4), Some(1), None),
        plane(None, None, None),
    ];
    let (_, gray) = convert_planes(&planes, false).unwrap();
    assert_eq!(gray.into_raw(), vec![40, 50]);
    assert!(convert_planes(&planes[1..].to_vec_of_planes(), false).is_none());
    assert!(convert_planes(&Vec::new(), true).is_none());
}

trait ToPlanes {
    fn to_vec_of_planes(&self) -> Vec<FramePlane>;
}

impl ToPlanes for [FramePlane] {
    fn to_vec_of_planes(&self) -> Vec<FramePlane> {
        self.iter()
            .map(|p| FramePlane { stride: p.stride, height: p.height, data: p.data.clone() })
            .collect()
    }
}

#[test]
fn the_last_complete_plane_wins() {
    let planes = vec![
        plane(Some(4), Some(1), Some(vec![128, 1, 128, 2])),
        plane(Some(8), Some(1), Some(vec![128, 3, 128, 4, 128, 5, 128, 6])),
        plane(Some(4), None, Some(vec![128, 7, 128, 8])),
    ];
    let (rgba, gray) = convert_planes(&planes, false).unwrap();
    assert_eq!(rgba.width(), 4);
    assert_eq!(gray.into_raw(), vec![3, 4, 5, 6]);
}

#[test]
fn a_plane_too_large_to_hold_is_passed_over() {
    let planes = vec![
        plane(Some(4), Some(1), Some(vec![128, 1, 128, 2])),
        plane(Some(u32::MAX), Some(u32::MAX), Some(vec![128, 3, 128, 4])),
    ];
    let mut decoder = Decoder::new();
    decoder.set_mirror(false);
    decoder.record_planes(&planes);
    assert_eq!(decoder.take_sample().unwrap().into_raw(), vec![1, 2]);
}

#[test]
fn a_short_plane_is_still_staged() {
    let mut decoder = Decoder::new();
    decoder.set_mirror(false);
    decoder.record_planes(&vec![plane(Some(8), Some(2), Some(ROWS[..6].to_vec()))]);
    assert_eq!(decoder.take_sample().unwrap().into_raw(), vec![1, 2, 0, 0, 0, 0, 0, 0]);
    let image = decoder.take_img().unwrap().into_raw();
    assert_eq!(image.len(), 32);
    assert_eq!(&image[..12], [1, 1, 1, 255, 2, 2, 2, 255, 0, 0, 0, 0]);
}

#[test]
fn results_are_published_as_a_batch_and_read_once() {
    let mut decoder = Decoder::new();
    let first = QRCode::new("one".to_string(), Point { x: 0, y: 0 }, Point { x: 9, y: 9 });
    decoder.publish(vec![first]);
    let second = QRCode::new("two".to_string(), Point { x: 1, y: 1 }, Point { x: 5, y: 5 });
    let third = QRCode::new("three".to_string(), Point { x: 2, y: 2 }, Point { x: 6, y: 6 });
    decoder.publish(vec![second, third]);
    let batch = decoder.take_qrcodes().unwrap();
    assert_eq!(batch.len(), 2);
    assert_eq!(batch[0].text(), "two");
    assert_eq!(batch[1].text(), "three");
    assert!(decoder.take_qrcodes().is_none());
    decoder.publish(Vec::new());
    assert!(decoder.take_qrcodes().unwrap().is_empty());
}

#[test]
fn stage_replaces_both_images() {
    let mut decoder = Decoder::new();
    decoder.record_img(4, 1, &[128, 1, 128, 2]);
    let images = convert_planes(&vec![plane(Some(4), Some(1), Some(vec![128, 9, 128, 8]))], false);
    decoder.stage(images.unwrap());
    assert_eq!(decoder.take_sample().unwrap().into_raw(), vec![9, 8]);
    assert_eq!(decoder.take_img().unwrap().into_raw(), vec![9, 9, 9, 255, 8, 8, 8, 255]);
}
