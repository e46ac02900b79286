//! The staging area between the capture callback, the decode worker and the
//! consumer: three mailboxes, filled from captured frames on one side and
//! emptied by polling on the other.

use crate::convert::{convert, try_convert, Plane, RawPlane};
use crate::mailbox::Mailbox;
use crate::qr::{Code, QRCode};
use crate::raster::{GrayImage, Raster, RgbaImage};
use vstd::prelude::*;
use x_media::media_frame::MediaFrame;

verus! {

/// `x_media::media_frame::MediaFrame`, carried through verified code as an
/// opaque value.
#[verifier::external_type_specification]
#[verifier::external_body]
pub struct ExMediaFrame<'a>(MediaFrame<'a>);

/// One plane of a mapped frame, with each attribute that the frame may or
/// may not report for it.
pub struct FramePlane {
    pub stride: Option<u32>,
    pub height: Option<u32>,
    pub data: Option<Vec<u8>>,
}

/// What a frame plane is to the contracts.
pub struct PlaneAttributes {
    pub stride: Option<u32>,
    pub height: Option<u32>,
    pub data: Option<Seq<u8>>,
}

impl View for FramePlane {
    type V = PlaneAttributes;

    open spec fn view(&self) -> PlaneAttributes {
        PlaneAttributes {
            stride: self.stride,
            height: self.height,
            data: match self.data {
                Some(bytes) => Some(bytes@),
                None => None,
            },
        }
    }
}

impl DeepView for FramePlane {
    type V = PlaneAttributes;

    open spec fn deep_view(&self) -> PlaneAttributes {
        self@
    }
}

impl PlaneAttributes {
    /// The plane to convert, where stride, height and data are all there.
    pub open spec fn plane(self) -> Option<Plane> {
        match (self.stride, self.height, self.data) {
            (Some(stride), Some(height), Some(bytes)) => Some(
                Plane { stride: stride as nat, height: height as nat, bytes },
            ),
            _ => None,
        }
    }

    /// Whether the plane is converted: it is complete and its images can be
    /// held in memory.
    pub open spec fn usable(self) -> bool {
        self.plane() matches Some(plane) && plane.fits()
    }
}

/// The last plane of `planes` that is converted, if there is any.
pub open spec fn last_usable(planes: Seq<PlaneAttributes>) -> Option<Plane>
    decreases planes.len(),
{
    if planes.len() == 0 {
        None
    } else if planes.last().usable() {
        planes.last().plane()
    } else {
        last_usable(planes.drop_last())
    }
}

/// The planes of a frame in the order in which its mapping lists them, each
/// with the stride, height and data that `MappedPlane` reports for it, or
/// `None` for a frame that cannot be mapped or whose mapping lists no
/// planes.
pub uninterp spec fn frame_planes(frame: MediaFrame<'_>) -> Option<Seq<PlaneAttributes>>;

/// Calls `MediaFrame::map` and `MappedGuard::planes`, walks the planes and
/// copies out of each what `MappedPlane::stride`, `MappedPlane::height` and
/// `MappedPlane::data` return. Gives `None` where `map` fails or `planes`
/// gives `None`.
#[verifier::external_body]
fn map_planes(frame: &MediaFrame<'_>) -> (planes: Option<Vec<FramePlane>>)
    ensures
        planes.deep_view() == frame_planes(*frame),
{
    let guard = frame.map().ok()?;
    let mapped = guard.planes()?;
    Some(
        mapped.into_iter().map(
            |plane|
                FramePlane {
                    stride: plane.stride(),
                    height: plane.height(),
                    data: plane.data().map(|bytes| bytes.to_vec()),
                },
        ).collect(),
    )
}

/// The planes that a frame brings: those of its mapping, or none where it
/// cannot be mapped.
pub open spec fn planes_of(frame: MediaFrame<'_>) -> Seq<PlaneAttributes> {
    match frame_planes(frame) {
        Some(planes) => planes,
        None => Seq::empty(),
    }
}

/// What the three mailboxes hold, and the mirror setting.
pub struct Staged {
    /// The RGBA image waiting for the consumer.
    pub image: Option<Raster>,
    /// The grayscale image waiting for the decode worker.
    pub sample: Option<Raster>,
    /// The batch of decode results waiting for the consumer.
    pub codes: Option<Seq<Code>>,
    /// Whether frames are converted mirrored.
    pub mirror: bool,
}

impl Staged {
    /// The state after the two images of `plane` were staged.
    pub open spec fn with_plane(self, plane: Plane) -> Staged {
        Staged {
            image: Some(plane.rgba_image(self.mirror)),
            sample: Some(plane.gray_image(self.mirror)),
            ..self
        }
    }

    /// The state after a frame with these planes came in: the images of
    /// its last usable plane are staged, and where it has none nothing
    /// changes.
    pub open spec fn with_planes(self, planes: Seq<PlaneAttributes>) -> Staged {
        match last_usable(planes) {
            Some(plane) => self.with_plane(plane),
            None => self,
        }
    }
}

/// Converts the planes of a mapped frame in order and keeps the images of
/// the last one converted. A plane that lacks its stride, its height or its
/// data is passed over, and so is one whose images cannot be held in
/// memory.
pub fn convert_planes(planes: &Vec<FramePlane>, mirror: bool) -> (out: Option<
    (RgbaImage, GrayImage),
>)
    ensures
        out is Some == last_usable(planes.deep_view()) is Some,
        out matches Some(images) ==> images.0@ == last_usable(
            planes.deep_view(),
        )->0.rgba_image(mirror) && images.1@ == last_usable(planes.deep_view())->0.gray_image(
            mirror,
        ),
{
    let ghost all = planes.deep_view();
    let mut out: Option<(RgbaImage, GrayImage)> = None;
    let mut i: usize = 0;
    while i < planes.len()
        invariant
            i <= planes.len(),
            all == planes.deep_view(),
            all.len() == planes.len(),
            out is Some == last_usable(all.take(i as int)) is Some,
            out matches Some(images) ==> images.0@ == last_usable(
                all.take(i as int),
            )->0.rgba_image(mirror) && images.1@ == last_usable(all.take(i as int))->0.gray_image(
                mirror,
            ),
        decreases planes.len() - i,
    {
        let plane = &planes[i];
        proof {
            assert(all.take(i + 1).drop_last() =~= all.take(i as int));
            assert(all.take(i + 1).last() == all[i as int]);
            assert(all[i as int] == plane@);
        }
        match (plane.stride, plane.height, &plane.data) {
            (Some(stride), Some(height), Some(bytes)) => {
                let raw = RawPlane { stride, height, bytes: bytes.as_slice() };
                assert(raw@ == plane@.plane()->0);
                match try_convert(&raw, mirror) {
                    Some(images) => {
                        out = Some(images);
                    },
                    None => {},
                }
            },
            _ => {},
        }
        i += 1;
    }
    assert(all.take(planes.len() as int) =~= all);
    out
}

/// Maps a frame and converts its planes, as [`convert_planes`] does. A
/// frame that cannot be mapped gives nothing.
pub fn convert_frame(frame: &MediaFrame<'_>, mirror: bool) -> (out: Option<(RgbaImage, GrayImage)>)
    ensures
        out is Some == last_usable(planes_of(*frame)) is Some,
        out matches Some(images) ==> images.0@ == last_usable(planes_of(*frame))->0.rgba_image(
            mirror,
        ) && images.1@ == last_usable(planes_of(*frame))->0.gray_image(mirror),
{
    match map_planes(frame) {
        Some(planes) => convert_planes(&planes, mirror),
        None => None,
    }
}

/// The three mailboxes of the pipeline: the latest RGBA image and the latest
/// batch of results for the consumer, and the latest grayscale image for
/// the decode worker.
pub struct Decoder {
    rgba_image: Mailbox<RgbaImage>,
    grey_image: Mailbox<GrayImage>,
    qrcodes: Mailbox<Vec<QRCode>>,
    mirror: bool,
}

impl View for Decoder {
    type V = Staged;

    closed spec fn view(&self) -> Staged {
        Staged {
            image: match self.rgba_image@ {
                Some(image) => Some(image@),
                None => None,
            },
            sample: match self.grey_image@ {
                Some(image) => Some(image@),
                None => None,
            },
            codes: match self.qrcodes@ {
                Some(batch) => Some(batch.deep_view()),
                None => None,
            },
            mirror: self.mirror,
        }
    }
}

impl Decoder {
    /// Empty mailboxes. Frames are converted mirrored, as a camera that
    /// faces its user wants them.
    pub fn new() -> (decoder: Self)
        ensures
            decoder@ == (Staged { image: None, sample: None, codes: None, mirror: true }),
    {
        Decoder {
            rgba_image: Mailbox::new(),
            grey_image: Mailbox::new(),
            qrcodes: Mailbox::new(),
            mirror: true,
        }
    }

    /// Switches mirroring on or off for the frames to come.
    pub fn set_mirror(&mut self, mirror: bool)
        ensures
            final(self)@ == (Staged { mirror, ..old(self)@ }),
    {
        self.mirror = mirror;
    }

    /// Whether frames are converted mirrored.
    pub fn mirror(&self) -> (mirror: bool)
        ensures
            mirror == self@.mirror,
    {
        self.mirror
    }

    /// Stages a converted pair of images over whatever was waiting.
    pub fn stage(&mut self, images: (RgbaImage, GrayImage))
        ensures
            final(self)@ == (Staged {
                image: Some(images.0@),
                sample: Some(images.1@),
                ..old(self)@
            }),
    {
        let (rgba, gray) = images;
        self.rgba_image.write(rgba);
        self.grey_image.write(gray);
    }

    /// Converts one plane and stages its two images over whatever was
    /// waiting. The images must fit in memory.
    pub fn record_img(&mut self, stride: u32, height: u32, data: &[u8])
        requires
            (Plane { stride: stride as nat, height: height as nat, bytes: data@ }).fits(),
        ensures
            final(self)@ == old(self)@.with_plane(
                Plane { stride: stride as nat, height: height as nat, bytes: data@ },
            ),
    {
        let plane = RawPlane { stride, height, bytes: data };
        let images = convert(&plane, self.mirror);
        self.stage(images);
    }

    /// Takes in the planes of one mapped frame: the images of the last
    /// usable plane are staged, and where there is none nothing changes.
    pub fn record_planes(&mut self, planes: &Vec<FramePlane>)
        ensures
            final(self)@ == old(self)@.with_planes(planes.deep_view()),
    {
        match convert_planes(planes, self.mirror) {
            Some(images) => self.stage(images),
            None => {},
        }
    }

    /// Takes in one captured frame: maps it and stages the images of its
    /// last usable plane. A frame without a usable plane changes nothing.
    pub fn decode(&mut self, frame: MediaFrame<'_>)
        ensures
            final(self)@ == old(self)@.with_planes(planes_of(frame)),
    {
        match convert_frame(&frame, self.mirror) {
            Some(images) => self.stage(images),
            None => {},
        }
    }

    /// Hands out the latest RGBA image, if one came in since the last call.
    pub fn take_img(&mut self) -> (image: Option<RgbaImage>)
        ensures
            image is Some == old(self)@.image is Some,
            image matches Some(taken) ==> old(self)@.image == Some(taken@),
            final(self)@ == (Staged { image: None, ..old(self)@ }),
    {
        self.rgba_image.take()
    }

    /// Hands out the latest batch of results, if one came in since the last
    /// call.
    pub fn take_qrcodes(&mut self) -> (batch: Option<Vec<QRCode>>)
        ensures
            batch is Some == old(self)@.codes is Some,
            batch matches Some(taken) ==> old(self)@.codes == Some(taken.deep_view()),
            final(self)@ == (Staged { codes: None, ..old(self)@ }),
    {
        self.qrcodes.take()
    }

    /// Hands the decode worker the latest grayscale image, if one came in
    /// since the last sample.
    pub fn take_sample(&mut self) -> (sample: Option<GrayImage>)
        ensures
            sample is Some == old(self)@.sample is Some,
            sample matches Some(taken) ==> old(self)@.sample == Some(taken@),
            final(self)@ == (Staged { sample: None, ..old(self)@ }),
    {
        self.grey_image.take()
    }

    /// Publishes a batch of results over whatever batch was waiting.
    pub fn publish(&mut self, batch: Vec<QRCode>)
        ensures
            final(self)@ == (Staged { codes: Some(batch.deep_view()), ..old(self)@ }),
    {
        self.qrcodes.write(batch);
    }
}

/// The plane that is staged is the usable plane that comes last: a usable
/// plane with no usable plane after it.
pub proof fn lemma_last_usable_comes_last(planes: Seq<PlaneAttributes>, at: int)
    requires
        0 <= at < planes.len(),
        planes[at].usable(),
        forall|later: int| at < later < planes.len() ==> !(#[trigger] planes[later]).usable(),
    ensures
        last_usable(planes) == planes[at].plane(),
    decreases planes.len(),
{
    if at + 1 < planes.len() {
        assert(!planes[planes.len() - 1].usable());
        assert(planes.drop_last()[at] == planes[at]);
        assert forall|later: int| at < later < planes.drop_last().len() implies !(
        #[trigger] planes.drop_last()[later]).usable() by {
            assert(planes.drop_last()[later] == planes[later]);
        }
        lemma_last_usable_comes_last(planes.drop_last(), at);
    }
}

/// A frame without a usable plane stages nothing.
pub proof fn lemma_no_usable_plane(planes: Seq<PlaneAttributes>)
    requires
        forall|at: int| 0 <= at < planes.len() ==> !(#[trigger] planes[at]).usable(),
    ensures
        last_usable(planes) is None,
    decreases planes.len(),
{
    if planes.len() > 0 {
        assert(!planes[planes.len() - 1].usable());
        assert forall|at: int| 0 <= at < planes.drop_last().len() implies !(
        #[trigger] planes.drop_last()[at]).usable() by {
            assert(planes.drop_last()[at] == planes[at]);
        }
        lemma_no_usable_plane(planes.drop_last());
    }
}

/// Staging is lossy by design: of two frames that come in with no read in
/// between, the images of the later one are what is found, unless the later
/// one has no usable plane and so leaves those of the earlier one in place.
pub proof fn lemma_newer_frame_replaces_older(
    before: Staged,
    older: Seq<PlaneAttributes>,
    newer: Seq<PlaneAttributes>,
)
    ensures
        last_usable(newer) is Some ==> before.with_planes(older).with_planes(newer)
            == before.with_planes(newer),
        last_usable(newer) is None ==> before.with_planes(older).with_planes(newer)
            == before.with_planes(older),
{
}

/// Frames touch the two image mailboxes only: the batch of results that is
/// waiting, and the mirror setting, stay as they are.
pub proof fn lemma_frames_leave_results_alone(before: Staged, planes: Seq<PlaneAttributes>)
    ensures
        before.with_planes(planes).codes == before.codes,
        before.with_planes(planes).mirror == before.mirror,
{
}

} // verus!
