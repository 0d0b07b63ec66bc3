use vstd::prelude::*;
use crate::capture::CaptureError;
use crate::encoders::{VideoEncoderDescriptor, find_video_encoder};
use crate::settings::CaptureSettings;
use crate::text::{opt_view, str_eq, colon_index, lemma_colon_index_bounds, find_colon, parse_i32, parse_i32_spec};

verus! {

/// The H.264 encoder stage of the video graph.
pub struct VideoEncoder {
    encoder_id: String,
    framerate: u32,
    bitrate_kbps: u32,
}

impl VideoEncoder {
    /// The encoder the settings select, at their framerate and bitrate.
    pub fn from_settings(config: &CaptureSettings) -> (e: Self)
        ensures
            e.encoder_id() == config@.video_encoder_id,
            e.framerate() == config@.framerate,
            e.bitrate_kbps() == config@.bitrate_kbps,
    {
        VideoEncoder {
            encoder_id: config.video_encoder_id.clone(),
            framerate: config.framerate,
            bitrate_kbps: config.bitrate_kbps,
        }
    }

    pub closed spec fn encoder_id(&self) -> Seq<char> {
        self.encoder_id@
    }

    pub closed spec fn framerate(&self) -> u32 {
        self.framerate
    }

    pub closed spec fn bitrate_kbps(&self) -> u32 {
        self.bitrate_kbps
    }

    /// The element factory name of the encoder.
    pub fn id(&self) -> (s: &str)
        ensures
            s@ == self.encoder_id(),
    {
        self.encoder_id.as_str()
    }

    /// The target bitrate in kbit/s.
    pub fn bitrate(&self) -> (b: u32)
        ensures
            b == self.bitrate_kbps(),
    {
        self.bitrate_kbps
    }

    /// The keyframe interval in frames: one second of video, at least one frame.
    pub fn gop(&self) -> (g: u32)
        ensures
            g == if self.framerate() == 0 { 1 } else { self.framerate() },
    {
        if self.framerate == 0 { 1 } else { self.framerate }
    }

    /// The keyframe interval as the signed value the `gop-size` property takes.
    pub fn gop_size(&self) -> (g: i32)
        requires
            self.framerate() <= i32::MAX,
        ensures
            g == if self.framerate() == 0 { 1 } else { self.framerate() as int },
    {
        let g = self.gop();
        g as i32
    }
}

/// What kind of video source the graph is built from.
pub enum VideoSource {
    Screen {
        monitor_id: String,
        framerate: u32,
        requires_d3d11: bool,
    },
}

impl VideoSource {
    /// The screen source for the settings, given the available encoders. The
    /// selected encoder must be available and must not need D3D12 memory; where
    /// it needs D3D11 memory, the source produces frames in D3D11 memory.
    pub fn from_settings(config: &CaptureSettings, encoders: &Vec<VideoEncoderDescriptor>) -> (r: Result<VideoSource, CaptureError>)
        ensures
            (forall|i: int| 0 <= i < encoders@.len() ==> #[trigger] encoders@[i].id@ != config@.video_encoder_id)
                ==> r == Err::<VideoSource, CaptureError>(CaptureError::EncoderUnavailable),
            forall|i: int| 0 <= i < encoders@.len() && #[trigger] encoders@[i].id@ == config@.video_encoder_id
                && (forall|j: int| 0 <= j < i ==> #[trigger] encoders@[j].id@ != config@.video_encoder_id)
                ==> {
                    let mem = opt_view(encoders@[i].required_memory);
                    &&& mem == Some("D3D12Memory"@) ==> r == Err::<VideoSource, CaptureError>(CaptureError::D3D12Unsupported)
                    &&& mem != Some("D3D12Memory"@) ==> (r matches Ok(VideoSource::Screen { monitor_id, framerate, requires_d3d11 })
                        && monitor_id@ == config@.video_device_id
                        && framerate == config@.framerate
                        && requires_d3d11 == (mem == Some("D3D11Memory"@)))
                },
    {
        match find_video_encoder(encoders, config.video_encoder_id.as_str()) {
            None => Err(CaptureError::EncoderUnavailable),
            Some(info) => {
                let ghost k = choose|k: int| 0 <= k < encoders@.len() && #[trigger] encoders@[k].id@ == config@.video_encoder_id
                    && info@ == encoders@[k]@
                    && forall|j: int| 0 <= j < k ==> #[trigger] encoders@[j].id@ != config@.video_encoder_id;
                proof {
                    assert forall|i: int| 0 <= i < encoders@.len() && #[trigger] encoders@[i].id@ == config@.video_encoder_id
                        && (forall|j: int| 0 <= j < i ==> #[trigger] encoders@[j].id@ != config@.video_encoder_id)
                        implies i == k by {
                        if i < k {
                        } else if i > k {
                            assert(encoders@[k].id@ != config@.video_encoder_id);
                        }
                    }
                }
                let (is_d3d11, is_d3d12) = match &info.required_memory {
                    Some(m) => (str_eq(m.as_str(), "D3D11Memory"), str_eq(m.as_str(), "D3D12Memory")),
                    None => (false, false),
                };
                if is_d3d12 {
                    return Err(CaptureError::D3D12Unsupported);
                }
                Ok(VideoSource::Screen {
                    monitor_id: config.video_device_id.clone(),
                    framerate: config.framerate,
                    requires_d3d11: is_d3d11,
                })
            },
        }
    }
}


/// The monitor index named by a video device id of the form `screen:<index>`:
/// the text before the first `:` must be `screen`, and the text after it, up
/// to the next `:`, must be a number.
pub open spec fn monitor_index_spec(id: Seq<char>) -> Option<i32> {
    let k = colon_index(id);
    if id.take(k) != "screen"@ || k >= id.len() {
        None
    } else {
        let rest = id.skip(k + 1);
        parse_i32_spec(rest.take(colon_index(rest)))
    }
}

/// The monitor index named by a video device id, such as 1 for `screen:1`.
pub fn monitor_index_from_id(id: &str) -> (r: Option<i32>)
    ensures
        r == monitor_index_spec(id@),
{
    let n = id.unicode_len();
    let k = find_colon(id, 0);
    assert(id@.skip(0) =~= id@);
    let head = id.substring_char(0, k);
    assert(head@ =~= id@.take(k as int));
    if !str_eq(head, "screen") || k >= n {
        return None;
    }
    let end = find_colon(id, k + 1);
    proof {
        lemma_colon_index_bounds(id@.skip(k + 1));
    }
    let part = id.substring_char(k + 1, end);
    proof {
        let rest = id@.skip(k + 1);
        assert(id@.skip((k + 1) as int) == rest);
        assert(part@ =~= rest.take(colon_index(rest)));
    }
    parse_i32(part)
}

} // verus!
