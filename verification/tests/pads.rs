use flexhlssink::pads::{pad_kind, PadKind, Pads};

#[test]
fn pad_kinds_by_template_name() {
    assert_eq!(pad_kind("audio"), Some(PadKind::Audio));
    assert_eq!(pad_kind("video"), Some(PadKind::Video));
    assert_eq!(pad_kind("audio_0"), None);
    assert_eq!(pad_kind("Video"), None);
    assert_eq!(pad_kind(""), None);
}

#[test]
fn pad_names() {
    assert_eq!(PadKind::Audio.name(), "audio");
    assert_eq!(PadKind::Video.name(), "video");
    assert_eq!(PadKind::Audio.peer_name(), "audio_0");
    assert_eq!(PadKind::Video.peer_name(), "video");
}

#[test]
fn each_pad_is_handed_out_once() {
    let mut pads = Pads::new();
    assert!(!pads.any());
    assert_eq!(pads.requestable(Some("audio")), Some(PadKind::Audio));
    assert_eq!(pads.requestable(Some("video")), Some(PadKind::Video));
    assert_eq!(pads.requestable(Some("text")), None);
    assert_eq!(pads.requestable(None), None);

    pads.requested(PadKind::Audio);
    assert!(pads.any());
    assert!(pads.audio_sink);
    assert!(!pads.video_sink);
    assert_eq!(pads.requestable(Some("audio")), None);
    assert_eq!(pads.requestable(Some("video")), Some(PadKind::Video));

    pads.requested(PadKind::Video);
    assert_eq!(pads.requestable(Some("video")), None);
    assert_eq!(pads, Pads { video_sink: true, audio_sink: true });
}

#[test]
fn released_pads_can_be_requested_again() {
    let mut pads = Pads { video_sink: true, audio_sink: true };
    pads.released("audio");
    assert_eq!(pads, Pads { video_sink: true, audio_sink: false });
    assert_eq!(pads.requestable(Some("audio")), Some(PadKind::Audio));
    pads.released("video");
    assert_eq!(pads, Pads { video_sink: false, audio_sink: false });
    assert!(!pads.any());

    let mut pads = Pads { video_sink: true, audio_sink: true };
    pads.released("anything");
    assert_eq!(pads, Pads { video_sink: false, audio_sink: true });
}
