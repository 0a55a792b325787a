use moonbeam::frame::classify_inbound;
use moonbeam::session::{on_frame, on_inbound, on_video, Inbound, SocketAction, VideoFeed};

#[test]
fn inbound_decisions() {
    assert_eq!(on_inbound(Inbound::Binary), SocketAction::HandleFrame);
    assert_eq!(on_inbound(Inbound::Text), SocketAction::Ignore);
    assert_eq!(on_inbound(Inbound::Other), SocketAction::Ignore);
    assert_eq!(on_inbound(Inbound::Close), SocketAction::Disconnect);
    assert_eq!(on_inbound(Inbound::ReceiveError), SocketAction::Disconnect);
    assert_eq!(on_inbound(Inbound::Ended), SocketAction::Disconnect);
}

#[test]
fn video_decisions() {
    assert_eq!(on_video(VideoFeed::Packet), SocketAction::SendPacket);
    assert_eq!(on_video(VideoFeed::Lagged(3)), SocketAction::Disconnect);
    assert_eq!(on_video(VideoFeed::Closed), SocketAction::Disconnect);
}

#[test]
fn frame_decisions() {
    assert_eq!(on_frame(&classify_inbound(&[0x04, 0, 1, 2, 3, 4, 5, 6, 7, 8])), SocketAction::SendPong);
    assert_eq!(on_frame(&classify_inbound(&[0x03, 0, b'{', b'}'])), SocketAction::HandleFrame);
    assert_eq!(on_frame(&classify_inbound(&[0x01, 1, 9])), SocketAction::Ignore);
    assert_eq!(on_frame(&classify_inbound(&[0x03])), SocketAction::Ignore);
}
