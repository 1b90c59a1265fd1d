use fastsapp::model::{phone_of, ChatKind, Contact, Content, Delivery, Media, MediaState};

fn media() -> Media {
    Media {
        mime: "image/jpeg".into(),
        size: 1,
        width: None,
        height: None,
        path: None,
        state: MediaState::Idle,
    }
}

#[test]
fn kinds_come_from_the_server_part() {
    assert_eq!(ChatKind::from_id("1@s.whatsapp.net"), ChatKind::Direct);
    assert_eq!(ChatKind::from_id("1@lid"), ChatKind::Direct);
    assert_eq!(ChatKind::from_id("1-2@g.us"), ChatKind::Group);
    assert_eq!(ChatKind::from_id("1@newsletter"), ChatKind::Broadcast);
}

#[test]
fn summaries_read_like_whatsapp() {
    assert_eq!(Content::text("hi\nthere".into()).summary(), "hi");
    assert_eq!(
        Content::Image {
            caption: Some("look".into()),
            media: media()
        }
        .summary(),
        "Photo: look"
    );
    assert_eq!(
        Content::Image {
            caption: None,
            media: media()
        }
        .summary(),
        "Photo"
    );
    assert_eq!(
        Content::Audio {
            media: media(),
            seconds: Some(65),
            voice_note: true
        }
        .summary(),
        "Voice message (1:05)"
    );
}

#[test]
fn phones_only_come_from_phone_ids() {
    assert_eq!(
        phone_of("393331234567@s.whatsapp.net"),
        Some("393331234567")
    );
    assert_eq!(phone_of("12345@lid"), None);
    assert_eq!(phone_of("1-2@g.us"), None);
}

#[test]
fn labels_mark_names_people_chose_themselves() {
    let saved = Contact {
        id: "1".into(),
        full_name: Some("Ada".into()),
        push_name: Some("ada l".into()),
    };
    assert_eq!(saved.label().as_deref(), Some("Ada"));
    let stranger = Contact {
        id: "2".into(),
        full_name: None,
        push_name: Some("Bob".into()),
    };
    assert_eq!(stranger.label().as_deref(), Some("~Bob"));
    assert_eq!(Contact::default().label(), None);
}

#[test]
fn revoked_and_unsupported_messages_say_what_they_are() {
    assert_eq!(Content::Revoked.summary(), "This message was deleted");
    assert_eq!(
        Content::Unsupported { what: "poll_update".into() }.summary(),
        "Unsupported message (poll_update)"
    );
    assert_eq!(
        Content::Document {
            media: media(),
            file_name: "a.pdf".into(),
            caption: Some("first\nsecond".into()),
            pages: Some(3)
        }
        .summary(),
        "Document: a.pdf"
    );
}

#[test]
fn only_pending_messages_are_in_flight() {
    assert!(Delivery::Pending.in_flight());
    assert!(!Delivery::Sent.in_flight());
    assert!(!Delivery::NotOurs.in_flight());
}

#[test]
fn downloading_and_saving_change_only_the_attachment() {
    let mut content = Content::Image { caption: Some("x".into()), media: media() };
    content.set_media_state(MediaState::Downloading);
    match &content {
        Content::Image { caption, media } => {
            assert_eq!(caption.as_deref(), Some("x"));
            assert_eq!(media.state, MediaState::Downloading);
        }
        _ => panic!("still a picture"),
    }
    content.set_media_file("/tmp/x.jpg".into());
    assert_eq!(content.media().and_then(|m| m.path.as_deref()), Some("/tmp/x.jpg"));
    assert_eq!(content.media().map(|m| m.state.clone()), Some(MediaState::Idle));
    let mut text = Content::text("hi".into());
    text.set_media_state(MediaState::Downloading);
    assert_eq!(text, Content::text("hi".into()));
}
