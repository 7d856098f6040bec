use spine::lexer::lex_msg;
use spine::model::{SegRef, SpineLedgerEvent, SpineToken};

#[test]
fn lex_msg_produces_matching_event_and_token() {
    let lexed = lex_msg(7, 3, true, Some(2)).expect("msg lexes");

    assert_eq!(lexed.events.len(), 1);
    assert!(matches!(
        lexed.events.first(),
        Some(SpineLedgerEvent::Msg {
            raw_ordinal: 7,
            context_index: 3,
            from_user: true,
            user_anchor: Some(2),
        })
    ));
    assert_eq!(
        lexed.tokens,
        vec![SpineToken::Msg {
            seg: SegRef::ResponseItem {
                raw_ordinal: 7,
                context_index: 3,
            },
            from_user: true,
            user_anchor: Some(2),
        }]
    );
}

#[test]
fn lex_msg_without_anchor_keeps_assistant_origin() {
    let lexed = lex_msg(0, 0, false, None).expect("msg lexes");
    assert_eq!(
        lexed.events,
        vec![SpineLedgerEvent::Msg {
            raw_ordinal: 0,
            context_index: 0,
            from_user: false,
            user_anchor: None,
        }]
    );
    assert_eq!(lexed.tokens.len(), 1);
}
