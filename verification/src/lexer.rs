//! Turns observed messages into ledger events and parser tokens.
use crate::model::{SegRef, SpineError, SpineLedgerEvent, SpineToken};
use crate::text::string_of;
use vstd::prelude::*;

verus! {

/// Events and tokens produced for one observation.
#[derive(Clone, Debug)]
pub struct LexedTokenBatch {
    pub events: Vec<SpineLedgerEvent>,
    pub tokens: Vec<SpineToken>,
}

impl LexedTokenBatch {
    /// A batch of one event and one token.
    pub fn single(event: SpineLedgerEvent, token: SpineToken) -> (r: Self)
        ensures
            r.events@ == seq![event],
            r.tokens@ == seq![token],
    {
        let mut events = Vec::new();
        events.push(event);
        let mut tokens = Vec::new();
        tokens.push(token);
        assert(events@ =~= seq![event]);
        assert(tokens@ =~= seq![token]);
        LexedTokenBatch { events, tokens }
    }
}

/// Lexes one message: a ledger event and a parser token for the same response
/// item; fails when the context index does not fit a `usize`.
pub fn lex_msg(raw_ordinal: u64, context_index: u64, from_user: bool, user_anchor: Option<u64>) -> (r:
    Result<LexedTokenBatch, SpineError>)
    ensures
        context_index <= usize::MAX ==> (r matches Ok(b) && b.events@ == seq![
            SpineLedgerEvent::Msg { raw_ordinal, context_index, from_user, user_anchor },
        ] && b.tokens@ == seq![
            SpineToken::Msg {
                seg: SegRef::ResponseItem { raw_ordinal, context_index: context_index as usize },
                from_user,
                user_anchor,
            },
        ]),
        context_index > usize::MAX ==> (r matches Err(SpineError::InvalidEvent(m)) && m@
            == "context index overflow"@),
{
    if context_index > usize::MAX as u64 {
        let m = "context index overflow";
        return Err(SpineError::InvalidEvent(string_of(&crate::text::chars_of(m))));
    }
    let context_index_usize = context_index as usize;
    Ok(
        LexedTokenBatch::single(
            SpineLedgerEvent::Msg { raw_ordinal, context_index, from_user, user_anchor },
            SpineToken::Msg {
                seg: SegRef::ResponseItem { raw_ordinal, context_index: context_index_usize },
                from_user,
                user_anchor,
            },
        ),
    )
}

} // verus!
