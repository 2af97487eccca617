//! The cards that show a conversation.
use crate::style::{Line, LineView};
use vstd::prelude::*;

verus! {

/// What a card shows.  A compact tool card follows an assistant card without
/// a blank row.
#[derive(Clone, Copy, Debug, PartialEq, Eq, Structural)]
pub enum CardKind {
    User,
    Assistant,
    Tool { compact: bool },
    Streaming,
    Thinking,
    Compaction,
    Error,
    Info,
    Elicitation,
}

/// A card of the conversation.
#[derive(Debug)]
pub struct Card {
    pub kind: CardKind,
    pub lines: Vec<Line>,
    pub top_pad: u16,
    pub bottom_pad: u16,
}

#[verifier::ext_equal]
pub struct CardView {
    pub kind: CardKind,
    pub lines: Seq<LineView>,
    pub top_pad: u16,
    pub bottom_pad: u16,
}

impl DeepView for Card {
    type V = CardView;

    open spec fn deep_view(&self) -> CardView {
        CardView {
            kind: self.kind,
            lines: self.lines.deep_view(),
            top_pad: self.top_pad,
            bottom_pad: self.bottom_pad,
        }
    }
}

impl Clone for Card {
    fn clone(&self) -> (r: Self)
        ensures
            r.deep_view() == self.deep_view(),
    {
        let r = Card {
            kind: self.kind,
            lines: self.lines.clone(),
            top_pad: self.top_pad,
            bottom_pad: self.bottom_pad,
        };
        assert(r.deep_view() =~= self.deep_view());
        r
    }
}

/// The cards of the messages that are settled.
#[derive(Debug)]
pub struct CardCache {
    pub cards: Vec<Card>,
    /// How many messages they show.
    pub processed_messages: usize,
}

#[verifier::ext_equal]
pub struct CardCacheView {
    pub cards: Seq<CardView>,
    pub processed_messages: usize,
}

impl DeepView for CardCache {
    type V = CardCacheView;

    open spec fn deep_view(&self) -> CardCacheView {
        CardCacheView {
            cards: self.cards.deep_view(),
            processed_messages: self.processed_messages,
        }
    }
}


impl CardCacheView {
    /// No cards.
    pub open spec fn empty() -> CardCacheView {
        CardCacheView { cards: Seq::empty(), processed_messages: 0 }
    }
}

impl CardCache {
    /// No cards.
    pub fn new() -> (r: CardCache)
        ensures
            r.deep_view() == CardCacheView::empty(),
    {
        let r = CardCache { cards: Vec::new(), processed_messages: 0 };
        assert(r.deep_view() =~= CardCacheView::empty());
        r
    }

    /// Drops all cards.
    pub fn invalidate(&mut self)
        ensures
            final(self).deep_view() == CardCacheView::empty(),
    {
        self.cards.clear();
        self.processed_messages = 0;
        assert(self.deep_view() =~= CardCacheView::empty());
    }
}

} // verus!
