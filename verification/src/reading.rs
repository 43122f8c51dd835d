//! The reading loop of a subscription: which texts are handed on, and when it ends.

use vstd::prelude::*;

use crate::subscription::{
    after_delivery, on_reader_event, Delivery, ReaderEvent, SubConfig, SubscriptionStep,
};

verus! {

/// A subscription that is being read.
///
/// As long as `goes_on` says so, the next event of the reader is waited for and given to
/// `on_event`. The text that comes back is read as an event and handed on, and `on_delivery`
/// takes what became of it.
pub struct Reading {
    generation: u64,
    over: bool,
}

/// The state of a subscription that is being read.
pub struct ReadState {
    /// The generation at which it was made.
    pub generation: u64,
    /// Whether it has ended.
    pub over: bool,
}

impl View for Reading {
    type V = ReadState;

    closed spec fn view(&self) -> ReadState {
        ReadState { generation: self.generation, over: self.over }
    }
}

/// The text that an event carries, where it is a line with text.
pub open spec fn text_of(event: ReaderEvent) -> Option<Seq<char>> {
    match event {
        ReaderEvent::Line(line) => if crate::subscription::payload(line@).len() > 0 {
            Some(crate::subscription::payload(line@))
        } else {
            None
        },
        _ => None,
    }
}

/// Tells whether an event says that nothing more will come.
pub open spec fn is_end(event: ReaderEvent) -> bool {
    event is Ended || event is Gone
}

/// Once it was looked whether the generation is still `current`.
pub open spec fn looked(s: ReadState, current: u64) -> ReadState {
    ReadState { over: s.over || current != s.generation, ..s }
}

/// The text to hand on, once `event` has come in.
pub open spec fn offer(s: ReadState, event: ReaderEvent) -> Option<Seq<char>> {
    if s.over {
        None
    } else {
        text_of(event)
    }
}

/// Once `event` has come in.
pub open spec fn heard(s: ReadState, event: ReaderEvent) -> ReadState {
    ReadState { over: s.over || is_end(event), ..s }
}

/// Once `delivery` has become of a text.
pub open spec fn delivered(s: ReadState, delivery: Delivery) -> ReadState {
    ReadState { over: s.over || delivery is Refused, ..s }
}

impl Reading {
    /// A subscription made at `generation`.
    pub fn new(generation: u64) -> (r: Reading)
        ensures
            r@ == (ReadState { generation, over: false }),
    {
        Reading { generation, over: false }
    }

    /// Tells whether to wait for the next event. A changed generation ends the subscription.
    pub fn goes_on(&mut self, config: &SubConfig) -> (r: bool)
        ensures
            final(self)@ == looked(old(self)@, config.generation),
            r == !final(self)@.over,
    {
        if !config.is_current(self.generation) {
            self.over = true;
        }
        !self.over
    }

    /// Takes an event of the reader. Gives the text to hand on, where there is one.
    pub fn on_event(&mut self, event: &ReaderEvent) -> (r: Option<String>)
        ensures
            final(self)@ == heard(old(self)@, *event),
            match r {
                Some(text) => offer(old(self)@, *event) == Some(text@),
                None => offer(old(self)@, *event) is None,
            },
    {
        let step = on_reader_event(event);
        if self.over {
            return None;
        }
        match step {
            SubscriptionStep::Deliver(text) => Some(text),
            SubscriptionStep::Continue => None,
            SubscriptionStep::Stop => {
                self.over = true;
                None
            },
        }
    }

    /// Takes what became of the text that `on_event` gave.
    pub fn on_delivery(&mut self, delivery: &Delivery)
        ensures
            final(self)@ == delivered(old(self)@, *delivery),
    {
        match after_delivery(delivery) {
            SubscriptionStep::Stop => {
                self.over = true;
            },
            _ => {},
        }
    }
}

/// One turn of the reading loop.
pub struct Turn {
    /// The generation when it was looked at.
    pub generation: u64,
    /// The event that came in then.
    pub event: ReaderEvent,
    /// What became of its text, where it has one that is handed on.
    pub delivery: Delivery,
}

/// The text that is handed on in a turn.
pub open spec fn offered_in(s: ReadState, turn: Turn) -> Option<Seq<char>> {
    offer(looked(s, turn.generation), turn.event)
}

/// The state after a turn.
pub open spec fn after_turn(s: ReadState, turn: Turn) -> ReadState {
    let h = heard(looked(s, turn.generation), turn.event);
    if offered_in(s, turn) is Some {
        delivered(h, turn.delivery)
    } else {
        h
    }
}

/// The texts that are handed on in a run of turns.
pub open spec fn offered(s: ReadState, turns: Seq<Turn>) -> Seq<Seq<char>>
    decreases turns.len(),
{
    if turns.len() == 0 {
        seq![]
    } else {
        let rest = offered(after_turn(s, turns[0]), turns.drop_first());
        match offered_in(s, turns[0]) {
            Some(text) => seq![text] + rest,
            None => rest,
        }
    }
}

/// Those of them that were events and reached the receiver.
pub open spec fn forwarded(s: ReadState, turns: Seq<Turn>) -> Seq<Seq<char>>
    decreases turns.len(),
{
    if turns.len() == 0 {
        seq![]
    } else {
        let rest = forwarded(after_turn(s, turns[0]), turns.drop_first());
        match offered_in(s, turns[0]) {
            Some(text) => if turns[0].delivery is Sent {
                seq![text] + rest
            } else {
                rest
            },
            None => rest,
        }
    }
}

/// Tells whether a turn ends a subscription made at `generation`: by a changed generation, the
/// end of the stream or of its reader, or a text that nobody takes.
pub open spec fn stops(generation: u64, turn: Turn) -> bool {
    ||| turn.generation != generation
    ||| is_end(turn.event)
    ||| text_of(turn.event) is Some && turn.delivery is Refused
}

/// The number of turns before the first one that ends the subscription.
pub open spec fn turns_read(generation: u64, turns: Seq<Turn>) -> int
    decreases turns.len(),
{
    if turns.len() == 0 || stops(generation, turns[0]) {
        0
    } else {
        1 + turns_read(generation, turns.drop_first())
    }
}

/// The texts of all lines with text, in order.
pub open spec fn texts(turns: Seq<Turn>) -> Seq<Seq<char>>
    decreases turns.len(),
{
    if turns.len() == 0 {
        seq![]
    } else {
        match text_of(turns[0].event) {
            Some(text) => seq![text] + texts(turns.drop_first()),
            None => texts(turns.drop_first()),
        }
    }
}

/// The texts of all lines that were events and reached the receiver, in order.
pub open spec fn sent_texts(turns: Seq<Turn>) -> Seq<Seq<char>>
    decreases turns.len(),
{
    if turns.len() == 0 {
        seq![]
    } else {
        match text_of(turns[0].event) {
            Some(text) => if turns[0].delivery is Sent {
                seq![text] + sent_texts(turns.drop_first())
            } else {
                sent_texts(turns.drop_first())
            },
            None => sent_texts(turns.drop_first()),
        }
    }
}

/// The text that the turn that ends the subscription hands on: the one that nobody takes.
pub open spec fn refused_text(generation: u64, turns: Seq<Turn>) -> Seq<Seq<char>> {
    let n = turns_read(generation, turns);
    if n < turns.len() && turns[n].generation == generation && text_of(turns[n].event) is Some {
        seq![text_of(turns[n].event)->0]
    } else {
        seq![]
    }
}

/// `turns_read` counts the turns up to the first one that ends the subscription.
proof fn lemma_turns_read(generation: u64, turns: Seq<Turn>)
    ensures
        0 <= turns_read(generation, turns) <= turns.len(),
        forall|i: int|
            0 <= i < turns_read(generation, turns) ==> !stops(generation, #[trigger] turns[i]),
        turns_read(generation, turns) < turns.len() ==> stops(
            generation,
            turns[turns_read(generation, turns)],
        ),
    decreases turns.len(),
{
    if turns.len() > 0 && !stops(generation, turns[0]) {
        let rest = turns.drop_first();
        lemma_turns_read(generation, rest);
        assert forall|i: int| 0 <= i < turns_read(generation, turns) implies !stops(
            generation,
            #[trigger] turns[i],
        ) by {
            if i > 0 {
                assert(rest[i - 1] == turns[i]);
            }
        }
    }
}

/// A subscription that has ended hands nothing on.
proof fn lemma_over(s: ReadState, turns: Seq<Turn>)
    requires
        s.over,
    ensures
        offered(s, turns) == Seq::<Seq<char>>::empty(),
        forwarded(s, turns) == Seq::<Seq<char>>::empty(),
    decreases turns.len(),
{
    if turns.len() > 0 {
        lemma_over(after_turn(s, turns[0]), turns.drop_first());
    }
}

/// The texts that are handed on are exactly those of the lines with text, in order, up to the
/// first turn that finds a changed generation or the end of the stream or its reader, or whose
/// text nobody takes; that last text is still handed on, and nothing after it. Of these, the
/// receiver gets the ones that are events.
pub proof fn law_reads_until_the_end(generation: u64, turns: Seq<Turn>)
    ensures
        ({
            let s = ReadState { generation, over: false };
            let n = turns_read(generation, turns);
            &&& 0 <= n <= turns.len()
            &&& forall|i: int| 0 <= i < n ==> !stops(generation, #[trigger] turns[i])
            &&& n < turns.len() ==> stops(generation, turns[n])
            &&& offered(s, turns) == texts(turns.take(n)) + refused_text(generation, turns)
            &&& forwarded(s, turns) == sent_texts(turns.take(n))
        }),
    decreases turns.len(),
{
    let s = ReadState { generation, over: false };
    let n = turns_read(generation, turns);
    lemma_turns_read(generation, turns);
    if turns.len() > 0 {
        let rest = turns.drop_first();
        if stops(generation, turns[0]) {
            assert(turns.take(0) =~= Seq::<Turn>::empty());
            lemma_over(after_turn(s, turns[0]), rest);
            assert(offered(s, turns) =~= texts(turns.take(n)) + refused_text(generation, turns));
            assert(forwarded(s, turns) =~= sent_texts(turns.take(n)));
        } else {
            law_reads_until_the_end(generation, rest);
            lemma_turns_read(generation, rest);
            let m = turns_read(generation, rest);
            assert(turns.take(n).drop_first() =~= rest.take(m));
            assert(turns.take(n)[0] == turns[0]);
            assert(m < rest.len() ==> rest[m] == turns[n]);
            assert(refused_text(generation, turns) == refused_text(generation, rest));
            assert(after_turn(s, turns[0]) == s);
            assert(offered(s, turns) =~= texts(turns.take(n)) + refused_text(generation, turns));
            assert(forwarded(s, turns) =~= sent_texts(turns.take(n)));
        }
    } else {
        assert(turns.take(0) =~= turns);
        assert(offered(s, turns) =~= texts(turns.take(n)) + refused_text(generation, turns));
    }
}

/// What one turn hands on, and whether the subscription goes on after it.
///
/// A turn hands on the text of its line, where it has one, unless the subscription has ended or
/// the generation has changed. Nothing but a changed generation, the end of the stream or of its
/// reader, and a text that nobody takes ends the subscription, and nothing revives it.
pub proof fn law_one_turn(generation: u64, turn: Turn)
    ensures
        ({
            let s = ReadState { generation, over: false };
            let ended = ReadState { generation, over: true };
            let text = match turn.event {
                ReaderEvent::Line(line) => crate::subscription::payload(line@),
                _ => Seq::empty(),
            };
            &&& after_turn(ended, turn) == ended
            &&& offered_in(ended, turn) is None
            &&& after_turn(s, turn).generation == generation
            &&& turn.generation != generation ==> offered_in(s, turn) is None && after_turn(
                s,
                turn,
            ).over
            &&& turn.generation == generation ==> {
                &&& text.len() > 0 ==> offered_in(s, turn) == Some(text)
                &&& text.len() == 0 ==> offered_in(s, turn) is None
                &&& turn.event is Line ==> (after_turn(s, turn).over <==> text.len() > 0
                    && turn.delivery is Refused)
                &&& turn.event is Silent ==> !after_turn(s, turn).over
                &&& turn.event is Ended ==> after_turn(s, turn).over
                &&& turn.event is Gone ==> after_turn(s, turn).over
            }
        }),
{
}

/// What a single step of the loop does to the state.
pub proof fn law_steps_of_a_turn(
    generation: u64,
    current: u64,
    event: ReaderEvent,
    delivery: Delivery,
)
    ensures
        ({
            let s = ReadState { generation, over: false };
            let ended = ReadState { generation, over: true };
            &&& looked(s, generation) == s
            &&& current != generation ==> looked(s, current) == ended
            &&& looked(ended, current) == ended
            &&& (event is Line || event is Silent) ==> heard(s, event) == s
            &&& (event is Ended || event is Gone) ==> heard(s, event) == ended
            &&& heard(ended, event) == ended
            &&& (delivery is Sent || delivery is Unreadable) ==> delivered(s, delivery) == s
            &&& delivery is Refused ==> delivered(s, delivery) == ended
            &&& delivered(ended, delivery) == ended
        }),
{
}

/// What a run of turns hands on is what its first part does and then its second, from where the
/// first has led.
pub proof fn law_turns_follow_each_other(s: ReadState, turn: Turn, rest: Seq<Turn>)
    ensures
        offered(s, seq![turn] + rest) == (match offered_in(s, turn) {
            Some(text) => seq![text],
            None => seq![],
        }) + offered(after_turn(s, turn), rest),
        offered(s, seq![]) == Seq::<Seq<char>>::empty(),
        forwarded(s, seq![turn] + rest) == (match offered_in(s, turn) {
            Some(text) => if turn.delivery is Sent {
                seq![text]
            } else {
                seq![]
            },
            None => seq![],
        }) + forwarded(after_turn(s, turn), rest),
        forwarded(s, seq![]) == Seq::<Seq<char>>::empty(),
{
    let all = seq![turn] + rest;
    assert(all[0] == turn);
    assert(all.drop_first() =~= rest);
    assert(offered(s, all) =~= (match offered_in(s, turn) {
        Some(text) => seq![text],
        None => seq![],
    }) + offered(after_turn(s, turn), rest));
    assert(forwarded(s, all) =~= (match offered_in(s, turn) {
        Some(text) => if turn.delivery is Sent {
            seq![text]
        } else {
            seq![]
        },
        None => seq![],
    }) + forwarded(after_turn(s, turn), rest));
}

} // verus!
